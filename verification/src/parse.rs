//! The descriptor parser: token stream to declarative model.
//!
//! Grammar, over the tokens of [`crate::lex`]:
//!
//! ```text
//! descriptor  :=  declaration*
//! declaration :=  kind-ident name-ident '{' attribute* declaration* '}'
//! attribute   :=  key-ident '=' string ';'
//! ```
//!
//! The parser rejects unterminated blocks, duplicate attribute keys within
//! one declaration, and unknown declaration kinds (unless unknown-kind
//! tolerance is requested). It stops at the first error: no partial model is
//! ever returned. Declarations come out flattened in depth-first source
//! order, which the evaluator's walk and the artifact order follow exactly.

use vstd::prelude::*;

use crate::lex::{
    lex, sp_lex, toks_view, LexOut, ParseCause, ParseError, SpecParseErr, STok, TokKind, Token,
};
use crate::model::{
    clone_bytes, decls_view, kind_of, spec_has_key, spec_kind_of, Attr, Declaration, DeclKind,
    Model, SpecDecl,
};

verus! {

/// What parsing yields: the flattened declarations, or the first error.
pub enum PRes {
    Done(Seq<SpecDecl>),
    Fail(SpecParseErr),
}

/// The sequence of mathematical values of an open-brace offset stack.
pub open spec fn opens_view(v: Seq<usize>) -> Seq<int> {
    v.map_values(|x: usize| x as int)
}

/// The offset to report an error at when the expected token is missing: the
/// token at `j`, or the last token of the text if `j` is past the end.
pub open spec fn sp_off_after(toks: Seq<STok>, j: int) -> int {
    if 0 <= j < toks.len() {
        toks[j].offset
    } else if toks.len() > 0 {
        toks[toks.len() - 1].offset
    } else {
        0
    }
}

/// The result of parsing the token stream from token `i` on, inside `depth`
/// open blocks whose opening-brace offsets are `opens`, with the
/// declarations accumulated so far in `acc`. `can_attr` says whether a
/// key/value pair may still be attached to the innermost open declaration
/// (it may until that declaration's first child block).
pub open spec fn sp_parse_step(
    toks: Seq<STok>,
    i: int,
    depth: int,
    opens: Seq<int>,
    can_attr: bool,
    acc: Seq<SpecDecl>,
    tolerant: bool,
) -> PRes
    decreases toks.len() - i,
{
    if i < 0 || i >= toks.len() {
        if depth == 0 {
            PRes::Done(acc)
        } else {
            PRes::Fail(SpecParseErr { offset: opens.last(), cause: ParseCause::UnterminatedBlock })
        }
    } else if toks[i].kind == TokKind::RBrace {
        if depth == 0 {
            PRes::Fail(SpecParseErr { offset: toks[i].offset, cause: ParseCause::UnexpectedClose })
        } else {
            sp_parse_step(toks, i + 1, depth - 1, opens.drop_last(), false, acc, tolerant)
        }
    } else if toks[i].kind == TokKind::Ident {
        if i + 1 < toks.len() && toks[i + 1].kind == TokKind::Eq {
            if depth == 0 {
                PRes::Fail(
                    SpecParseErr {
                        offset: toks[i].offset,
                        cause: ParseCause::AttributeOutsideBlock,
                    },
                )
            } else if !can_attr {
                PRes::Fail(
                    SpecParseErr { offset: toks[i].offset, cause: ParseCause::AttributeAfterChild },
                )
            } else if !(i + 2 < toks.len() && toks[i + 2].kind == TokKind::Str) {
                PRes::Fail(
                    SpecParseErr {
                        offset: sp_off_after(toks, i + 2),
                        cause: ParseCause::ExpectedValue,
                    },
                )
            } else if !(i + 3 < toks.len() && toks[i + 3].kind == TokKind::Semi) {
                PRes::Fail(
                    SpecParseErr {
                        offset: sp_off_after(toks, i + 3),
                        cause: ParseCause::ExpectedSemicolon,
                    },
                )
            } else {
                let last = acc.last();
                if spec_has_key(last.attrs, toks[i].text) {
                    PRes::Fail(
                        SpecParseErr {
                            offset: toks[i].offset,
                            cause: ParseCause::DuplicateAttribute,
                        },
                    )
                } else {
                    let updated = SpecDecl {
                        attrs: last.attrs.push((toks[i].text, toks[i + 2].text)),
                        ..last
                    };
                    sp_parse_step(
                        toks,
                        i + 4,
                        depth,
                        opens,
                        true,
                        acc.update(acc.len() - 1, updated),
                        tolerant,
                    )
                }
            }
        } else {
            let kind = spec_kind_of(toks[i].text);
            if kind == DeclKind::Other && !tolerant {
                PRes::Fail(
                    SpecParseErr { offset: toks[i].offset, cause: ParseCause::UnknownKind },
                )
            } else if !(i + 1 < toks.len() && toks[i + 1].kind == TokKind::Ident) {
                PRes::Fail(
                    SpecParseErr {
                        offset: sp_off_after(toks, i + 1),
                        cause: ParseCause::ExpectedName,
                    },
                )
            } else if !(i + 2 < toks.len() && toks[i + 2].kind == TokKind::LBrace) {
                PRes::Fail(
                    SpecParseErr {
                        offset: sp_off_after(toks, i + 2),
                        cause: ParseCause::ExpectedBlockOpen,
                    },
                )
            } else {
                let decl = SpecDecl {
                    kind,
                    name: toks[i + 1].text,
                    depth,
                    attrs: Seq::empty(),
                    offset: toks[i].offset,
                };
                sp_parse_step(
                    toks,
                    i + 3,
                    depth + 1,
                    opens.push(toks[i + 2].offset),
                    true,
                    acc.push(decl),
                    tolerant,
                )
            }
        }
    } else {
        PRes::Fail(SpecParseErr { offset: toks[i].offset, cause: ParseCause::ExpectedDeclaration })
    }
}

/// What parsing a whole descriptor text yields.
pub open spec fn sp_parse(text: Seq<u8>, tolerant: bool) -> PRes {
    match sp_lex(text, 0) {
        LexOut::Fail(e) => PRes::Fail(e),
        LexOut::Toks(ts) => sp_parse_step(ts, 0, 0, Seq::empty(), false, Seq::empty(), tolerant),
    }
}

/// Pairwise-distinct attribute keys: what the duplicate-key rejection
/// guarantees of every declaration the parser emits.
pub open spec fn wf_attrs(attrs: Seq<(Seq<u8>, Seq<u8>)>) -> bool {
    forall|j: int, k: int|
        0 <= j < k < attrs.len() ==> (#[trigger] attrs[j]).0 != (#[trigger] attrs[k]).0
}

/// A well-formed declaration: unique attribute keys, a non-negative depth,
/// and a kind inside the closed set unless tolerant parsing admitted it.
pub open spec fn wf_decl(d: SpecDecl, tolerant: bool) -> bool {
    wf_attrs(d.attrs) && d.depth >= 0 && (!tolerant ==> d.kind != DeclKind::Other)
}

/// A well-formed model: every declaration in it is well-formed.
pub open spec fn wf_model(ds: Seq<SpecDecl>, tolerant: bool) -> bool {
    forall|i: int| 0 <= i < ds.len() ==> wf_decl(#[trigger] ds[i], tolerant)
}

/// A key that `spec_has_key` misses is bound by no attribute at all.
proof fn lemma_absent_key(attrs: Seq<(Seq<u8>, Seq<u8>)>, key: Seq<u8>)
    requires
        !spec_has_key(attrs, key),
    ensures
        forall|j: int| 0 <= j < attrs.len() ==> (#[trigger] attrs[j]).0 != key,
    decreases attrs.len(),
{
    if attrs.len() > 0 {
        lemma_absent_key(attrs.skip(1), key);
        assert forall|j: int| 0 <= j < attrs.len() implies (#[trigger] attrs[j]).0 != key by {
            if j > 0 {
                assert(attrs.skip(1)[j - 1] == attrs[j]);
            }
        }
    }
}

/// Whatever the parser finishes with is well-formed, provided what it has
/// accumulated so far is.
proof fn lemma_parse_step_wf(
    toks: Seq<STok>,
    i: int,
    depth: int,
    opens: Seq<int>,
    can_attr: bool,
    acc: Seq<SpecDecl>,
    tolerant: bool,
)
    requires
        wf_model(acc, tolerant),
        depth >= 0,
        can_attr ==> acc.len() >= 1,
    ensures
        sp_parse_step(toks, i, depth, opens, can_attr, acc, tolerant) matches PRes::Done(ds)
            ==> wf_model(ds, tolerant),
    decreases toks.len() - i,
{
    if i < 0 || i >= toks.len() {
    } else if toks[i].kind == TokKind::RBrace {
        if depth > 0 {
            lemma_parse_step_wf(toks, i + 1, depth - 1, opens.drop_last(), false, acc, tolerant);
        }
    } else if toks[i].kind == TokKind::Ident {
        if i + 1 < toks.len() && toks[i + 1].kind == TokKind::Eq {
            if depth > 0 && can_attr && i + 2 < toks.len() && toks[i + 2].kind == TokKind::Str && i
                + 3 < toks.len() && toks[i + 3].kind == TokKind::Semi {
                let last = acc.last();
                if !spec_has_key(last.attrs, toks[i].text) {
                    let updated = SpecDecl {
                        attrs: last.attrs.push((toks[i].text, toks[i + 2].text)),
                        ..last
                    };
                    lemma_absent_key(last.attrs, toks[i].text);
                    assert(wf_decl(acc[acc.len() - 1], tolerant));
                    assert(wf_attrs(updated.attrs)) by {
                        assert forall|j: int, k: int|
                            0 <= j < k < updated.attrs.len() implies (#[trigger] updated.attrs[j]).0
                            != (#[trigger] updated.attrs[k]).0 by {
                            if k < updated.attrs.len() - 1 {
                                assert(wf_attrs(last.attrs));
                            } else {
                                assert(updated.attrs[j] == last.attrs[j]);
                            }
                        }
                    }
                    lemma_parse_step_wf(
                        toks,
                        i + 4,
                        depth,
                        opens,
                        true,
                        acc.update(acc.len() - 1, updated),
                        tolerant,
                    );
                }
            }
        } else {
            let kind = spec_kind_of(toks[i].text);
            if !(kind == DeclKind::Other && !tolerant) && i + 1 < toks.len() && toks[i + 1].kind
                == TokKind::Ident && i + 2 < toks.len() && toks[i + 2].kind == TokKind::LBrace {
                let decl = SpecDecl {
                    kind,
                    name: toks[i + 1].text,
                    depth,
                    attrs: Seq::empty(),
                    offset: toks[i].offset,
                };
                assert(wf_decl(decl, tolerant));
                lemma_parse_step_wf(
                    toks,
                    i + 3,
                    depth + 1,
                    opens.push(toks[i + 2].offset),
                    true,
                    acc.push(decl),
                    tolerant,
                );
            }
        }
    }
}

/// The parser's structural guarantee: a model it returns holds only
/// well-formed declarations — unique attribute keys, and no kind outside
/// the closed set unless tolerant parsing admitted it.
pub proof fn lemma_parse_wf(text: Seq<u8>, tolerant: bool)
    ensures
        sp_parse(text, tolerant) matches PRes::Done(ds) ==> wf_model(ds, tolerant),
{
    if let LexOut::Toks(ts) = sp_lex(text, 0) {
        lemma_parse_step_wf(ts, 0, 0, Seq::empty(), false, Seq::empty(), tolerant);
    }
}

/// The error offset for a missing token at position `j`.
fn off_after(toks: &Vec<Token>, j: usize) -> (r: usize)
    ensures
        r == sp_off_after(toks_view(toks@), j as int),
{
    if j < toks.len() {
        toks[j].offset
    } else if toks.len() > 0 {
        toks[toks.len() - 1].offset
    } else {
        0
    }
}

/// Whether a declaration already carries an attribute with this key.
fn has_attr_key(attrs: &Vec<Attr>, key: &Vec<u8>) -> (r: bool)
    ensures
        r == spec_has_key(attrs@.map_values(|a: Attr| a@), key@),
{
    match crate::model::attr_value(attrs, key) {
        Option::Some(_) => true,
        Option::None => false,
    }
}

/// Parses the token stream from token `i` on, appending declarations to
/// `acc`; `opens` holds the opening-brace offsets of the blocks still open.
fn parse_step(
    toks: &Vec<Token>,
    i: usize,
    depth: usize,
    opens: &mut Vec<usize>,
    can_attr: bool,
    acc: &mut Vec<Declaration>,
    tolerant: bool,
) -> (r: Result<(), ParseError>)
    requires
        i <= toks@.len(),
        depth <= i,
        depth == old(opens)@.len(),
        can_attr ==> old(acc)@.len() >= 1,
    ensures
        ({
            let out = sp_parse_step(
                toks_view(toks@),
                i as int,
                depth as int,
                opens_view(old(opens)@),
                can_attr,
                decls_view(old(acc)@),
                tolerant,
            );
            match r {
                Result::Ok(()) => out == PRes::Done(decls_view(final(acc)@)),
                Result::Err(e) => out == PRes::Fail(e@),
            }
        }),
    decreases toks@.len() - i,
{
    let ghost tv = toks_view(toks@);
    if i >= toks.len() {
        if depth == 0 {
            return Result::Ok(());
        } else {
            let off = opens[opens.len() - 1];
            proof {
                assert(opens_view(opens@).last() == off as int);
            }
            return Result::Err(ParseError { offset: off, cause: ParseCause::UnterminatedBlock });
        }
    }
    if toks[i].kind == TokKind::RBrace {
        if depth == 0 {
            return Result::Err(
                ParseError { offset: toks[i].offset, cause: ParseCause::UnexpectedClose },
            );
        }
        let ghost opens0 = opens@;
        opens.pop();
        proof {
            assert(opens_view(opens@) =~= opens_view(opens0).drop_last());
        }
        return parse_step(toks, i + 1, depth - 1, opens, false, acc, tolerant);
    }
    if toks[i].kind == TokKind::Ident {
        if i + 1 < toks.len() && toks[i + 1].kind == TokKind::Eq {
            if depth == 0 {
                return Result::Err(
                    ParseError { offset: toks[i].offset, cause: ParseCause::AttributeOutsideBlock },
                );
            }
            if !can_attr {
                return Result::Err(
                    ParseError { offset: toks[i].offset, cause: ParseCause::AttributeAfterChild },
                );
            }
            if !(i + 2 < toks.len() && toks[i + 2].kind == TokKind::Str) {
                return Result::Err(
                    ParseError { offset: off_after(toks, i + 2), cause: ParseCause::ExpectedValue },
                );
            }
            if !(i + 3 < toks.len() && toks[i + 3].kind == TokKind::Semi) {
                return Result::Err(
                    ParseError {
                        offset: off_after(toks, i + 3),
                        cause: ParseCause::ExpectedSemicolon,
                    },
                );
            }
            let ghost acc0 = acc@;
            let mut last = acc.pop().unwrap();
            if has_attr_key(&last.attrs, &toks[i].text) {
                return Result::Err(
                    ParseError { offset: toks[i].offset, cause: ParseCause::DuplicateAttribute },
                );
            }
            let ghost last0 = last@;
            last.attrs.push(
                Attr { key: clone_bytes(&toks[i].text), value: clone_bytes(&toks[i + 2].text) },
            );
            proof {
                assert(last@.attrs =~= last0.attrs.push((tv[i as int].text, tv[i + 2].text)));
            }
            acc.push(last);
            proof {
                let updated = SpecDecl {
                    attrs: last0.attrs.push((tv[i as int].text, tv[i + 2].text)),
                    ..last0
                };
                assert(decls_view(acc@) =~= decls_view(acc0).update(
                    decls_view(acc0).len() - 1,
                    updated,
                ));
            }
            return parse_step(toks, i + 4, depth, opens, true, acc, tolerant);
        } else {
            let kind = kind_of(&toks[i].text);
            if kind == DeclKind::Other && !tolerant {
                return Result::Err(
                    ParseError { offset: toks[i].offset, cause: ParseCause::UnknownKind },
                );
            }
            if !(i + 1 < toks.len() && toks[i + 1].kind == TokKind::Ident) {
                return Result::Err(
                    ParseError { offset: off_after(toks, i + 1), cause: ParseCause::ExpectedName },
                );
            }
            if !(i + 2 < toks.len() && toks[i + 2].kind == TokKind::LBrace) {
                return Result::Err(
                    ParseError {
                        offset: off_after(toks, i + 2),
                        cause: ParseCause::ExpectedBlockOpen,
                    },
                );
            }
            let ghost acc0 = acc@;
            let ghost opens0 = opens@;
            let decl = Declaration {
                kind,
                name: clone_bytes(&toks[i + 1].text),
                depth,
                attrs: Vec::new(),
                offset: toks[i].offset,
            };
            proof {
                assert(decl@ =~= (SpecDecl {
                    kind: spec_kind_of(tv[i as int].text),
                    name: tv[i + 1].text,
                    depth: depth as int,
                    attrs: Seq::<(Seq<u8>, Seq<u8>)>::empty(),
                    offset: tv[i as int].offset,
                }));
            }
            acc.push(decl);
            opens.push(toks[i + 2].offset);
            proof {
                assert(decls_view(acc@) =~= decls_view(acc0).push(
                    SpecDecl {
                        kind: spec_kind_of(tv[i as int].text),
                        name: tv[i + 1].text,
                        depth: depth as int,
                        attrs: Seq::<(Seq<u8>, Seq<u8>)>::empty(),
                        offset: tv[i as int].offset,
                    },
                ));
                assert(opens_view(opens@) =~= opens_view(opens0).push(tv[i + 2].offset));
            }
            return parse_step(toks, i + 3, depth + 1, opens, true, acc, tolerant);
        }
    }
    Result::Err(ParseError { offset: toks[i].offset, cause: ParseCause::ExpectedDeclaration })
}

/// Parses a descriptor text into the declarative model.
///
/// On success the model holds the declarations in depth-first source order.
/// On failure no model is returned: the error carries the byte offset of the
/// first problem and its cause.
pub fn parse(text: &Vec<u8>, tolerant: bool) -> (r: Result<Model, ParseError>)
    ensures
        match r {
            Result::Ok(m) => sp_parse(text@, tolerant) == PRes::Done(m@) && wf_model(
                m@,
                tolerant,
            ),
            Result::Err(e) => sp_parse(text@, tolerant) == PRes::Fail(e@),
        },
{
    proof {
        lemma_parse_wf(text@, tolerant);
    }
    let toks = match lex(text) {
        Result::Ok(t) => t,
        Result::Err(e) => {
            return Result::Err(e);
        },
    };
    let mut opens: Vec<usize> = Vec::new();
    let mut decls: Vec<Declaration> = Vec::new();
    proof {
        assert(opens_view(opens@) =~= Seq::<int>::empty());
        assert(decls_view(decls@) =~= Seq::<SpecDecl>::empty());
        assert(toks_view(toks@) == toks_view(toks@));
    }
    match parse_step(&toks, 0, 0, &mut opens, false, &mut decls, tolerant) {
        Result::Ok(()) => Result::Ok(Model { decls }),
        Result::Err(e) => Result::Err(e),
    }
}

} // verus!
