//! Lexing of descriptor text into tokens.
//!
//! The descriptor grammar is token-based: identifiers, quoted strings, and
//! the four punctuation marks `{` `}` `=` `;`. Whitespace separates tokens.
//! Any other byte outside a quoted string is a parse error, so text that is
//! not in the engine's expected encoding is rejected at parse time.

use vstd::prelude::*;

verus! {

pub const B_TAB: u8 = 9;

pub const B_NL: u8 = 10;

pub const B_CR: u8 = 13;

pub const B_SPACE: u8 = 32;

pub const B_QUOTE: u8 = 34;

pub const B_SEMI: u8 = 59;

pub const B_EQ: u8 = 61;

pub const B_LBRACE: u8 = 123;

pub const B_RBRACE: u8 = 125;

/// Why a descriptor text was rejected.
#[derive(Clone, Copy, PartialEq, Eq, Structural, Debug)]
pub enum ParseCause {
    /// A quoted string reaches a line break or the end of the text before its
    /// closing quote.
    UnterminatedString,
    /// A byte outside the grammar's alphabet stands outside a quoted string.
    InvalidByte,
    /// A block is still open when the text ends; the location is the offset
    /// of the unterminated block's opening brace.
    UnterminatedBlock,
    /// A closing brace stands at the top level, outside any block.
    UnexpectedClose,
    /// A declaration was expected but the token there can start none.
    ExpectedDeclaration,
    /// A declaration keyword is not followed by a name.
    ExpectedName,
    /// A declaration header is not followed by an opening brace.
    ExpectedBlockOpen,
    /// An attribute's `=` is not followed by a quoted value.
    ExpectedValue,
    /// An attribute's value is not followed by `;`.
    ExpectedSemicolon,
    /// Two attributes of one declaration share a key.
    DuplicateAttribute,
    /// A key/value pair stands at the top level, outside any block.
    AttributeOutsideBlock,
    /// A key/value pair follows a child block of the same declaration.
    AttributeAfterChild,
    /// A block keyword outside the closed set of declaration kinds, while
    /// unknown-kind tolerance is off.
    UnknownKind,
}

/// A rejected descriptor text: the offending byte offset and the cause.
#[derive(Clone, Copy, PartialEq, Eq, Debug)]
pub struct ParseError {
    /// Byte offset into the descriptor text where the problem stands.
    pub offset: usize,
    /// What the problem is.
    pub cause: ParseCause,
}

/// The mathematical value of a [`ParseError`].
pub struct SpecParseErr {
    pub offset: int,
    pub cause: ParseCause,
}

impl View for ParseError {
    type V = SpecParseErr;

    open spec fn view(&self) -> SpecParseErr {
        SpecParseErr { offset: self.offset as int, cause: self.cause }
    }
}

/// The kinds of token the lexer produces.
#[derive(Clone, Copy, PartialEq, Eq, Structural, Debug)]
pub enum TokKind {
    /// A run of letters, digits and underscores.
    Ident,
    /// A quoted string; the token text is the bytes between the quotes.
    Str,
    LBrace,
    RBrace,
    Eq,
    Semi,
}

/// One token: its kind, its text, and the byte offset where it starts.
pub struct Token {
    pub kind: TokKind,
    pub text: Vec<u8>,
    pub offset: usize,
}

/// The mathematical value of a [`Token`].
pub struct STok {
    pub kind: TokKind,
    pub text: Seq<u8>,
    pub offset: int,
}

impl View for Token {
    type V = STok;

    open spec fn view(&self) -> STok {
        STok { kind: self.kind, text: self.text@, offset: self.offset as int }
    }
}

/// The sequence of mathematical token values of a token vector.
pub open spec fn toks_view(v: Seq<Token>) -> Seq<STok> {
    v.map_values(|t: Token| t@)
}

/// Whitespace separates tokens and is otherwise ignored.
pub open spec fn is_ws(b: u8) -> bool {
    b == B_SPACE || b == B_TAB || b == B_NL || b == B_CR
}

/// The bytes an identifier may consist of: ASCII letters, digits, underscore.
pub open spec fn is_ident_byte(b: u8) -> bool {
    (48 <= b && b <= 57) || (65 <= b && b <= 90) || (97 <= b && b <= 122) || b == 95
}

/// How many identifier bytes stand at `q`.
pub open spec fn sp_ident_len(s: Seq<u8>, q: int) -> nat
    decreases s.len() - q,
{
    if 0 <= q < s.len() && is_ident_byte(s[q]) {
        1 + sp_ident_len(s, q + 1)
    } else {
        0
    }
}

/// An identifier run starting inside the text ends inside the text.
proof fn lemma_ident_len_bound(s: Seq<u8>, q: int)
    ensures
        0 <= q <= s.len() ==> q + sp_ident_len(s, q) <= s.len(),
    decreases s.len() - q,
{
    if 0 <= q < s.len() && is_ident_byte(s[q]) {
        lemma_ident_len_bound(s, q + 1)
    }
}

/// How many string-body bytes stand at `q`: bytes up to the first quote, line
/// break, or the end of the text.
pub open spec fn sp_str_body_len(s: Seq<u8>, q: int) -> nat
    decreases s.len() - q,
{
    if 0 <= q < s.len() && s[q] != B_QUOTE && s[q] != B_NL {
        1 + sp_str_body_len(s, q + 1)
    } else {
        0
    }
}

/// What lexing the text from a position yields: the remaining tokens, or the
/// first lexical error.
pub enum LexOut {
    Toks(Seq<STok>),
    Fail(SpecParseErr),
}

/// Prepends a token to a lexing result, keeping a failure as it is.
pub open spec fn cons_tok(t: STok, rest: LexOut) -> LexOut {
    match rest {
        LexOut::Toks(ts) => LexOut::Toks(seq![t] + ts),
        LexOut::Fail(e) => LexOut::Fail(e),
    }
}

/// The token sequence of the descriptor text from byte `pos` on, or the first
/// lexical error at or after `pos`.
pub open spec fn sp_lex(s: Seq<u8>, pos: int) -> LexOut
    decreases s.len() - pos,
    via sp_lex_dec
{
    if pos < 0 || pos >= s.len() {
        LexOut::Toks(Seq::empty())
    } else if is_ws(s[pos]) {
        sp_lex(s, pos + 1)
    } else if s[pos] == B_LBRACE {
        cons_tok(STok { kind: TokKind::LBrace, text: Seq::empty(), offset: pos }, sp_lex(s, pos + 1))
    } else if s[pos] == B_RBRACE {
        cons_tok(STok { kind: TokKind::RBrace, text: Seq::empty(), offset: pos }, sp_lex(s, pos + 1))
    } else if s[pos] == B_EQ {
        cons_tok(STok { kind: TokKind::Eq, text: Seq::empty(), offset: pos }, sp_lex(s, pos + 1))
    } else if s[pos] == B_SEMI {
        cons_tok(STok { kind: TokKind::Semi, text: Seq::empty(), offset: pos }, sp_lex(s, pos + 1))
    } else if is_ident_byte(s[pos]) {
        let e = pos + 1 + sp_ident_len(s, pos + 1);
        cons_tok(STok { kind: TokKind::Ident, text: s.subrange(pos, e), offset: pos }, sp_lex(s, e))
    } else if s[pos] == B_QUOTE {
        let b = pos + 1 + sp_str_body_len(s, pos + 1);
        if b < s.len() && s[b] == B_QUOTE {
            cons_tok(
                STok { kind: TokKind::Str, text: s.subrange(pos + 1, b), offset: pos },
                sp_lex(s, b + 1),
            )
        } else {
            LexOut::Fail(SpecParseErr { offset: pos, cause: ParseCause::UnterminatedString })
        }
    } else {
        LexOut::Fail(SpecParseErr { offset: pos, cause: ParseCause::InvalidByte })
    }
}

#[via_fn]
proof fn sp_lex_dec(s: Seq<u8>, pos: int) {
    lemma_ident_len_bound(s, pos + 1);
}

/// Whether a byte may stand in an identifier.
fn ident_byte(b: u8) -> (r: bool)
    ensures
        r == is_ident_byte(b),
{
    (48 <= b && b <= 57) || (65 <= b && b <= 90) || (97 <= b && b <= 122) || b == 95
}

/// Scans the identifier run starting at `q`.
fn scan_ident(s: &Vec<u8>, q: usize) -> (e: usize)
    requires
        q <= s@.len(),
    ensures
        e == q + sp_ident_len(s@, q as int),
        q <= e <= s@.len(),
{
    let mut e: usize = q;
    while e < s.len() && ident_byte(s[e])
        invariant
            q <= e <= s@.len(),
            sp_ident_len(s@, q as int) == (e - q) + sp_ident_len(s@, e as int),
        decreases s@.len() - e,
    {
        e += 1;
    }
    e
}

/// Scans the string body starting at `q`.
fn scan_str_body(s: &Vec<u8>, q: usize) -> (e: usize)
    requires
        q <= s@.len(),
    ensures
        e == q + sp_str_body_len(s@, q as int),
        q <= e <= s@.len(),
{
    let mut e: usize = q;
    while e < s.len() && s[e] != B_QUOTE && s[e] != B_NL
        invariant
            q <= e <= s@.len(),
            sp_str_body_len(s@, q as int) == (e - q) + sp_str_body_len(s@, e as int),
        decreases s@.len() - e,
    {
        e += 1;
    }
    e
}

/// A fresh copy of the byte range `[a, b)` of the text.
fn sub_bytes(s: &Vec<u8>, a: usize, b: usize) -> (r: Vec<u8>)
    requires
        a <= b <= s@.len(),
    ensures
        r@ == s@.subrange(a as int, b as int),
{
    let mut out: Vec<u8> = Vec::new();
    let mut i: usize = a;
    while i < b
        invariant
            a <= i <= b <= s@.len(),
            out@ == s@.subrange(a as int, i as int),
        decreases b - i,
    {
        out.push(s[i]);
        assert(out@ =~= s@.subrange(a as int, i + 1 as int));
        i += 1;
    }
    out
}

/// Lexes the text from `pos` on, appending the tokens to `out`.
fn lex_from(s: &Vec<u8>, pos: usize, out: &mut Vec<Token>) -> (r: Result<(), ParseError>)
    requires
        pos <= s@.len(),
    ensures
        ({
            let lo = sp_lex(s@, pos as int);
            match r {
                Result::Ok(()) => lo matches LexOut::Toks(ts) && toks_view(final(out)@)
                    == toks_view(old(out)@) + ts,
                Result::Err(e) => lo == LexOut::Fail(e@),
            }
        }),
    decreases s@.len() - pos,
{
    if pos >= s.len() {
        proof {
            assert(toks_view(out@) =~= toks_view(out@) + Seq::<STok>::empty());
        }
        return Result::Ok(());
    }
    let b = s[pos];
    if b == B_SPACE || b == B_TAB || b == B_NL || b == B_CR {
        lex_from(s, pos + 1, out)
    } else if b == B_LBRACE || b == B_RBRACE || b == B_EQ || b == B_SEMI {
        let kind = if b == B_LBRACE {
            TokKind::LBrace
        } else if b == B_RBRACE {
            TokKind::RBrace
        } else if b == B_EQ {
            TokKind::Eq
        } else {
            TokKind::Semi
        };
        let tok = Token { kind, text: Vec::new(), offset: pos };
        let ghost tv = tok@;
        let ghost before = out@;
        out.push(tok);
        proof {
            assert(toks_view(out@) =~= toks_view(before) + seq![tv]);
        }
        let r = lex_from(s, pos + 1, out);
        proof {
            if let Result::Ok(()) = r {
                if let LexOut::Toks(ts) = sp_lex(s@, pos + 1 as int) {
                    assert(toks_view(out@) =~= toks_view(before) + (seq![tv] + ts));
                }
            }
        }
        r
    } else if ident_byte(b) {
        let e = scan_ident(s, pos + 1);
        let tok = Token { kind: TokKind::Ident, text: sub_bytes(s, pos, e), offset: pos };
        let ghost tv = tok@;
        let ghost before = out@;
        out.push(tok);
        proof {
            assert(toks_view(out@) =~= toks_view(before) + seq![tv]);
        }
        let r = lex_from(s, e, out);
        proof {
            if let Result::Ok(()) = r {
                if let LexOut::Toks(ts) = sp_lex(s@, e as int) {
                    assert(toks_view(out@) =~= toks_view(before) + (seq![tv] + ts));
                }
            }
        }
        r
    } else if b == B_QUOTE {
        let e = scan_str_body(s, pos + 1);
        if e < s.len() && s[e] == B_QUOTE {
            let tok = Token { kind: TokKind::Str, text: sub_bytes(s, pos + 1, e), offset: pos };
            let ghost tv = tok@;
            let ghost before = out@;
            out.push(tok);
            proof {
                assert(toks_view(out@) =~= toks_view(before) + seq![tv]);
            }
            let r = lex_from(s, e + 1, out);
            proof {
                if let Result::Ok(()) = r {
                    if let LexOut::Toks(ts) = sp_lex(s@, e + 1 as int) {
                        assert(toks_view(out@) =~= toks_view(before) + (seq![tv] + ts));
                    }
                }
            }
            r
        } else {
            Result::Err(ParseError { offset: pos, cause: ParseCause::UnterminatedString })
        }
    } else {
        Result::Err(ParseError { offset: pos, cause: ParseCause::InvalidByte })
    }
}

/// Lexes a whole descriptor text.
pub fn lex(s: &Vec<u8>) -> (r: Result<Vec<Token>, ParseError>)
    ensures
        ({
            let lo = sp_lex(s@, 0);
            match r {
                Result::Ok(toks) => lo == LexOut::Toks(toks_view(toks@)),
                Result::Err(e) => lo == LexOut::Fail(e@),
            }
        }),
{
    let mut out: Vec<Token> = Vec::new();
    match lex_from(s, 0, &mut out) {
        Result::Ok(()) => {
            proof {
                if let LexOut::Toks(ts) = sp_lex(s@, 0) {
                    assert(toks_view(out@) =~= ts);
                }
            }
            Result::Ok(out)
        },
        Result::Err(e) => Result::Err(e),
    }
}

} // verus!
