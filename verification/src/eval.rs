//! The rule evaluator: walks the declarative model, resolves references,
//! applies the active compliance rules, and collects diagnostics and
//! artifacts.
//!
//! The walk is a single left-to-right pass over the model's depth-first
//! declaration order. Content-level problems (duplicate names, unresolved
//! references, non-compliant placements, reference cycles) become
//! diagnostics and never abort the pass; artifacts are produced in exactly
//! the traversal order of the declarations that generate them.
//!
//! Reference cycles are detected by bounding every resolution chain by the
//! number of declarations: a chain that long must revisit a declaration, so
//! it is reported as a single circular-reference diagnostic, the chain's
//! members are marked, and any later resolution reaching a marked
//! declaration skips the cyclic branch silently. Every function here is
//! total, so evaluation terminates on every input.

use vstd::prelude::*;

use crate::flags::ComplianceFlags;
use crate::model::{
    attr_value, clone_bytes, decls_view, key_path, key_target, spec_attr_value, Declaration,
    DeclKind, Model, SpecDecl,
};
use crate::paths::{
    effective_path, expected_path, fhs_ok, sp_base_view, sp_effective, sp_expected, sp_fhs_ok,
};
use crate::report::{
    arts_view, diags_view, Artifact, DiagKind, Diagnostic, Severity, SpecArt, SpecDiag,
    SpecDiagKind,
};

verus! {

/// A caller-supplied placement override: declarations with this name take
/// this path in place of their declared one.
pub struct Override {
    pub name: Vec<u8>,
    pub path: Vec<u8>,
}

impl View for Override {
    type V = (Seq<u8>, Seq<u8>);

    open spec fn view(&self) -> (Seq<u8>, Seq<u8>) {
        (self.name@, self.path@)
    }
}

/// The override table a caller supplied, or the neutral empty table.
pub open spec fn sp_ovr_view(o: Option<Vec<Override>>) -> Seq<(Seq<u8>, Seq<u8>)> {
    match o {
        Option::Some(v) => v@.map_values(|x: Override| x@),
        Option::None => Seq::empty(),
    }
}

/// The mathematical values of an index vector's entries.
pub open spec fn idx_view(v: Seq<(Vec<u8>, usize)>) -> Seq<(Seq<u8>, int)> {
    v.map_values(|p: (Vec<u8>, usize)| (p.0@, p.1 as int))
}

/// The mathematical values of an index-chain vector.
pub open spec fn ixs_view(v: Seq<usize>) -> Seq<int> {
    v.map_values(|x: usize| x as int)
}

/// The declaration a name resolves to: the latest binding wins, so a later
/// declaration shadows an earlier one of the same name.
pub open spec fn sp_lookup(idx: Seq<(Seq<u8>, int)>, name: Seq<u8>) -> Option<int>
    decreases idx.len(),
{
    if idx.len() == 0 {
        Option::None
    } else if idx.last().0 == name {
        Option::Some(idx.last().1)
    } else {
        sp_lookup(idx.drop_last(), name)
    }
}

/// The path an override table binds a name to: the first binding wins.
pub open spec fn sp_lookup_ovr(ovr: Seq<(Seq<u8>, Seq<u8>)>, name: Seq<u8>) -> Option<Seq<u8>>
    decreases ovr.len(),
{
    if ovr.len() == 0 {
        Option::None
    } else if ovr[0].0 == name {
        Option::Some(ovr[0].1)
    } else {
        sp_lookup_ovr(ovr.skip(1), name)
    }
}

/// The duplicate-declaration diagnostic for a name declared at `j` and again
/// at `i`: it reports both locations.
pub open spec fn sp_dup_diag(decls: Seq<SpecDecl>, j: int, i: int) -> SpecDiag {
    SpecDiag {
        severity: Severity::Error,
        kind: SpecDiagKind::DuplicateDeclaration {
            name: decls[i].name,
            first_offset: decls[j].offset,
            second_offset: decls[i].offset,
        },
        offset: Option::Some(decls[i].offset),
    }
}

/// The name-to-declaration index and duplicate-name diagnostics of the model
/// from declaration `i` on, given what the single pass has accumulated.
pub open spec fn sp_index_step(
    decls: Seq<SpecDecl>,
    i: int,
    idx: Seq<(Seq<u8>, int)>,
    diags: Seq<SpecDiag>,
) -> (Seq<(Seq<u8>, int)>, Seq<SpecDiag>)
    decreases decls.len() - i,
{
    if i < 0 || i >= decls.len() {
        (idx, diags)
    } else {
        let diags2 = match sp_lookup(idx, decls[i].name) {
            Option::Some(j) => diags.push(sp_dup_diag(decls, j, i)),
            Option::None => diags,
        };
        sp_index_step(decls, i + 1, idx.push((decls[i].name, i)), diags2)
    }
}

/// What resolving one declaration yields.
pub enum Resolution {
    /// The resolution reached a declaration already marked as part of a
    /// reported cycle: the cyclic branch is skipped silently.
    Skip,
    /// A new reference cycle; carries the chain of alias indices followed.
    Cycle(Seq<int>),
    /// A referenced name with no definition.
    Unresolved(Seq<u8>),
    /// Resolution ended at the resource declaration with this index.
    Placed(int),
    /// The declaration places nothing: a group, or a tolerated unknown kind.
    Neutral,
}

/// Whether declaration `c` is marked as belonging to a reported cycle.
pub open spec fn sp_marked_at(marked: Seq<bool>, c: int) -> bool {
    0 <= c < marked.len() && marked[c]
}

/// Follows a declaration's reference chain. `fuel` bounds the chain by the
/// number of declarations: a longer chain must revisit a declaration, so
/// exhaustion is exactly the discovery of a cycle.
pub open spec fn sp_resolve(
    decls: Seq<SpecDecl>,
    idx: Seq<(Seq<u8>, int)>,
    cur: int,
    marked: Seq<bool>,
    chain: Seq<int>,
    fuel: nat,
) -> Resolution
    decreases fuel,
{
    if !(0 <= cur < decls.len()) {
        Resolution::Neutral
    } else if sp_marked_at(marked, cur) {
        Resolution::Skip
    } else if decls[cur].kind == DeclKind::Resource {
        Resolution::Placed(cur)
    } else if decls[cur].kind == DeclKind::Alias {
        match spec_attr_value(decls[cur].attrs, key_target()) {
            Option::None => Resolution::Unresolved(decls[cur].name),
            Option::Some(t) => match sp_lookup(idx, t) {
                Option::None => Resolution::Unresolved(t),
                Option::Some(j) => if fuel == 0 {
                    Resolution::Cycle(chain.push(cur))
                } else {
                    sp_resolve(decls, idx, j, marked, chain.push(cur), (fuel - 1) as nat)
                },
            },
        }
    } else {
        Resolution::Neutral
    }
}

/// Marks every declaration whose index stands in `chain`.
pub open spec fn sp_mark_all(marked: Seq<bool>, chain: Seq<int>) -> Seq<bool>
    decreases chain.len(),
{
    if chain.len() == 0 {
        marked
    } else {
        let m2 = if 0 <= chain[0] < marked.len() {
            marked.update(chain[0], true)
        } else {
            marked
        };
        sp_mark_all(m2, chain.skip(1))
    }
}

/// What visiting declaration `i` adds to the marks, diagnostics and
/// artifacts accumulated so far.
pub open spec fn sp_visit(
    decls: Seq<SpecDecl>,
    idx: Seq<(Seq<u8>, int)>,
    flags: ComplianceFlags,
    base: Seq<u8>,
    ovr: Seq<(Seq<u8>, Seq<u8>)>,
    i: int,
    marked: Seq<bool>,
    diags: Seq<SpecDiag>,
    arts: Seq<SpecArt>,
) -> (Seq<bool>, Seq<SpecDiag>, Seq<SpecArt>) {
    let d = decls[i];
    if d.kind == DeclKind::Resource || d.kind == DeclKind::Alias {
        match sp_resolve(decls, idx, i, marked, Seq::empty(), decls.len() as nat) {
            Resolution::Skip => (marked, diags, arts),
            Resolution::Neutral => (marked, diags, arts),
            Resolution::Unresolved(n) => (
                marked,
                diags.push(
                    SpecDiag {
                        severity: Severity::Error,
                        kind: SpecDiagKind::UnresolvedReference { name: n },
                        offset: Option::Some(d.offset),
                    },
                ),
                arts,
            ),
            Resolution::Cycle(chain) => (
                sp_mark_all(marked, chain),
                diags.push(
                    SpecDiag {
                        severity: Severity::Error,
                        kind: SpecDiagKind::CircularReference { name: d.name },
                        offset: Option::Some(d.offset),
                    },
                ),
                arts,
            ),
            Resolution::Placed(j) => {
                let declared = match sp_lookup_ovr(ovr, d.name) {
                    Option::Some(p) => p,
                    Option::None => match spec_attr_value(decls[j].attrs, key_path()) {
                        Option::Some(p) => p,
                        Option::None => Seq::empty(),
                    },
                };
                let eff = sp_effective(declared, base);
                if flags.fhs_compliance && !sp_fhs_ok(eff) {
                    (
                        marked,
                        diags.push(
                            SpecDiag {
                                severity: Severity::Error,
                                kind: SpecDiagKind::NonCompliantPlacement {
                                    declared: eff,
                                    expected: sp_expected(eff),
                                },
                                offset: Option::Some(d.offset),
                            },
                        ),
                        arts,
                    )
                } else {
                    (marked, diags, arts.push(SpecArt { name: d.name, data: eff }))
                }
            },
        }
    } else {
        (marked, diags, arts)
    }
}

/// The diagnostics and artifacts of the walk from declaration `i` on.
pub open spec fn sp_walk(
    decls: Seq<SpecDecl>,
    idx: Seq<(Seq<u8>, int)>,
    flags: ComplianceFlags,
    base: Seq<u8>,
    ovr: Seq<(Seq<u8>, Seq<u8>)>,
    i: int,
    marked: Seq<bool>,
    diags: Seq<SpecDiag>,
    arts: Seq<SpecArt>,
) -> (Seq<SpecDiag>, Seq<SpecArt>)
    decreases decls.len() - i,
{
    if i < 0 || i >= decls.len() {
        (diags, arts)
    } else {
        let step = sp_visit(decls, idx, flags, base, ovr, i, marked, diags, arts);
        sp_walk(decls, idx, flags, base, ovr, i + 1, step.0, step.1, step.2)
    }
}

/// What evaluating a model under the given flags and auxiliary parameters
/// yields: the diagnostic list and the artifact list, in discovery order.
pub open spec fn sp_evaluate(
    decls: Seq<SpecDecl>,
    flags: ComplianceFlags,
    base: Seq<u8>,
    ovr: Seq<(Seq<u8>, Seq<u8>)>,
) -> (Seq<SpecDiag>, Seq<SpecArt>) {
    let pass1 = sp_index_step(decls, 0, Seq::empty(), Seq::empty());
    sp_walk(
        decls,
        pass1.0,
        flags,
        base,
        ovr,
        0,
        Seq::new(decls.len(), |k: int| false),
        pass1.1,
        Seq::empty(),
    )
}

/// Looks a name up in the index; the latest binding wins.
fn lookup_idx(idx: &Vec<(Vec<u8>, usize)>, name: &Vec<u8>) -> (r: Option<usize>)
    ensures
        match r {
            Option::Some(j) => sp_lookup(idx_view(idx@), name@) == Option::Some(j as int)
                && exists|k: int| 0 <= k < idx@.len() && (#[trigger] idx@[k]).1 == j,
            Option::None => sp_lookup(idx_view(idx@), name@) is None,
        },
{
    let ghost iv = idx_view(idx@);
    proof {
        assert(iv.subrange(0, idx@.len() as int) =~= iv);
    }
    let mut i: usize = idx.len();
    while i > 0
        invariant
            0 <= i <= idx.len(),
            iv == idx_view(idx@),
            sp_lookup(iv, name@) == sp_lookup(iv.subrange(0, i as int), name@),
        decreases i,
    {
        proof {
            assert(iv.subrange(0, i as int).last() == iv[i - 1]);
            assert(iv.subrange(0, i as int).drop_last() =~= iv.subrange(0, i - 1));
        }
        if crate::model::bytes_eq(&idx[i - 1].0, name) {
            return Option::Some(idx[i - 1].1);
        }
        i -= 1;
    }
    proof {
        assert(iv.subrange(0, 0) =~= Seq::<(Seq<u8>, int)>::empty());
    }
    Option::None
}

/// Looks a name up in the caller's override table; the first binding wins.
fn lookup_ovr<'a>(ovr: &'a Option<Vec<Override>>, name: &Vec<u8>) -> (r: Option<&'a Vec<u8>>)
    ensures
        match r {
            Option::Some(p) => sp_lookup_ovr(sp_ovr_view(*ovr), name@) == Option::Some(p@),
            Option::None => sp_lookup_ovr(sp_ovr_view(*ovr), name@) is None,
        },
{
    match ovr {
        Option::None => Option::None,
        Option::Some(table) => {
            proof {
                let sv = sp_ovr_view(*ovr);
                assert(sv.skip(0) =~= sv);
            }
            let mut i: usize = 0;
            while i < table.len()
                invariant
                    0 <= i <= table.len(),
                    *ovr matches Option::Some(t) && t == table,
                    sp_lookup_ovr(sp_ovr_view(*ovr), name@) == sp_lookup_ovr(
                        sp_ovr_view(*ovr).skip(i as int),
                        name@,
                    ),
                decreases table.len() - i,
            {
                proof {
                    let sv = sp_ovr_view(*ovr);
                    assert(sv[i as int] == table@[i as int]@);
                    assert(sv.skip(i as int)[0] == sv[i as int]);
                    assert(sv.skip(i as int).skip(1) =~= sv.skip(i + 1));
                }
                if crate::model::bytes_eq(&table[i].name, name) {
                    proof {
                        let sv = sp_ovr_view(*ovr);
                        assert(sv.skip(i as int)[0].0 == name@);
                        assert(sp_lookup_ovr(sv.skip(i as int), name@) == Option::Some(
                            sv[i as int].1,
                        ));
                        assert(sv[i as int].1 == table@[i as int].path@);
                    }
                    return Option::Some(&table[i].path);
                }
                i += 1;
            }
            proof {
                let sv = sp_ovr_view(*ovr);
                assert(sp_lookup_ovr(sv.skip(i as int), name@) is None);
            }
            Option::None
        },
    }
}

/// Builds the name-to-declaration index in one pass, reporting duplicate
/// names as error diagnostics that carry both locations.
fn build_index(decls: &Vec<Declaration>, diags: &mut Vec<Diagnostic>) -> (idx: Vec<(Vec<u8>, usize)>)
    ensures
        (idx_view(idx@), diags_view(final(diags)@)) == sp_index_step(
            decls_view(decls@),
            0,
            Seq::empty(),
            diags_view(old(diags)@),
        ),
        forall|k: int| 0 <= k < idx@.len() ==> (#[trigger] idx@[k]).1 < decls@.len(),
{
    let ghost dv = decls_view(decls@);
    let mut idx: Vec<(Vec<u8>, usize)> = Vec::new();
    proof {
        assert(idx_view(idx@) =~= Seq::<(Seq<u8>, int)>::empty());
    }
    let mut i: usize = 0;
    while i < decls.len()
        invariant
            0 <= i <= decls.len(),
            dv == decls_view(decls@),
            forall|k: int| 0 <= k < idx@.len() ==> (#[trigger] idx@[k]).1 < decls@.len(),
            sp_index_step(dv, 0, Seq::empty(), diags_view(old(diags)@)) == sp_index_step(
                dv,
                i as int,
                idx_view(idx@),
                diags_view(diags@),
            ),
        decreases decls.len() - i,
    {
        let ghost idx0 = idx_view(idx@);
        let ghost diags0 = diags_view(diags@);
        match lookup_idx(&idx, &decls[i].name) {
            Option::Some(j) => {
                let d = Diagnostic {
                    severity: Severity::Error,
                    kind: DiagKind::DuplicateDeclaration {
                        name: clone_bytes(&decls[i].name),
                        first_offset: decls[j].offset,
                        second_offset: decls[i].offset,
                    },
                    offset: Option::Some(decls[i].offset),
                };
                proof {
                    assert(d@ =~= sp_dup_diag(dv, j as int, i as int));
                }
                diags.push(d);
                proof {
                    assert(diags_view(diags@) =~= diags0.push(sp_dup_diag(dv, j as int, i as int)));
                }
            },
            Option::None => {},
        }
        idx.push((clone_bytes(&decls[i].name), i));
        proof {
            assert(idx_view(idx@) =~= idx0.push((dv[i as int].name, i as int)));
        }
        i += 1;
    }
    idx
}

/// What one resolution produced, chain members left in the caller's chain
/// vector when a cycle was found.
enum ResolveOut {
    Skip,
    Cycle,
    Unresolved(Vec<u8>),
    Placed(usize),
    Neutral,
}

/// Follows declaration `cur`'s reference chain, appending the aliases
/// followed to `chain`.
fn resolve(
    decls: &Vec<Declaration>,
    idx: &Vec<(Vec<u8>, usize)>,
    cur: usize,
    marked: &Vec<bool>,
    chain: &mut Vec<usize>,
    fuel: usize,
) -> (r: ResolveOut)
    requires
        cur < decls@.len(),
        marked@.len() == decls@.len(),
        forall|k: int| 0 <= k < idx@.len() ==> (#[trigger] idx@[k]).1 < decls@.len(),
        forall|k: int| 0 <= k < old(chain)@.len() ==> (#[trigger] old(chain)@[k]) < decls@.len(),
    ensures
        ({
            let sp = sp_resolve(
                decls_view(decls@),
                idx_view(idx@),
                cur as int,
                marked@,
                ixs_view(old(chain)@),
                fuel as nat,
            );
            match r {
                ResolveOut::Skip => sp == Resolution::Skip,
                ResolveOut::Neutral => sp == Resolution::Neutral,
                ResolveOut::Unresolved(n) => sp == Resolution::Unresolved(n@),
                ResolveOut::Placed(j) => sp == Resolution::Placed(j as int) && j < decls@.len(),
                ResolveOut::Cycle => sp == Resolution::Cycle(ixs_view(final(chain)@)) && forall|
                    k: int,
                |
                    0 <= k < final(chain)@.len() ==> (#[trigger] final(chain)@[k]) < decls@.len(),
            }
        }),
    decreases fuel,
{
    if marked[cur] {
        return ResolveOut::Skip;
    }
    match decls[cur].kind {
        DeclKind::Resource => ResolveOut::Placed(cur),
        DeclKind::Alias => {
            let tkey = crate::model::key_target_vec();
            match attr_value(&decls[cur].attrs, &tkey) {
                Option::None => ResolveOut::Unresolved(clone_bytes(&decls[cur].name)),
                Option::Some(t) => match lookup_idx(idx, t) {
                    Option::None => ResolveOut::Unresolved(clone_bytes(t)),
                    Option::Some(j) => {
                        let ghost chain0 = ixs_view(chain@);
                        chain.push(cur);
                        proof {
                            assert(ixs_view(chain@) =~= chain0.push(cur as int));
                        }
                        if fuel == 0 {
                            ResolveOut::Cycle
                        } else {
                            resolve(decls, idx, j, marked, chain, fuel - 1)
                        }
                    },
                },
            }
        },
        _ => ResolveOut::Neutral,
    }
}

/// Sets the mark of every declaration whose index stands in `chain`.
fn mark_all(marked: &mut Vec<bool>, chain: &Vec<usize>)
    ensures
        final(marked)@ == sp_mark_all(old(marked)@, ixs_view(chain@)),
        final(marked)@.len() == old(marked)@.len(),
{
    let ghost cv = ixs_view(chain@);
    proof {
        assert(cv.skip(0) =~= cv);
    }
    let mut k: usize = 0;
    while k < chain.len()
        invariant
            0 <= k <= chain.len(),
            cv == ixs_view(chain@),
            marked@.len() == old(marked)@.len(),
            sp_mark_all(old(marked)@, cv) == sp_mark_all(marked@, cv.skip(k as int)),
        decreases chain.len() - k,
    {
        proof {
            assert(cv.skip(k as int)[0] == cv[k as int]);
            assert(cv.skip(k as int).skip(1) =~= cv.skip(k + 1));
        }
        let c = chain[k];
        if c < marked.len() {
            marked.set(c, true);
        }
        k += 1;
    }
    proof {
        assert(sp_mark_all(marked@, cv.skip(k as int)) == marked@);
    }
}

/// Visits declaration `i`: resolves it, applies the active rules, and
/// appends whatever diagnostics and artifacts it yields.
fn visit(
    decls: &Vec<Declaration>,
    idx: &Vec<(Vec<u8>, usize)>,
    flags: &ComplianceFlags,
    base: &Option<Vec<u8>>,
    overrides: &Option<Vec<Override>>,
    i: usize,
    marked: &mut Vec<bool>,
    diags: &mut Vec<Diagnostic>,
    arts: &mut Vec<Artifact>,
)
    requires
        i < decls@.len(),
        old(marked)@.len() == decls@.len(),
        forall|k: int| 0 <= k < idx@.len() ==> (#[trigger] idx@[k]).1 < decls@.len(),
    ensures
        (final(marked)@, diags_view(final(diags)@), arts_view(final(arts)@)) == sp_visit(
            decls_view(decls@),
            idx_view(idx@),
            *flags,
            sp_base_view(*base),
            sp_ovr_view(*overrides),
            i as int,
            old(marked)@,
            diags_view(old(diags)@),
            arts_view(old(arts)@),
        ),
        final(marked)@.len() == decls@.len(),
{
    let ghost dv = decls_view(decls@);
    let ghost diags0 = diags_view(diags@);
    let ghost arts0 = arts_view(arts@);
    let kind = decls[i].kind;
    if !(kind == DeclKind::Resource || kind == DeclKind::Alias) {
        return ;
    }
    let mut chain: Vec<usize> = Vec::new();
    proof {
        assert(ixs_view(chain@) =~= Seq::<int>::empty());
    }
    let fuel = decls.len();
    match resolve(decls, idx, i, marked, &mut chain, fuel) {
        ResolveOut::Skip => {},
        ResolveOut::Neutral => {},
        ResolveOut::Unresolved(n) => {
            let ghost nv = n@;
            let d = Diagnostic {
                severity: Severity::Error,
                kind: DiagKind::UnresolvedReference { name: n },
                offset: Option::Some(decls[i].offset),
            };
            diags.push(d);
            proof {
                assert(diags_view(diags@) =~= diags0.push(
                    SpecDiag {
                        severity: Severity::Error,
                        kind: SpecDiagKind::UnresolvedReference { name: nv },
                        offset: Option::Some(dv[i as int].offset),
                    },
                ));
            }
        },
        ResolveOut::Cycle => {
            mark_all(marked, &chain);
            let d = Diagnostic {
                severity: Severity::Error,
                kind: DiagKind::CircularReference { name: clone_bytes(&decls[i].name) },
                offset: Option::Some(decls[i].offset),
            };
            diags.push(d);
            proof {
                assert(diags_view(diags@) =~= diags0.push(
                    SpecDiag {
                        severity: Severity::Error,
                        kind: SpecDiagKind::CircularReference { name: dv[i as int].name },
                        offset: Option::Some(dv[i as int].offset),
                    },
                ));
            }
        },
        ResolveOut::Placed(j) => {
            let declared: Vec<u8> = match lookup_ovr(overrides, &decls[i].name) {
                Option::Some(p) => clone_bytes(p),
                Option::None => {
                    let pkey = crate::model::key_path_vec();
                    match attr_value(&decls[j].attrs, &pkey) {
                        Option::Some(p) => clone_bytes(p),
                        Option::None => {
                            let empty: Vec<u8> = Vec::new();
                            proof {
                                assert(empty@ =~= Seq::<u8>::empty());
                            }
                            empty
                        },
                    }
                },
            };
            let eff = effective_path(&declared, base);
            if flags.fhs_compliance && !fhs_ok(&eff) {
                let exp = expected_path(&eff);
                let ghost effv = eff@;
                let d = Diagnostic {
                    severity: Severity::Error,
                    kind: DiagKind::NonCompliantPlacement { declared: eff, expected: exp },
                    offset: Option::Some(decls[i].offset),
                };
                diags.push(d);
                proof {
                    assert(diags_view(diags@) =~= diags0.push(
                        SpecDiag {
                            severity: Severity::Error,
                            kind: SpecDiagKind::NonCompliantPlacement {
                                declared: effv,
                                expected: sp_expected(effv),
                            },
                            offset: Option::Some(dv[i as int].offset),
                        },
                    ));
                }
            } else {
                let ghost effv = eff@;
                let a = Artifact { name: clone_bytes(&decls[i].name), data: eff };
                arts.push(a);
                proof {
                    assert(arts_view(arts@) =~= arts0.push(
                        SpecArt { name: dv[i as int].name, data: effv },
                    ));
                }
            }
        },
    }
}

/// What one evaluation found: the full diagnostic list and the produced
/// artifacts, each in discovery order.
pub struct EvalResult {
    pub diagnostics: Vec<Diagnostic>,
    pub artifacts: Vec<Artifact>,
}

/// Evaluates a parsed model under the given compliance flags and auxiliary
/// parameters.
///
/// Content-level problems become diagnostics; the pass always completes and
/// yields artifacts for every declaration that resolves and passes all
/// active rules, in declaration traversal order.
pub fn evaluate(
    model: &Model,
    flags: &ComplianceFlags,
    base: &Option<Vec<u8>>,
    overrides: &Option<Vec<Override>>,
) -> (r: EvalResult)
    ensures
        ({
            let out = sp_evaluate(model@, *flags, sp_base_view(*base), sp_ovr_view(*overrides));
            diags_view(r.diagnostics@) == out.0 && arts_view(r.artifacts@) == out.1
        }),
{
    let decls = &model.decls;
    let ghost dv = decls_view(decls@);
    let mut diags: Vec<Diagnostic> = Vec::new();
    proof {
        assert(diags_view(diags@) =~= Seq::<SpecDiag>::empty());
    }
    let idx = build_index(decls, &mut diags);
    let mut marked: Vec<bool> = Vec::new();
    while marked.len() < decls.len()
        invariant
            marked@.len() <= decls@.len(),
            forall|k: int| 0 <= k < marked@.len() ==> !(#[trigger] marked@[k]),
        decreases decls.len() - marked.len(),
    {
        marked.push(false);
    }
    proof {
        assert(marked@ =~= Seq::new(dv.len(), |k: int| false));
    }
    let mut arts: Vec<Artifact> = Vec::new();
    proof {
        assert(arts_view(arts@) =~= Seq::<SpecArt>::empty());
    }
    let ghost iv = idx_view(idx@);
    let ghost gfinal = sp_walk(
        dv,
        iv,
        *flags,
        sp_base_view(*base),
        sp_ovr_view(*overrides),
        0,
        marked@,
        diags_view(diags@),
        arts_view(arts@),
    );
    let mut i: usize = 0;
    while i < decls.len()
        invariant
            0 <= i <= decls.len(),
            dv == decls_view(decls@),
            iv == idx_view(idx@),
            marked@.len() == decls@.len(),
            forall|k: int| 0 <= k < idx@.len() ==> (#[trigger] idx@[k]).1 < decls@.len(),
            sp_walk(
                dv,
                iv,
                *flags,
                sp_base_view(*base),
                sp_ovr_view(*overrides),
                i as int,
                marked@,
                diags_view(diags@),
                arts_view(arts@),
            ) == gfinal,
        decreases decls.len() - i,
    {
        visit(decls, &idx, flags, base, overrides, i, &mut marked, &mut diags, &mut arts);
        i += 1;
    }
    EvalResult { diagnostics: diags, artifacts: arts }
}

/// Cycle termination and single reporting, length one: a lone alias that
/// names itself is reported in exactly one circular-reference diagnostic,
/// with no artifacts — whatever the flags, base path and override table.
pub proof fn lemma_self_cycle_reported_once(
    a: SpecDecl,
    flags: ComplianceFlags,
    base: Seq<u8>,
    ovr: Seq<(Seq<u8>, Seq<u8>)>,
)
    requires
        a.kind == DeclKind::Alias,
        a.attrs == seq![(key_target(), a.name)],
    ensures
        ({
            let out = sp_evaluate(seq![a], flags, base, ovr);
            out.0 == seq![
                SpecDiag {
                    severity: Severity::Error,
                    kind: SpecDiagKind::CircularReference { name: a.name },
                    offset: Option::Some(a.offset),
                },
            ] && out.1 == Seq::<SpecArt>::empty()
        }),
{
    let decls = seq![a];
    let idx: Seq<(Seq<u8>, int)> = seq![(a.name, 0int)];
    assert(sp_lookup(Seq::empty(), a.name) is None);
    assert(Seq::<(Seq<u8>, int)>::empty().push((a.name, 0int)) =~= idx);
    assert(sp_index_step(decls, 1, idx, Seq::empty()) == (idx, Seq::<SpecDiag>::empty()));
    assert(sp_index_step(decls, 0, Seq::empty(), Seq::empty()) == (
        idx,
        Seq::<SpecDiag>::empty(),
    ));
    assert(sp_lookup(idx, a.name) == Option::Some(0int));
    assert(spec_attr_value(a.attrs, key_target()) == Option::Some(a.name));

    let m0: Seq<bool> = Seq::new(1, |k: int| false);
    assert(!sp_marked_at(m0, 0));
    let chain: Seq<int> = seq![0int, 0int];
    assert(sp_resolve(decls, idx, 0, m0, seq![0int], 0nat) == Resolution::Cycle(chain)) by {
        assert(seq![0int].push(0int) =~= chain);
    }
    assert(sp_resolve(decls, idx, 0, m0, Seq::empty(), 1nat) == Resolution::Cycle(chain)) by {
        assert(Seq::<int>::empty().push(0int) =~= seq![0int]);
    }

    let s1 = m0.update(0, true);
    assert(chain.skip(1) =~= seq![0int]);
    assert(seq![0int].skip(1) =~= Seq::<int>::empty());
    assert(sp_mark_all(s1.update(0, true), Seq::<int>::empty()) == s1.update(0, true));
    assert(sp_mark_all(s1, seq![0int]) == s1.update(0, true));
    assert(sp_mark_all(m0, chain) == s1.update(0, true));
    assert(s1.update(0, true) =~= s1);

    let diag = SpecDiag {
        severity: Severity::Error,
        kind: SpecDiagKind::CircularReference { name: a.name },
        offset: Option::Some(a.offset),
    };
    let after0 = sp_visit(decls, idx, flags, base, ovr, 0, m0, Seq::empty(), Seq::empty());
    assert(after0.1 == Seq::<SpecDiag>::empty().push(diag) && after0.2
        == Seq::<SpecArt>::empty());
    assert(sp_walk(decls, idx, flags, base, ovr, 1, after0.0, after0.1, after0.2) == (
        after0.1,
        after0.2,
    ));
    assert(sp_walk(decls, idx, flags, base, ovr, 0, m0, Seq::empty(), Seq::empty()) == (
        after0.1,
        after0.2,
    ));
    assert(Seq::new(decls.len(), |k: int| false) =~= m0);
    assert(sp_evaluate(decls, flags, base, ovr) == (after0.1, after0.2));
    assert(Seq::<SpecDiag>::empty().push(diag) =~= seq![diag]);
}

/// Cycle termination and single reporting: for a descriptor whose
/// declarations are two aliases naming each other, evaluation completes and
/// reports the cycle in exactly one circular-reference diagnostic, naming
/// the first declaration of the cycle, with no artifacts — whatever the
/// flags, base path and override table. (Termination on every other input
/// is intrinsic: every function of the evaluator is total.)
pub proof fn lemma_cycle_reported_once(
    a: SpecDecl,
    b: SpecDecl,
    flags: ComplianceFlags,
    base: Seq<u8>,
    ovr: Seq<(Seq<u8>, Seq<u8>)>,
)
    requires
        a.name != b.name,
        a.kind == DeclKind::Alias,
        b.kind == DeclKind::Alias,
        a.attrs == seq![(key_target(), b.name)],
        b.attrs == seq![(key_target(), a.name)],
    ensures
        ({
            let out = sp_evaluate(seq![a, b], flags, base, ovr);
            out.0 == seq![
                SpecDiag {
                    severity: Severity::Error,
                    kind: SpecDiagKind::CircularReference { name: a.name },
                    offset: Option::Some(a.offset),
                },
            ] && out.1 == Seq::<SpecArt>::empty()
        }),
{
    let decls = seq![a, b];
    let ia: Seq<(Seq<u8>, int)> = seq![(a.name, 0int)];
    let idx: Seq<(Seq<u8>, int)> = seq![(a.name, 0int), (b.name, 1int)];

    // Pass one: the index binds each name once; no duplicate diagnostics.
    assert(sp_lookup(Seq::empty(), a.name) is None);
    assert(sp_lookup(Seq::empty(), b.name) is None);
    assert(ia.drop_last() =~= Seq::<(Seq<u8>, int)>::empty());
    assert(sp_lookup(ia, b.name) is None);
    assert(Seq::<(Seq<u8>, int)>::empty().push((a.name, 0int)) =~= ia);
    assert(ia.push((b.name, 1int)) =~= idx);
    assert(sp_index_step(decls, 2, idx, Seq::empty()) == (idx, Seq::<SpecDiag>::empty()));
    assert(sp_index_step(decls, 1, ia, Seq::empty()) == (idx, Seq::<SpecDiag>::empty()));
    assert(sp_index_step(decls, 0, Seq::empty(), Seq::empty()) == (
        idx,
        Seq::<SpecDiag>::empty(),
    ));

    // Name lookups through the index.
    assert(idx.drop_last() =~= ia);
    assert(sp_lookup(idx, b.name) == Option::Some(1int));
    assert(sp_lookup(ia, a.name) == Option::Some(0int));
    assert(sp_lookup(idx, a.name) == Option::Some(0int));

    // Each alias's target attribute.
    assert(spec_attr_value(a.attrs, key_target()) == Option::Some(b.name));
    assert(spec_attr_value(b.attrs, key_target()) == Option::Some(a.name));

    // Resolution from the first alias exhausts its chain bound: a cycle.
    let m0: Seq<bool> = Seq::new(2, |k: int| false);
    assert(!sp_marked_at(m0, 0) && !sp_marked_at(m0, 1));
    let chain: Seq<int> = seq![0int, 1int, 0int];
    assert(sp_resolve(decls, idx, 0, m0, seq![0int, 1int], 0nat) == Resolution::Cycle(chain))
        by {
        assert(seq![0int, 1int].push(0int) =~= chain);
    }
    assert(sp_resolve(decls, idx, 1, m0, seq![0int], 1nat) == Resolution::Cycle(chain)) by {
        assert(seq![0int].push(1int) =~= seq![0int, 1int]);
    }
    assert(sp_resolve(decls, idx, 0, m0, Seq::empty(), 2nat) == Resolution::Cycle(chain)) by {
        assert(Seq::<int>::empty().push(0int) =~= seq![0int]);
    }

    // The chain's members are marked, and the one diagnostic is emitted.
    let m1 = sp_mark_all(m0, chain);
    let s1 = m0.update(0, true);
    let s2 = s1.update(1, true);
    let s3 = s2.update(0, true);
    assert(chain.skip(1) =~= seq![1int, 0int]);
    assert(seq![1int, 0int].skip(1) =~= seq![0int]);
    assert(seq![0int].skip(1) =~= Seq::<int>::empty());
    assert(sp_mark_all(s3, Seq::<int>::empty()) == s3);
    assert(sp_mark_all(s2, seq![0int]) == s3);
    assert(sp_mark_all(s1, seq![1int, 0int]) == s3);
    assert(sp_mark_all(m0, chain) == s3);
    assert(m1 =~= seq![true, true]) by {
        assert(s3 =~= seq![true, true]);
    }
    let diag = SpecDiag {
        severity: Severity::Error,
        kind: SpecDiagKind::CircularReference { name: a.name },
        offset: Option::Some(a.offset),
    };
    let after0 = sp_visit(decls, idx, flags, base, ovr, 0, m0, Seq::empty(), Seq::empty());
    assert(after0.0 == m1 && after0.1 == Seq::<SpecDiag>::empty().push(diag) && after0.2
        == Seq::<SpecArt>::empty());

    // The second alias is already marked: the cyclic branch is skipped
    // silently, with no further diagnostic.
    assert(sp_marked_at(m1, 1));
    assert(sp_resolve(decls, idx, 1, m1, Seq::empty(), 2nat) == Resolution::Skip);
    let after1 = sp_visit(decls, idx, flags, base, ovr, 1, after0.0, after0.1, after0.2);
    assert(after1.1 == after0.1 && after1.2 == after0.2);

    assert(sp_walk(decls, idx, flags, base, ovr, 2, after1.0, after1.1, after1.2) == (
        after1.1,
        after1.2,
    ));
    assert(sp_walk(decls, idx, flags, base, ovr, 1, after0.0, after0.1, after0.2) == (
        after1.1,
        after1.2,
    ));
    assert(sp_walk(decls, idx, flags, base, ovr, 0, m0, Seq::empty(), Seq::empty()) == (
        after1.1,
        after1.2,
    ));
    assert(Seq::new(decls.len(), |k: int| false) =~= m0);
    assert(sp_evaluate(decls, flags, base, ovr) == (after1.1, after1.2));
    assert(Seq::<SpecDiag>::empty().push(diag) =~= seq![diag]);
    assert(sp_evaluate(decls, flags, base, ovr).0 == seq![diag]);
    assert(sp_evaluate(decls, flags, base, ovr).1 == Seq::<SpecArt>::empty());
}

} // verus!
