//! Placement paths and the filesystem-hierarchy compliance rule.
//!
//! A declared placement is made effective by prefixing the caller's base
//! path when the declared path is relative. Under the filesystem-hierarchy
//! compliance flag, an effective placement must fall under one of the
//! allow-listed standard directory roots; a violation is reported together
//! with a corrected expected path under the first allowed root.

use vstd::prelude::*;

verus! {

pub const B_SLASH: u8 = 47;

/// Whether `p` begins with `prefix`.
pub open spec fn sp_starts_with(p: Seq<u8>, prefix: Seq<u8>) -> bool {
    p.len() >= prefix.len() && p.subrange(0, prefix.len() as int) == prefix
}

/// The allow-listed root `/usr/`.
pub open spec fn root_usr() -> Seq<u8> {
    seq![47, 117, 115, 114, 47]
}

/// The allow-listed root `/etc/`.
pub open spec fn root_etc() -> Seq<u8> {
    seq![47, 101, 116, 99, 47]
}

/// The allow-listed root `/var/`.
pub open spec fn root_var() -> Seq<u8> {
    seq![47, 118, 97, 114, 47]
}

/// The allow-listed root `/opt/`.
pub open spec fn root_opt() -> Seq<u8> {
    seq![47, 111, 112, 116, 47]
}

/// The allow-listed root `/bin/`.
pub open spec fn root_bin() -> Seq<u8> {
    seq![47, 98, 105, 110, 47]
}

/// The allow-listed root `/sbin/`.
pub open spec fn root_sbin() -> Seq<u8> {
    seq![47, 115, 98, 105, 110, 47]
}

/// The allow-listed root `/lib/`.
pub open spec fn root_lib() -> Seq<u8> {
    seq![47, 108, 105, 98, 47]
}

/// Whether an effective placement falls under one of the allow-listed
/// standard directory roots.
pub open spec fn sp_fhs_ok(p: Seq<u8>) -> bool {
    ||| sp_starts_with(p, root_usr())
    ||| sp_starts_with(p, root_etc())
    ||| sp_starts_with(p, root_var())
    ||| sp_starts_with(p, root_opt())
    ||| sp_starts_with(p, root_bin())
    ||| sp_starts_with(p, root_sbin())
    ||| sp_starts_with(p, root_lib())
}

/// The corrected placement offered with a non-compliance diagnostic: the
/// offending path moved under `/usr`.
pub open spec fn sp_expected(p: Seq<u8>) -> Seq<u8> {
    if p.len() > 0 && p[0] == B_SLASH {
        seq![47u8, 117, 115, 114] + p
    } else {
        seq![47u8, 117, 115, 114, 47] + p
    }
}

/// The effective placement of a declared path: an absolute path stands as
/// declared; a relative one is joined under the base path; with no base
/// path, it stays as declared.
pub open spec fn sp_effective(declared: Seq<u8>, base: Seq<u8>) -> Seq<u8> {
    if declared.len() > 0 && declared[0] == B_SLASH {
        declared
    } else if base.len() > 0 {
        base + seq![B_SLASH] + declared
    } else {
        declared
    }
}

/// Whether `p` begins with `prefix`.
pub fn starts_with(p: &Vec<u8>, prefix: &Vec<u8>) -> (r: bool)
    ensures
        r == sp_starts_with(p@, prefix@),
{
    if p.len() < prefix.len() {
        return false;
    }
    let mut i: usize = 0;
    while i < prefix.len()
        invariant
            0 <= i <= prefix.len() <= p.len(),
            forall|j: int| 0 <= j < i ==> p@[j] == prefix@[j],
        decreases prefix.len() - i,
    {
        if p[i] != prefix[i] {
            assert(p@.subrange(0, prefix.len() as int) != prefix@);
            return false;
        }
        i += 1;
    }
    proof {
        assert(p@.subrange(0, prefix.len() as int) =~= prefix@);
    }
    true
}

/// Appends `src` to `dst`.
pub fn append_bytes(dst: &mut Vec<u8>, src: &Vec<u8>)
    ensures
        final(dst)@ == old(dst)@ + src@,
{
    let ghost before = dst@;
    let mut i: usize = 0;
    while i < src.len()
        invariant
            0 <= i <= src.len(),
            dst@ == before + src@.subrange(0, i as int),
        decreases src.len() - i,
    {
        dst.push(src[i]);
        assert(dst@ =~= before + src@.subrange(0, i + 1 as int));
        i += 1;
    }
    proof {
        assert(dst@ =~= before + src@);
    }
}

/// A fresh vector holding one allow-listed root, selected by `which`.
fn make_root(which: usize) -> (r: Vec<u8>)
    requires
        which < 7,
    ensures
        which == 0 ==> r@ == root_usr(),
        which == 1 ==> r@ == root_etc(),
        which == 2 ==> r@ == root_var(),
        which == 3 ==> r@ == root_opt(),
        which == 4 ==> r@ == root_bin(),
        which == 5 ==> r@ == root_sbin(),
        which == 6 ==> r@ == root_lib(),
{
    let mut v: Vec<u8> = Vec::new();
    v.push(47);
    if which == 0 {
        v.push(117);
        v.push(115);
        v.push(114);
    } else if which == 1 {
        v.push(101);
        v.push(116);
        v.push(99);
    } else if which == 2 {
        v.push(118);
        v.push(97);
        v.push(114);
    } else if which == 3 {
        v.push(111);
        v.push(112);
        v.push(116);
    } else if which == 4 {
        v.push(98);
        v.push(105);
        v.push(110);
    } else if which == 5 {
        v.push(115);
        v.push(98);
        v.push(105);
        v.push(110);
    } else {
        v.push(108);
        v.push(105);
        v.push(98);
    }
    v.push(47);
    proof {
        if which == 0 {
            assert(v@ =~= root_usr());
        } else if which == 1 {
            assert(v@ =~= root_etc());
        } else if which == 2 {
            assert(v@ =~= root_var());
        } else if which == 3 {
            assert(v@ =~= root_opt());
        } else if which == 4 {
            assert(v@ =~= root_bin());
        } else if which == 5 {
            assert(v@ =~= root_sbin());
        } else {
            assert(v@ =~= root_lib());
        }
    }
    v
}

/// Whether an effective placement falls under an allow-listed root.
pub fn fhs_ok(p: &Vec<u8>) -> (r: bool)
    ensures
        r == sp_fhs_ok(p@),
{
    let mut which: usize = 0;
    while which < 7
        invariant
            0 <= which <= 7,
            which >= 1 ==> !sp_starts_with(p@, root_usr()),
            which >= 2 ==> !sp_starts_with(p@, root_etc()),
            which >= 3 ==> !sp_starts_with(p@, root_var()),
            which >= 4 ==> !sp_starts_with(p@, root_opt()),
            which >= 5 ==> !sp_starts_with(p@, root_bin()),
            which >= 6 ==> !sp_starts_with(p@, root_sbin()),
            which >= 7 ==> !sp_starts_with(p@, root_lib()),
        decreases 7 - which,
    {
        let root = make_root(which);
        if starts_with(p, &root) {
            return true;
        }
        which += 1;
    }
    false
}

/// The corrected placement offered with a non-compliance diagnostic.
pub fn expected_path(p: &Vec<u8>) -> (r: Vec<u8>)
    ensures
        r@ == sp_expected(p@),
{
    let mut out: Vec<u8> = Vec::new();
    out.push(47);
    out.push(117);
    out.push(115);
    out.push(114);
    if !(p.len() > 0 && p[0] == B_SLASH) {
        out.push(47);
        proof {
            assert(out@ =~= seq![47u8, 117, 115, 114, 47]);
        }
    } else {
        proof {
            assert(out@ =~= seq![47u8, 117, 115, 114]);
        }
    }
    append_bytes(&mut out, p);
    proof {
        assert(out@ =~= sp_expected(p@));
    }
    out
}

/// The effective placement of a declared path under an optional base path.
pub fn effective_path(declared: &Vec<u8>, base: &Option<Vec<u8>>) -> (r: Vec<u8>)
    ensures
        r@ == sp_effective(declared@, sp_base_view(*base)),
{
    if declared.len() > 0 && declared[0] == B_SLASH {
        crate::model::clone_bytes(declared)
    } else {
        match base {
            Option::Some(b) if b.len() > 0 => {
                let mut out = crate::model::clone_bytes(b);
                out.push(B_SLASH);
                append_bytes(&mut out, declared);
                proof {
                    assert(out@ =~= b@ + seq![B_SLASH] + declared@);
                }
                out
            },
            _ => crate::model::clone_bytes(declared),
        }
    }
}

/// The base path a caller supplied, or the neutral empty base.
pub open spec fn sp_base_view(b: Option<Vec<u8>>) -> Seq<u8> {
    match b {
        Option::Some(v) => v@,
        Option::None => Seq::empty(),
    }
}

} // verus!
