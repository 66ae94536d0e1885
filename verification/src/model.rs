//! The declarative model: the in-memory form of a parsed project descriptor.
//!
//! A descriptor is a sequence of nested blocks. The model stores the blocks
//! flattened in depth-first, left-to-right order, each with its nesting depth,
//! so child order is preserved exactly and a depth-first walk of the tree is a
//! plain left-to-right scan of the vector.

use vstd::prelude::*;

verus! {

/// The closed set of declaration kinds the engine understands.
///
/// `Other` stands for a kind outside the closed set; the parser only emits it
/// in unknown-kind-tolerant mode, and the evaluator treats it as inert.
#[derive(Clone, Copy, PartialEq, Eq, Structural, Debug)]
pub enum DeclKind {
    /// An installable resource with a declared placement path.
    Resource,
    /// A grouping container; carries no placement of its own.
    Group,
    /// A reference to another declaration by name.
    Alias,
    /// A kind outside the closed set, kept only under tolerant parsing.
    Other,
}

/// One named attribute of a declaration.
#[derive(Debug)]
pub struct Attr {
    pub key: Vec<u8>,
    pub value: Vec<u8>,
}

/// The mathematical value of an [`Attr`]: its key and value byte strings.
impl View for Attr {
    type V = (Seq<u8>, Seq<u8>);

    open spec fn view(&self) -> (Seq<u8>, Seq<u8>) {
        (self.key@, self.value@)
    }
}

/// One declaration of the model, in flattened depth-first position.
#[derive(Debug)]
pub struct Declaration {
    /// Which kind of block this is.
    pub kind: DeclKind,
    /// The declared name.
    pub name: Vec<u8>,
    /// Nesting depth: top-level blocks have depth 0, their children 1, and so
    /// on. In the flattened vector, the children of a declaration at depth d
    /// are exactly the following entries while the depth stays above d.
    pub depth: usize,
    /// The named attributes, in source order, keys unique per declaration.
    pub attrs: Vec<Attr>,
    /// Byte offset of the declaration's kind word in the descriptor text.
    pub offset: usize,
}

/// The mathematical value of a [`Declaration`].
#[verifier::ext_equal]
pub struct SpecDecl {
    pub kind: DeclKind,
    pub name: Seq<u8>,
    pub depth: int,
    pub attrs: Seq<(Seq<u8>, Seq<u8>)>,
    pub offset: int,
}

impl View for Declaration {
    type V = SpecDecl;

    open spec fn view(&self) -> SpecDecl {
        SpecDecl {
            kind: self.kind,
            name: self.name@,
            depth: self.depth as int,
            attrs: self.attrs@.map_values(|a: Attr| a@),
            offset: self.offset as int,
        }
    }
}

/// A parsed project descriptor: declarations flattened in depth-first order.
#[derive(Debug)]
pub struct Model {
    pub decls: Vec<Declaration>,
}

/// The sequence of mathematical declaration values of a declaration vector.
pub open spec fn decls_view(v: Seq<Declaration>) -> Seq<SpecDecl> {
    v.map_values(|d: Declaration| d@)
}

impl View for Model {
    type V = Seq<SpecDecl>;

    open spec fn view(&self) -> Seq<SpecDecl> {
        decls_view(self.decls@)
    }
}

impl Model {
    /// How many declarations the model holds.
    pub fn len(&self) -> (n: usize)
        ensures
            n == self@.len(),
    {
        self.decls.len()
    }
}

/// The keyword naming an installable resource block.
pub open spec fn kw_resource() -> Seq<u8> {
    seq![114, 101, 115, 111, 117, 114, 99, 101]
}

/// The keyword naming a grouping block.
pub open spec fn kw_group() -> Seq<u8> {
    seq![103, 114, 111, 117, 112]
}

/// The keyword naming an alias block.
pub open spec fn kw_alias() -> Seq<u8> {
    seq![97, 108, 105, 97, 115]
}

/// The attribute key holding a resource's declared placement path.
pub open spec fn key_path() -> Seq<u8> {
    seq![112, 97, 116, 104]
}

/// The attribute key holding an alias's referenced declaration name.
pub open spec fn key_target() -> Seq<u8> {
    seq![116, 97, 114, 103, 101, 116]
}

/// A fresh vector holding the `path` attribute key.
pub fn key_path_vec() -> (r: Vec<u8>)
    ensures
        r@ == key_path(),
{
    let mut v: Vec<u8> = Vec::new();
    v.push(112);
    v.push(97);
    v.push(116);
    v.push(104);
    proof {
        assert(v@ =~= key_path());
    }
    v
}

/// A fresh vector holding the `target` attribute key.
pub fn key_target_vec() -> (r: Vec<u8>)
    ensures
        r@ == key_target(),
{
    let mut v: Vec<u8> = Vec::new();
    v.push(116);
    v.push(97);
    v.push(114);
    v.push(103);
    v.push(101);
    v.push(116);
    proof {
        assert(v@ =~= key_target());
    }
    v
}

/// Which declaration kind a block keyword names; `Other` for any word outside
/// the closed set.
pub open spec fn spec_kind_of(t: Seq<u8>) -> DeclKind {
    if t == kw_resource() {
        DeclKind::Resource
    } else if t == kw_group() {
        DeclKind::Group
    } else if t == kw_alias() {
        DeclKind::Alias
    } else {
        DeclKind::Other
    }
}

/// Whether two byte strings are equal.
pub fn bytes_eq(a: &Vec<u8>, b: &Vec<u8>) -> (r: bool)
    ensures
        r == (a@ == b@),
{
    if a.len() != b.len() {
        assert(a@ != b@);
        return false;
    }
    let mut i: usize = 0;
    while i < a.len()
        invariant
            0 <= i <= a.len(),
            a.len() == b.len(),
            forall|j: int| 0 <= j < i ==> a@[j] == b@[j],
        decreases a.len() - i,
    {
        if a[i] != b[i] {
            return false;
        }
        i += 1;
    }
    proof {
        assert(a@ =~= b@);
    }
    true
}

/// A fresh copy of a byte string.
pub fn clone_bytes(v: &Vec<u8>) -> (r: Vec<u8>)
    ensures
        r@ == v@,
{
    let mut out: Vec<u8> = Vec::new();
    let mut i: usize = 0;
    while i < v.len()
        invariant
            0 <= i <= v.len(),
            out@ == v@.subrange(0, i as int),
        decreases v.len() - i,
    {
        out.push(v[i]);
        assert(out@ =~= v@.subrange(0, i + 1 as int));
        i += 1;
    }
    proof {
        assert(out@ =~= v@);
    }
    out
}

/// The declaration kind a keyword token names.
pub fn kind_of(t: &Vec<u8>) -> (k: DeclKind)
    ensures
        k == spec_kind_of(t@),
{
    if t.len() == 8 && t[0] == 114 && t[1] == 101 && t[2] == 115 && t[3] == 111 && t[4]
        == 117 && t[5] == 114 && t[6] == 99 && t[7] == 101 {
        proof {
            assert(t@ =~= kw_resource());
        }
        DeclKind::Resource
    } else if t.len() == 5 && t[0] == 103 && t[1] == 114 && t[2] == 111 && t[3] == 117 && t[4]
        == 112 {
        proof {
            assert(t@ =~= kw_group());
            assert(t@ != kw_resource());
        }
        DeclKind::Group
    } else if t.len() == 5 && t[0] == 97 && t[1] == 108 && t[2] == 105 && t[3] == 97 && t[4]
        == 115 {
        proof {
            assert(t@ =~= kw_alias());
            assert(t@ != kw_resource());
            assert(t@ != kw_group());
        }
        DeclKind::Alias
    } else {
        proof {
            if t@ == kw_resource() {
                assert(t@.len() == 8 && t@[0] == 114 && t@[1] == 101 && t@[2] == 115 && t@[3]
                    == 111 && t@[4] == 117 && t@[5] == 114 && t@[6] == 99 && t@[7] == 101);
            }
            if t@ == kw_group() {
                assert(t@.len() == 5 && t@[0] == 103 && t@[1] == 114 && t@[2] == 111 && t@[3]
                    == 117 && t@[4] == 112);
            }
            if t@ == kw_alias() {
                assert(t@.len() == 5 && t@[0] == 97 && t@[1] == 108 && t@[2] == 105 && t@[3]
                    == 97 && t@[4] == 115);
            }
        }
        DeclKind::Other
    }
}

/// The value bound to `key` in an attribute sequence: the first binding wins.
pub open spec fn spec_attr_value(attrs: Seq<(Seq<u8>, Seq<u8>)>, key: Seq<u8>) -> Option<Seq<u8>>
    decreases attrs.len(),
{
    if attrs.len() == 0 {
        Option::None
    } else if attrs[0].0 == key {
        Option::Some(attrs[0].1)
    } else {
        spec_attr_value(attrs.skip(1), key)
    }
}

/// Whether an attribute sequence binds `key` at all.
pub open spec fn spec_has_key(attrs: Seq<(Seq<u8>, Seq<u8>)>, key: Seq<u8>) -> bool {
    spec_attr_value(attrs, key) is Some
}

/// Looks `key` up in a declaration's attributes; the first binding wins.
pub fn attr_value<'a>(attrs: &'a Vec<Attr>, key: &Vec<u8>) -> (r: Option<&'a Vec<u8>>)
    ensures
        match r {
            Option::Some(v) => spec_attr_value(attrs@.map_values(|a: Attr| a@), key@)
                == Option::Some(v@),
            Option::None => spec_attr_value(attrs@.map_values(|a: Attr| a@), key@) is None,
        },
{
    let ghost sq = attrs@.map_values(|a: Attr| a@);
    proof {
        assert(sq.skip(0) =~= sq);
    }
    let mut i: usize = 0;
    while i < attrs.len()
        invariant
            0 <= i <= attrs.len(),
            sq == attrs@.map_values(|a: Attr| a@),
            spec_attr_value(sq, key@) == spec_attr_value(sq.skip(i as int), key@),
            forall|j: int| 0 <= j < i ==> sq[j].0 != key@,
        decreases attrs.len() - i,
    {
        if bytes_eq(&attrs[i].key, key) {
            proof {
                assert(sq.skip(i as int)[0] == sq[i as int]);
            }
            return Option::Some(&attrs[i].value);
        }
        proof {
            assert(sq.skip(i as int)[0] == sq[i as int]);
            assert(sq.skip(i as int).skip(1) =~= sq.skip(i + 1));
        }
        i += 1;
    }
    proof {
        assert(sq.skip(i as int).len() == 0);
    }
    Option::None
}

} // verus!
