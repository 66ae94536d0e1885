//! What an evaluation reports: diagnostics and artifacts.
//!
//! Content-level problems never abort an evaluation; they are collected as
//! diagnostics, and only error-severity diagnostics decide the overall
//! success/failure classification of a response.

use vstd::prelude::*;

verus! {

/// How grave a diagnostic is. Only `Error` affects the overall
/// classification; warnings never demote a response to failure.
#[derive(Clone, Copy, PartialEq, Eq, Structural, Debug)]
pub enum Severity {
    Warning,
    Error,
}

/// What a diagnostic reports.
#[derive(Debug)]
pub enum DiagKind {
    /// Two declarations share a name; both offsets are carried, and the
    /// later declaration shadows the earlier one for resolution.
    DuplicateDeclaration { name: Vec<u8>, first_offset: usize, second_offset: usize },
    /// A referenced name resolves to no declaration.
    UnresolvedReference { name: Vec<u8> },
    /// A resolved placement falls outside the allow-listed directory roots;
    /// carries the offending path and the corrected expected path.
    NonCompliantPlacement { declared: Vec<u8>, expected: Vec<u8> },
    /// A reference chain closes on itself; reported once per cycle, naming
    /// the declaration whose resolution first discovered it.
    CircularReference { name: Vec<u8> },
    /// The output sink refused an artifact; reported as a warning so that
    /// output-side trouble never erases evaluation work.
    SinkRejected { name: Vec<u8> },
}

/// The mathematical value of a [`DiagKind`].
#[verifier::ext_equal]
pub enum SpecDiagKind {
    DuplicateDeclaration { name: Seq<u8>, first_offset: int, second_offset: int },
    UnresolvedReference { name: Seq<u8> },
    NonCompliantPlacement { declared: Seq<u8>, expected: Seq<u8> },
    CircularReference { name: Seq<u8> },
    SinkRejected { name: Seq<u8> },
}

impl View for DiagKind {
    type V = SpecDiagKind;

    open spec fn view(&self) -> SpecDiagKind {
        match self {
            DiagKind::DuplicateDeclaration { name, first_offset, second_offset } => {
                SpecDiagKind::DuplicateDeclaration {
                    name: name@,
                    first_offset: *first_offset as int,
                    second_offset: *second_offset as int,
                }
            },
            DiagKind::UnresolvedReference { name } => {
                SpecDiagKind::UnresolvedReference { name: name@ }
            },
            DiagKind::NonCompliantPlacement { declared, expected } => {
                SpecDiagKind::NonCompliantPlacement { declared: declared@, expected: expected@ }
            },
            DiagKind::CircularReference { name } => {
                SpecDiagKind::CircularReference { name: name@ }
            },
            DiagKind::SinkRejected { name } => SpecDiagKind::SinkRejected { name: name@ },
        }
    }
}

/// One reported issue: severity, what happened, and where in the descriptor
/// text it was discovered, if anywhere.
#[derive(Debug)]
pub struct Diagnostic {
    pub severity: Severity,
    pub kind: DiagKind,
    pub offset: Option<usize>,
}

/// The mathematical value of a [`Diagnostic`].
#[verifier::ext_equal]
pub struct SpecDiag {
    pub severity: Severity,
    pub kind: SpecDiagKind,
    pub offset: Option<int>,
}

impl View for Diagnostic {
    type V = SpecDiag;

    open spec fn view(&self) -> SpecDiag {
        SpecDiag {
            severity: self.severity,
            kind: self.kind@,
            offset: match self.offset {
                Option::Some(o) => Option::Some(o as int),
                Option::None => Option::None,
            },
        }
    }
}

/// The sequence of mathematical diagnostic values of a diagnostic vector.
pub open spec fn diags_view(v: Seq<Diagnostic>) -> Seq<SpecDiag> {
    v.map_values(|d: Diagnostic| d@)
}

/// The overall classification of a diagnostic list: success exactly when no
/// diagnostic has error severity.
pub open spec fn sp_success(diags: Seq<SpecDiag>) -> bool {
    forall|j: int| 0 <= j < diags.len() ==> (#[trigger] diags[j]).severity != Severity::Error
}

/// Whether a diagnostic list classifies as success.
pub fn all_clear(diags: &Vec<Diagnostic>) -> (r: bool)
    ensures
        r == sp_success(diags_view(diags@)),
{
    let ghost dv = diags_view(diags@);
    let mut i: usize = 0;
    while i < diags.len()
        invariant
            0 <= i <= diags.len(),
            dv == diags_view(diags@),
            forall|j: int| 0 <= j < i ==> (#[trigger] dv[j]).severity != Severity::Error,
        decreases diags.len() - i,
    {
        if diags[i].severity == Severity::Error {
            assert(dv[i as int].severity == Severity::Error);
            return false;
        }
        i += 1;
    }
    true
}

/// Appending a warning-severity diagnostic never flips a classification:
/// success is decided by error-severity diagnostics alone.
pub proof fn lemma_warning_never_demotes(diags: Seq<SpecDiag>, d: SpecDiag)
    requires
        d.severity != Severity::Error,
    ensures
        sp_success(diags.push(d)) == sp_success(diags),
{
    assert forall|j: int| 0 <= j < diags.len() implies diags[j] == diags.push(d)[j] by {}
}

/// One generated output unit: a name and the bytes produced for it.
#[derive(Debug)]
pub struct Artifact {
    pub name: Vec<u8>,
    pub data: Vec<u8>,
}

/// The mathematical value of an [`Artifact`].
#[verifier::ext_equal]
pub struct SpecArt {
    pub name: Seq<u8>,
    pub data: Seq<u8>,
}

impl View for Artifact {
    type V = SpecArt;

    open spec fn view(&self) -> SpecArt {
        SpecArt { name: self.name@, data: self.data@ }
    }
}

/// The sequence of mathematical artifact values of an artifact vector.
pub open spec fn arts_view(v: Seq<Artifact>) -> Seq<SpecArt> {
    v.map_values(|a: Artifact| a@)
}

/// What a response keeps of an artifact: its name, its size in bytes, and
/// its position in the emission order (the bytes themselves went to the
/// output sink).
#[derive(Debug)]
pub struct ArtifactMeta {
    pub name: Vec<u8>,
    pub size: usize,
    pub index: usize,
}

/// The mathematical value of an [`ArtifactMeta`].
#[verifier::ext_equal]
pub struct SpecMeta {
    pub name: Seq<u8>,
    pub size: int,
    pub index: int,
}

impl View for ArtifactMeta {
    type V = SpecMeta;

    open spec fn view(&self) -> SpecMeta {
        SpecMeta { name: self.name@, size: self.size as int, index: self.index as int }
    }
}

/// The sequence of mathematical metadata values of a metadata vector.
pub open spec fn metas_view(v: Seq<ArtifactMeta>) -> Seq<SpecMeta> {
    v.map_values(|m: ArtifactMeta| m@)
}

} // verus!
