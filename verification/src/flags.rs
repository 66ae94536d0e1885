//! Compliance flags: an immutable set of independently togglable evaluation
//! modes. Combinations are order-independent and enabling a flag twice is the
//! same as enabling it once.

use vstd::prelude::*;

verus! {

/// The set of evaluation modes active for one engine request.
///
/// Each field is one independently togglable flag; the set is immutable once
/// handed to the engine (`Copy`, and every setter returns a new value).
#[derive(Clone, Copy, PartialEq, Eq, Structural, Debug)]
pub struct ComplianceFlags {
    /// Filesystem-hierarchy compliance: installable resources must resolve to
    /// a placement under one of the standard directory roots.
    pub fhs_compliance: bool,
    /// Tolerate declaration kinds outside the closed set: the parser accepts
    /// them and the evaluator treats them as inert instead of rejecting the
    /// whole descriptor.
    pub unknown_kind_tolerant: bool,
}

/// The flag set with `fhs_compliance` switched on, other flags unchanged.
pub open spec fn spec_with_fhs(f: ComplianceFlags) -> ComplianceFlags {
    ComplianceFlags { fhs_compliance: true, ..f }
}

/// The flag set with `unknown_kind_tolerant` switched on, other flags unchanged.
pub open spec fn spec_with_tolerant(f: ComplianceFlags) -> ComplianceFlags {
    ComplianceFlags { unknown_kind_tolerant: true, ..f }
}

impl ComplianceFlags {
    /// The empty flag set: no compliance mode active.
    pub fn none() -> (r: ComplianceFlags)
        ensures
            r == (ComplianceFlags { fhs_compliance: false, unknown_kind_tolerant: false }),
    {
        ComplianceFlags { fhs_compliance: false, unknown_kind_tolerant: false }
    }

    /// This flag set with filesystem-hierarchy compliance enabled.
    pub fn with_fhs_compliance(self) -> (r: ComplianceFlags)
        ensures
            r == spec_with_fhs(self),
    {
        ComplianceFlags { fhs_compliance: true, ..self }
    }

    /// This flag set with unknown-kind tolerance enabled.
    pub fn with_unknown_kind_tolerant(self) -> (r: ComplianceFlags)
        ensures
            r == spec_with_tolerant(self),
    {
        ComplianceFlags { unknown_kind_tolerant: true, ..self }
    }

    /// The flag set the desktop shell requests: filesystem-hierarchy
    /// compliance alone.
    pub fn fhs_only() -> (r: ComplianceFlags)
        ensures
            r == (ComplianceFlags { fhs_compliance: true, unknown_kind_tolerant: false }),
    {
        ComplianceFlags { fhs_compliance: true, unknown_kind_tolerant: false }
    }
}

/// Enabling a flag twice is observably identical to enabling it once, and
/// enabling two flags commutes: the set is a set, not a sequence of switches.
pub proof fn lemma_flag_idempotent_commutative(f: ComplianceFlags)
    ensures
        spec_with_fhs(spec_with_fhs(f)) == spec_with_fhs(f),
        spec_with_tolerant(spec_with_tolerant(f)) == spec_with_tolerant(f),
        spec_with_fhs(spec_with_tolerant(f)) == spec_with_tolerant(spec_with_fhs(f)),
{
}

} // verus!
