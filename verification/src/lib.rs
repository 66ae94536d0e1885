//! A deterministic evaluation engine for declarative project descriptors.
//!
//! The engine consumes a textual project description, a set of compliance
//! flags and optional auxiliary parameters, and produces either a structured
//! response (diagnostics, artifact metadata, an overall success flag) or a
//! descriptive failure. Artifacts produced during evaluation are streamed to
//! an output sink in declaration traversal order.

use vstd::prelude::*;

pub mod eval;
pub mod flags;
pub mod io;
pub mod lex;
pub mod model;
pub mod parse;
pub mod paths;
pub mod report;
pub mod response;

use crate::eval::{sp_evaluate, sp_ovr_view, Override};
use crate::flags::{spec_with_fhs, ComplianceFlags};
use crate::io::{InputSource, OutputSink, SpecSink};
use crate::lex::{ParseError, SpecParseErr};
use crate::parse::{parse, sp_parse, PRes};
use crate::paths::sp_base_view;
use crate::response::{build, sp_build, Response, SpecResponse};

verus! {

/// A fatal, non-diagnostic failure of one engine request.
#[derive(Debug)]
pub enum EngineError {
    /// The descriptor text is malformed: nothing was evaluated and no sink
    /// activity took place.
    Parse(ParseError),
    /// A structural invariant failed (reserved for resource exhaustion; the
    /// engine's evaluation is total today and never raises it).
    Internal { cause: Vec<u8> },
}

/// What one whole engine request yields: a rejection of the descriptor
/// text, or a response together with the sink's state afterwards.
pub enum RunOut {
    Rejected(SpecParseErr),
    Done(SpecResponse, SpecSink),
}

/// The one mathematical function a request computes: parse, then evaluate,
/// then build, against the starting sink state.
pub open spec fn sp_run(
    text: Seq<u8>,
    flags: ComplianceFlags,
    base: Seq<u8>,
    ovr: Seq<(Seq<u8>, Seq<u8>)>,
    sink: SpecSink,
) -> RunOut {
    match sp_parse(text, flags.unknown_kind_tolerant) {
        PRes::Fail(e) => RunOut::Rejected(e),
        PRes::Done(decls) => {
            let ev = sp_evaluate(decls, flags, base, ovr);
            let out = sp_build(ev.0, ev.1, sink);
            RunOut::Done(out.0, out.1)
        },
    }
}

/// The engine entry point: one synchronous request.
///
/// Reads the whole descriptor text from `input`, parses it under the given
/// flag set, evaluates the model with the optional auxiliary parameters
/// (`base`, a base path for relative placements; `overrides`, a
/// name-to-path override table; absence is neutral), and builds the
/// response, streaming artifacts to `output` in traversal order.
///
/// A parse failure short-circuits as `EngineError::Parse` with the sink
/// untouched. Every successful parse yields a present response (the absent
/// case is reserved for future validation-only modes). Content-level
/// problems never fail the call: they are diagnostics in the response.
pub fn run(
    input: InputSource,
    output: &mut OutputSink,
    base: Option<Vec<u8>>,
    overrides: Option<Vec<Override>>,
    flags: &ComplianceFlags,
) -> (r: Result<Option<Response>, EngineError>)
    ensures
        ({
            let out = sp_run(
                input@,
                *flags,
                sp_base_view(base),
                sp_ovr_view(overrides),
                old(output)@,
            );
            match r {
                Result::Ok(opt) => opt matches Option::Some(resp) && out == RunOut::Done(
                    resp@,
                    final(output)@,
                ),
                Result::Err(e) => e matches EngineError::Parse(pe) && out == RunOut::Rejected(pe@)
                    && final(output)@ == old(output)@,
            }
        }),
{
    let text = input.read_all();
    let model = match parse(&text, flags.unknown_kind_tolerant) {
        Result::Ok(m) => m,
        Result::Err(e) => {
            return Result::Err(EngineError::Parse(e));
        },
    };
    let er = crate::eval::evaluate(&model, flags, &base, &overrides);
    let resp = build(er, output);
    Result::Ok(Option::Some(resp))
}

/// Determinism: the outcome of a request, response and sink state alike, is
/// a function of the descriptor text, the flag set, the auxiliary
/// parameters and the starting sink alone; two runs of one request agree.
pub proof fn lemma_run_deterministic(
    text: Seq<u8>,
    flags: ComplianceFlags,
    base: Seq<u8>,
    ovr: Seq<(Seq<u8>, Seq<u8>)>,
    sink: SpecSink,
    r1: RunOut,
    r2: RunOut,
)
    requires
        r1 == sp_run(text, flags, base, ovr, sink),
        r2 == sp_run(text, flags, base, ovr, sink),
    ensures
        r1 == r2,
{
}

/// Enabling the filesystem-hierarchy compliance flag twice runs exactly as
/// enabling it once: the flag set is a set, and the whole request outcome
/// only sees which flags are on.
pub proof fn lemma_flag_idempotent_run(
    text: Seq<u8>,
    flags: ComplianceFlags,
    base: Seq<u8>,
    ovr: Seq<(Seq<u8>, Seq<u8>)>,
    sink: SpecSink,
)
    ensures
        sp_run(text, spec_with_fhs(spec_with_fhs(flags)), base, ovr, sink) == sp_run(
            text,
            spec_with_fhs(flags),
            base,
            ovr,
            sink,
        ),
{
}

} // verus!
