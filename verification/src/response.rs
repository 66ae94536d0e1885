//! The response builder: assembles an evaluation's findings into the one
//! structured result handed back to the caller, streaming artifacts to the
//! output sink on the way.
//!
//! The classification boundary is exact: the response is a failure if and
//! only if at least one diagnostic has error severity. A sink refusal is
//! recorded as a warning diagnostic, never an engine failure, so output-side
//! trouble cannot erase evaluation work or flip a success on its own.

use vstd::prelude::*;

use crate::eval::EvalResult;
use crate::io::{OutputSink, SinkMode, SpecSink};
use crate::model::clone_bytes;
use crate::report::{
    all_clear, arts_view, diags_view, metas_view, sp_success, Artifact, ArtifactMeta, DiagKind,
    Diagnostic, Severity, SpecArt, SpecDiag, SpecDiagKind, SpecMeta,
};

verus! {

/// The structured result of one engine request: the full diagnostic list,
/// the metadata of every produced artifact (the bytes went to the sink),
/// and the overall classification. Immutable once constructed.
#[derive(Debug)]
pub struct Response {
    pub success: bool,
    pub diagnostics: Vec<Diagnostic>,
    pub artifacts: Vec<ArtifactMeta>,
}

/// The mathematical value of a [`Response`].
#[verifier::ext_equal]
pub struct SpecResponse {
    pub success: bool,
    pub diagnostics: Seq<SpecDiag>,
    pub artifacts: Seq<SpecMeta>,
}

impl View for Response {
    type V = SpecResponse;

    open spec fn view(&self) -> SpecResponse {
        SpecResponse {
            success: self.success,
            diagnostics: diags_view(self.diagnostics@),
            artifacts: metas_view(self.artifacts@),
        }
    }
}

/// The metadata a response keeps of each artifact: name, size in bytes, and
/// position in the emission order.
pub open spec fn sp_metas(arts: Seq<SpecArt>) -> Seq<SpecMeta> {
    arts.map(|k: int, a: SpecArt| SpecMeta { name: a.name, size: a.data.len() as int, index: k })
}

/// The warning diagnostics a sink's refusals add: one per refused artifact,
/// in artifact order; an accepting sink adds none.
pub open spec fn sp_sink_diags(mode: SinkMode, arts: Seq<SpecArt>) -> Seq<SpecDiag> {
    if mode == SinkMode::Reject {
        arts.map_values(
            |a: SpecArt| SpecDiag {
                severity: Severity::Warning,
                kind: SpecDiagKind::SinkRejected { name: a.name },
                offset: Option::None,
            },
        )
    } else {
        Seq::empty()
    }
}

/// What a sink retains after being handed every artifact in order.
pub open spec fn sp_received_after(sink: SpecSink, arts: Seq<SpecArt>) -> Seq<SpecArt> {
    if sink.mode == SinkMode::Collect {
        sink.received + arts
    } else {
        sink.received
    }
}

/// What building a response from an evaluation's findings yields: the
/// response, and the sink's state after every artifact was handed over.
pub open spec fn sp_build(diags: Seq<SpecDiag>, arts: Seq<SpecArt>, sink: SpecSink) -> (
    SpecResponse,
    SpecSink,
) {
    let all = diags + sp_sink_diags(sink.mode, arts);
    (
        SpecResponse { success: sp_success(all), diagnostics: all, artifacts: sp_metas(arts) },
        SpecSink { mode: sink.mode, received: sp_received_after(sink, arts) },
    )
}

/// Builds the response from an evaluation's findings, handing each artifact
/// to the output sink in evaluator-produced order.
pub fn build(er: EvalResult, sink: &mut OutputSink) -> (resp: Response)
    ensures
        (resp@, final(sink)@) == sp_build(
            diags_view(er.diagnostics@),
            arts_view(er.artifacts@),
            old(sink)@,
        ),
{
    let EvalResult { diagnostics: mut diags, artifacts: mut arts } = er;
    let ghost diags0 = diags_view(diags@);
    let ghost av = arts_view(arts@);
    let ghost sink0 = sink@;
    let mut metas: Vec<ArtifactMeta> = Vec::new();
    proof {
        assert(av.subrange(0, 0) =~= Seq::<SpecArt>::empty());
        assert(arts_view(arts@) =~= av.subrange(0, av.len() as int));
        assert(metas_view(metas@) =~= sp_metas(av).subrange(0, 0));
        assert(diags_view(diags@) =~= diags0 + sp_sink_diags(sink0.mode, av.subrange(0, 0)));
        assert(sink@.received =~= sp_received_after(sink0, av.subrange(0, 0)));
    }
    let total: usize = arts.len();
    let mut k: usize = 0;
    while arts.len() > 0
        invariant
            av.len() == total,
            0 <= k <= av.len(),
            k + arts@.len() == av.len(),
            arts_view(arts@) == av.subrange(k as int, av.len() as int),
            metas_view(metas@) == sp_metas(av).subrange(0, k as int),
            diags_view(diags@) == diags0 + sp_sink_diags(sink0.mode, av.subrange(0, k as int)),
            sink@.mode == sink0.mode,
            sink@.received == sp_received_after(sink0, av.subrange(0, k as int)),
        decreases arts@.len(),
    {
        let ghost before = arts@;
        let a = arts.remove(0);
        proof {
            assert(a == before[0]);
            assert(arts_view(before)[0] == before[0]@);
            assert(arts_view(before)[0] == av.subrange(k as int, av.len() as int)[0]);
            assert(a@ == av[k as int]);
            assert forall|j: int| 0 <= j < arts@.len() implies arts_view(arts@)[j] == av[k + 1
                + j] by {
                assert(arts@[j] == before[j + 1]);
                assert(arts_view(before)[j + 1] == av.subrange(k as int, av.len() as int)[j + 1]);
            }
            assert(arts_view(arts@) =~= av.subrange(k + 1, av.len() as int));
        }
        let m = ArtifactMeta { name: clone_bytes(&a.name), size: a.data.len(), index: k };
        let ghost metas0 = metas_view(metas@);
        metas.push(m);
        proof {
            assert(m@ == sp_metas(av)[k as int]);
            assert(metas_view(metas@) =~= metas0.push(m@));
            assert(sp_metas(av).subrange(0, k + 1) =~= sp_metas(av).subrange(0, k as int).push(
                sp_metas(av)[k as int],
            ));
        }
        let nm = clone_bytes(&a.name);
        let ghost aview = a@;
        let ok = sink.accept(a);
        proof {
            assert(av.subrange(0, k + 1) =~= av.subrange(0, k as int).push(aview));
            assert(sink@.received =~= sp_received_after(sink0, av.subrange(0, k + 1)));
        }
        if !ok {
            let d = Diagnostic {
                severity: Severity::Warning,
                kind: DiagKind::SinkRejected { name: nm },
                offset: Option::None,
            };
            let ghost diags_a = diags_view(diags@);
            diags.push(d);
            proof {
                assert(sink0.mode == SinkMode::Reject);
                assert(d@ == sp_sink_diags(sink0.mode, av)[k as int]);
                assert(diags_view(diags@) =~= diags_a.push(d@));
                assert(sp_sink_diags(sink0.mode, av.subrange(0, k + 1)) =~= sp_sink_diags(
                    sink0.mode,
                    av.subrange(0, k as int),
                ).push(d@));
                assert(diags0 + sp_sink_diags(sink0.mode, av.subrange(0, k as int)).push(d@) =~= (
                diags0 + sp_sink_diags(sink0.mode, av.subrange(0, k as int))).push(d@));
                assert(diags_view(diags@) =~= diags0 + sp_sink_diags(
                    sink0.mode,
                    av.subrange(0, k + 1),
                ));
            }
        } else {
            proof {
                assert(sink0.mode != SinkMode::Reject);
                assert(sp_sink_diags(sink0.mode, av.subrange(0, k + 1)) =~= Seq::<
                    SpecDiag,
                >::empty());
                assert(diags_view(diags@) =~= diags0 + sp_sink_diags(
                    sink0.mode,
                    av.subrange(0, k + 1),
                ));
            }
        }
        k += 1;
    }
    proof {
        assert(av.subrange(0, av.len() as int) =~= av);
    }
    let success = all_clear(&diags);
    let resp = Response { success, diagnostics: diags, artifacts: metas };
    proof {
        assert(resp@ =~= sp_build(diags0, av, sink0).0);
        assert(final(sink)@ =~= sp_build(diags0, av, sink0).1);
    }
    resp
}

/// A response is a failure exactly when at least one of its diagnostics has
/// error severity; warning diagnostics never demote a success.
pub proof fn lemma_success_classification(diags: Seq<SpecDiag>, arts: Seq<SpecArt>, sink: SpecSink)
    ensures
        ({
            let resp = sp_build(diags, arts, sink).0;
            resp.success <==> forall|j: int|
                0 <= j < resp.diagnostics.len() ==> (#[trigger] resp.diagnostics[j]).severity
                    != Severity::Error
        }),
{
}

/// Artifacts appear in the response metadata, and at a collecting sink, in
/// exactly the evaluator-produced order: entry `k` of both carries the name
/// of artifact `k`, and the sink retains the artifacts themselves in order.
pub proof fn lemma_artifact_order(diags: Seq<SpecDiag>, arts: Seq<SpecArt>, sink: SpecSink)
    requires
        sink.mode == SinkMode::Collect,
        sink.received == Seq::<SpecArt>::empty(),
    ensures
        ({
            let out = sp_build(diags, arts, sink);
            &&& out.0.artifacts.len() == arts.len()
            &&& out.1.received == arts
            &&& forall|k: int|
                0 <= k < arts.len() ==> (#[trigger] out.0.artifacts[k]).name == arts[k].name
                    && out.0.artifacts[k].index == k
        }),
{
    assert(sp_build(diags, arts, sink).1.received =~= arts);
}

} // verus!
