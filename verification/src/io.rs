//! The engine's boundary abstractions: where descriptor text comes from and
//! where produced artifacts go.
//!
//! An [`InputSource`] yields the complete text once per request. An
//! [`OutputSink`] accepts artifacts one by one, in the order they are
//! finalized; a discarding sink is valid and is the configuration used when
//! only the structured response matters. A sink refusal never fails the
//! evaluation: the response builder records it as a warning diagnostic.

use vstd::prelude::*;

use crate::report::{arts_view, Artifact, SpecArt};

verus! {

/// A readable source of descriptor text, detached from where the bytes
/// originate.
pub struct InputSource {
    data: Vec<u8>,
}

impl View for InputSource {
    type V = Seq<u8>;

    closed spec fn view(&self) -> Seq<u8> {
        self.data@
    }
}

impl InputSource {
    /// An input source over an in-memory buffer.
    pub fn from_bytes(data: Vec<u8>) -> (r: InputSource)
        ensures
            r@ == data@,
    {
        InputSource { data }
    }

    /// Produces the complete textual content, consuming the source: the text
    /// is read once per request and never retained.
    pub fn read_all(self) -> (r: Vec<u8>)
        ensures
            r@ == self@,
    {
        self.data
    }
}

/// How an output sink treats the artifacts handed to it.
#[derive(Clone, Copy, PartialEq, Eq, Structural, Debug)]
pub enum SinkMode {
    /// Accept and drop every artifact; used when only the response matters.
    Discard,
    /// Accept and retain every artifact.
    Collect,
    /// Refuse every artifact; each refusal surfaces as a warning diagnostic.
    Reject,
}

/// A destination for the artifacts produced during one evaluation.
pub struct OutputSink {
    mode: SinkMode,
    received: Vec<Artifact>,
}

/// The mathematical value of an [`OutputSink`]: its mode and the artifacts
/// it has accepted and retained, in acceptance order.
#[verifier::ext_equal]
pub struct SpecSink {
    pub mode: SinkMode,
    pub received: Seq<SpecArt>,
}

impl View for OutputSink {
    type V = SpecSink;

    closed spec fn view(&self) -> SpecSink {
        SpecSink { mode: self.mode, received: arts_view(self.received@) }
    }
}

/// What accepting one artifact does to a sink, and whether it succeeded.
pub open spec fn sp_accept(s: SpecSink, a: SpecArt) -> (SpecSink, bool) {
    match s.mode {
        SinkMode::Collect => (SpecSink { received: s.received.push(a), ..s }, true),
        SinkMode::Discard => (s, true),
        SinkMode::Reject => (s, false),
    }
}

impl OutputSink {
    /// A sink that drops everything it is handed.
    pub fn discarding() -> (r: OutputSink)
        ensures
            r@ == (SpecSink { mode: SinkMode::Discard, received: Seq::empty() }),
    {
        let r = OutputSink { mode: SinkMode::Discard, received: Vec::new() };
        proof {
            assert(r@.received =~= Seq::<SpecArt>::empty());
        }
        r
    }

    /// A sink that retains everything it is handed, in order.
    pub fn collecting() -> (r: OutputSink)
        ensures
            r@ == (SpecSink { mode: SinkMode::Collect, received: Seq::empty() }),
    {
        let r = OutputSink { mode: SinkMode::Collect, received: Vec::new() };
        proof {
            assert(r@.received =~= Seq::<SpecArt>::empty());
        }
        r
    }

    /// A sink that refuses everything it is handed.
    pub fn rejecting() -> (r: OutputSink)
        ensures
            r@ == (SpecSink { mode: SinkMode::Reject, received: Seq::empty() }),
    {
        let r = OutputSink { mode: SinkMode::Reject, received: Vec::new() };
        proof {
            assert(r@.received =~= Seq::<SpecArt>::empty());
        }
        r
    }

    /// Hands one artifact to the sink; the result says whether the sink
    /// accepted it.
    pub fn accept(&mut self, a: Artifact) -> (ok: bool)
        ensures
            (final(self)@, ok) == sp_accept(old(self)@, a@),
    {
        match self.mode {
            SinkMode::Collect => {
                let ghost before = self@;
                let ghost av = a@;
                self.received.push(a);
                proof {
                    assert(arts_view(self.received@) =~= before.received.push(av));
                }
                true
            },
            SinkMode::Discard => true,
            SinkMode::Reject => false,
        }
    }

    /// The artifacts the sink has accepted and retained, in acceptance order.
    pub fn received(&self) -> (r: &Vec<Artifact>)
        ensures
            arts_view(r@) == self@.received,
    {
        &self.received
    }
}

} // verus!
