//! The incremental delivery stream: sequences a primary response and its
//! patches, and closes on the terminal patch or on cancellation.
//!
//! The stream moves through `AwaitingPrimary`, then `Streaming` while
//! patches remain outstanding, then `Closed`. Cancelling the request
//! closes the stream at once: nothing already emitted changes, and no
//! further message can be emitted, so no partially-attached tree is ever
//! observable through it.

use vstd::prelude::*;
use crate::error::GraphQLResponse;

verus! {

/// Where a delivery stream stands.
#[derive(Debug, PartialEq, Eq, Structural)]
pub enum StreamPhase {
    /// The primary response has not been emitted yet.
    AwaitingPrimary,
    /// The primary response was emitted and declared that patches follow.
    Streaming,
    /// The terminal message was emitted, or the request was cancelled.
    Closed,
}

/// A delivery stream: what has been emitted to the client, and whether
/// more may follow.
#[derive(Debug)]
pub struct DeliveryStream {
    pub phase: StreamPhase,
    pub emitted: Vec<GraphQLResponse>,
}

impl DeliveryStream {
    /// Whether the primary response may be emitted.
    pub open spec fn can_emit_primary(self) -> bool {
        self.phase is AwaitingPrimary
    }

    /// Whether a patch may be emitted.
    pub open spec fn can_emit_patch(self) -> bool {
        self.phase is Streaming
    }

    /// A stream that has emitted nothing.
    pub fn new() -> (r: DeliveryStream)
        ensures
            r.phase is AwaitingPrimary,
            r.emitted@.len() == 0,
    {
        DeliveryStream { phase: StreamPhase::AwaitingPrimary, emitted: Vec::new() }
    }

    /// Emit the primary response. The stream stays open exactly when the
    /// response declares that patches follow.
    pub fn emit_primary(&mut self, r: GraphQLResponse)
        requires
            old(self).can_emit_primary(),
        ensures
            final(self).emitted@ == old(self).emitted@.push(r),
            final(self).phase == (if r.has_next == Some(true) {
                StreamPhase::Streaming
            } else {
                StreamPhase::Closed
            }),
    {
        self.phase = if r.has_next == Some(true) {
            StreamPhase::Streaming
        } else {
            StreamPhase::Closed
        };
        self.emitted.push(r);
    }

    /// Emit one patch. The patch that declares no successor closes the
    /// stream.
    pub fn emit_patch(&mut self, r: GraphQLResponse)
        requires
            old(self).can_emit_patch(),
        ensures
            final(self).emitted@ == old(self).emitted@.push(r),
            final(self).phase == (if r.has_next == Some(false) {
                StreamPhase::Closed
            } else {
                StreamPhase::Streaming
            }),
    {
        self.phase = if r.has_next == Some(false) {
            StreamPhase::Closed
        } else {
            StreamPhase::Streaming
        };
        self.emitted.push(r);
    }

    /// Cancel the request: the stream closes at once and nothing further
    /// is emitted; what was already emitted is unchanged.
    pub fn cancel(&mut self)
        ensures
            final(self).phase is Closed,
            final(self).emitted@ == old(self).emitted@,
    {
        self.phase = StreamPhase::Closed;
    }
}

/// Law: a closed stream is silent. After cancellation no primary response
/// and no patch can be emitted, so cancelling mid-execution exposes no
/// further state to any consumer of the stream.
pub proof fn lemma_cancelled_stream_is_silent(s: DeliveryStream)
    requires
        s.phase is Closed,
    ensures
        !s.can_emit_primary(),
        !s.can_emit_patch(),
{
}

} // verus!
