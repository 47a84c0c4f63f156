//! The dispatcher: drains pushed chunks, assembles frames, and routes each completed
//! frame to the request pending under its id.

use vstd::prelude::*;
use crate::frame::{assemble, assemble_step, decode_body, decode_frame, FrameAssembler};
use crate::registry::{CorrelationRegistry, Delivery};
use crate::request_id::RequestId;

verus! {

/// A response routed to a waiter: the id, the slot registered under it, the payload text.
pub type RoutedResponse<S> = (RequestId, S, Seq<char>);

/// Routing of one chunk, starting from `registry` and the assembler's `buffer`: the
/// registry afterwards, the buffer afterwards, and the response routed, if any.
pub open spec fn dispatch_step<S>(
    registry: Map<RequestId, S>,
    buffer: Seq<u8>,
    chunk: Seq<u8>,
) -> (Map<RequestId, S>, Seq<u8>, Option<RoutedResponse<S>>) {
    let (next, done) = assemble_step(buffer, chunk);
    match done {
        Some(body) => match decode_body(body) {
            Some((id, text)) => if registry.contains_key(id) {
                (registry.remove(id), next, Some((id, registry[id], text)))
            } else {
                (registry, next, None)
            },
            None => (registry, next, None),
        },
        None => (registry, next, None),
    }
}

/// Routing of `chunks` in arrival order: the registry and buffer afterwards, and the
/// responses routed, in order.
pub open spec fn dispatch_all<S>(
    registry: Map<RequestId, S>,
    buffer: Seq<u8>,
    chunks: Seq<Seq<u8>>,
) -> (Map<RequestId, S>, Seq<u8>, Seq<RoutedResponse<S>>)
    decreases chunks.len(),
{
    if chunks.len() == 0 {
        (registry, buffer, Seq::empty())
    } else {
        let (reg1, buf1, routed) = dispatch_step(registry, buffer, chunks[0]);
        let (reg2, buf2, rest) = dispatch_all(reg1, buf1, chunks.drop_first());
        match routed {
            Some(r) => (reg2, buf2, seq![r] + rest),
            None => (reg2, buf2, rest),
        }
    }
}

/// What became of one pushed chunk.
pub enum ChunkOutcome<S> {
    /// No frame was completed; the chunk stays buffered.
    Incomplete,
    /// A frame was completed but is malformed; it has been dropped.
    Malformed,
    /// A well-formed frame arrived for an id with no pending request (late or duplicate);
    /// it has been dropped.
    Unclaimed(RequestId),
    /// A frame was routed to the request pending under its id.
    Routed(Delivery<S>),
}

/// The response routed by an outcome, if any.
pub open spec fn routed_by<S>(outcome: ChunkOutcome<S>) -> Option<RoutedResponse<S>> {
    match outcome {
        ChunkOutcome::Routed(d) => Some((d.id, d.slot, d.payload@)),
        _ => None,
    }
}

/// Background router of one connection's push stream.
pub struct Dispatcher {
    assembler: FrameAssembler,
}

impl View for Dispatcher {
    type V = Seq<u8>;

    /// The bytes of the frame being assembled.
    closed spec fn view(&self) -> Seq<u8> {
        self.assembler@
    }
}

impl Dispatcher {
    /// A dispatcher with nothing buffered.
    pub fn new() -> (r: Self)
        ensures
            r@ == Seq::<u8>::empty(),
    {
        Dispatcher { assembler: FrameAssembler::new() }
    }

    /// Whether no partial frame is buffered.
    pub fn is_idle(&self) -> (r: bool)
        ensures
            r == (self@.len() == 0),
    {
        self.assembler.is_idle()
    }

    /// Takes one pushed chunk. When it completes a frame whose id is pending in
    /// `registry`, that request's slot is taken out and returned with the payload text;
    /// malformed and unclaimed frames are dropped without failing.
    pub fn on_chunk<S>(&mut self, registry: &mut CorrelationRegistry<S>, chunk: &[u8]) -> (r:
        ChunkOutcome<S>)
        ensures
            ({
                let (reg, buf, routed) = dispatch_step(old(registry)@, old(self)@, chunk@);
                &&& final(registry)@ == reg
                &&& final(self)@ == buf
                &&& routed_by(r) == routed
            }),
            r is Incomplete <==> assemble_step(old(self)@, chunk@).1 is None,
            r is Malformed <==> (assemble_step(old(self)@, chunk@).1 matches Some(body)
                && decode_body(body) is None),
            r matches ChunkOutcome::Unclaimed(id) ==> (assemble_step(old(self)@, chunk@).1 matches Some(
                body
            ) && decode_body(body) matches Some((frame_id, _)) && frame_id == id
                && !old(registry)@.contains_key(id)),
    {
        match self.assembler.push_chunk(chunk) {
            None => ChunkOutcome::Incomplete,
            Some(body) => match decode_frame(body.as_slice()) {
                None => ChunkOutcome::Malformed,
                Some(frame) => {
                    let id = frame.id;
                    match registry.resolve(id, frame.payload) {
                        Some(d) => ChunkOutcome::Routed(d),
                        None => ChunkOutcome::Unclaimed(id),
                    }
                },
            },
        }
    }
}

/// Each response reaches only its own caller: whatever the order in which frames arrive,
/// every response routed while `chunks` are dispatched goes to the slot that was pending
/// under its id, carries the payload of a completed frame whose parsed id is that id, and
/// no id is served twice; the served ids are exactly the ones removed from the registry.
pub proof fn lemma_responses_reach_own_caller<S>(
    registry: Map<RequestId, S>,
    buffer: Seq<u8>,
    chunks: Seq<Seq<u8>>,
)
    ensures
        ({
            let (reg, buf, routed) = dispatch_all(registry, buffer, chunks);
            let bodies = assemble(buffer, chunks).1;
            &&& buf == assemble(buffer, chunks).0
            &&& forall|k: int|
                0 <= k < routed.len() ==> {
                    let (id, slot, text) = #[trigger] routed[k];
                    &&& registry.contains_key(id)
                    &&& slot == registry[id]
                    &&& !reg.contains_key(id)
                    &&& exists|j: int|
                        0 <= j < bodies.len() && #[trigger] decode_body(bodies[j]) == Some(
                            (id, text),
                        )
                }
            &&& forall|k1: int, k2: int|
                0 <= k1 < k2 < routed.len() ==> (#[trigger] routed[k1]).0 != (
                #[trigger] routed[k2]).0
            &&& forall|id: RequestId|
                #[trigger] reg.contains_key(id) ==> registry.contains_key(id) && reg[id]
                    == registry[id]
        }),
    decreases chunks.len(),
{
    if chunks.len() > 0 {
        let (reg1, buf1, first) = dispatch_step(registry, buffer, chunks[0]);
        let rest = chunks.drop_first();
        lemma_responses_reach_own_caller(reg1, buf1, rest);
        let (reg, buf, routed) = dispatch_all(registry, buffer, chunks);
        let (reg2, buf2, routed2) = dispatch_all(reg1, buf1, rest);
        let (next, done) = assemble_step(buffer, chunks[0]);
        let bodies = assemble(buffer, chunks).1;
        let bodies2 = assemble(next, rest).1;
        assert(buf1 == next);
        match done {
            Some(body) => {
                assert(bodies == seq![body] + bodies2);
            },
            None => {
                assert(bodies == bodies2);
            },
        }
        match first {
            Some(r0) => {
                assert(routed == seq![r0] + routed2);
                let (id0, slot0, text0) = r0;
                assert(reg1 == registry.remove(id0));
                assert(done is Some);
                assert forall|k: int| 0 <= k < routed.len() implies {
                    let (id, slot, text) = #[trigger] routed[k];
                    &&& registry.contains_key(id)
                    &&& slot == registry[id]
                    &&& !reg.contains_key(id)
                    &&& exists|j: int|
                        0 <= j < bodies.len() && #[trigger] decode_body(bodies[j]) == Some(
                            (id, text),
                        )
                } by {
                    if k == 0 {
                        assert(routed[0] == r0);
                        assert(decode_body(bodies[0]) == Some((id0, text0)));
                        assert(!reg1.contains_key(id0));
                    } else {
                        assert(routed[k] == routed2[k - 1]);
                        let (id, slot, text) = routed2[k - 1];
                        let j2 = choose|j: int|
                            0 <= j < bodies2.len() && #[trigger] decode_body(bodies2[j]) == Some(
                                (id, text),
                            );
                        assert(bodies[j2 + 1] == bodies2[j2]);
                    }
                }
                assert forall|k1: int, k2: int|
                    0 <= k1 < k2 < routed.len() implies (#[trigger] routed[k1]).0 != (
                    #[trigger] routed[k2]).0 by {
                    assert(routed[k2] == routed2[k2 - 1]);
                    if k1 == 0 {
                        assert(reg1.contains_key(routed2[k2 - 1].0));
                    } else {
                        assert(routed[k1] == routed2[k1 - 1]);
                    }
                }
            },
            None => {
                assert(routed == routed2);
                assert(reg1 == registry);
                assert forall|k: int| 0 <= k < routed.len() implies {
                    let (id, slot, text) = #[trigger] routed[k];
                    exists|j: int|
                        0 <= j < bodies.len() && #[trigger] decode_body(bodies[j]) == Some(
                            (id, text),
                        )
                } by {
                    let (id, slot, text) = routed2[k];
                    let j2 = choose|j: int|
                        0 <= j < bodies2.len() && #[trigger] decode_body(bodies2[j]) == Some(
                            (id, text),
                        );
                    if done is Some {
                        assert(bodies[j2 + 1] == bodies2[j2]);
                    } else {
                        assert(bodies[j2] == bodies2[j2]);
                    }
                }
            },
        }
    }
}

} // verus!
