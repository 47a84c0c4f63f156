//! The decisions of a connection: its lifecycle, the start and end of each request, and
//! teardown. The transport work between them (writes, waits, subscriptions) is done by
//! the caller, which reports its outcome back.

use vstd::prelude::*;
use vstd::slice::slice_to_vec;
use vstd::utf8::encode_utf8;
use crate::dispatcher::{ChunkOutcome, Dispatcher, dispatch_step, routed_by};
use crate::error::LinkError;
use crate::frame::{encode_frame, frame_bytes};
use crate::registry::CorrelationRegistry;
use crate::request_id::RequestId;

verus! {

/// Where a connection stands.
#[derive(Debug, Clone, Copy, PartialEq, Eq, Structural)]
pub enum LinkState {
    /// Connected and discovered, push stream not yet subscribed.
    Idle,
    /// Subscribed, with its dispatcher running: requests may be sent.
    Active,
    /// Torn down; never used again.
    Terminated,
}

/// How a request's wait ended, as observed by the caller.
pub enum WaitOutcome {
    /// The frame could not be written.
    WriteFailed,
    /// The slot received this payload.
    Delivered(String),
    /// The slot was dropped without a payload.
    SlotClosed,
    /// The deadline passed first.
    TimedOut,
}

/// What `terminate` must do on the transport, and what it reports.
#[derive(Debug, Clone, Copy, PartialEq, Eq, Structural)]
pub struct TeardownPlan {
    /// Stop the running dispatcher.
    pub cancel_dispatcher: bool,
    /// Release the characteristic subscription.
    pub unsubscribe: bool,
    /// Disconnect the peripheral.
    pub disconnect: bool,
    /// The link was already down: nothing was left to release on the transport.
    pub already_disconnected: bool,
}

/// The payload sent to probe whether the peripheral answers.
pub open spec fn probe_text() -> Seq<char> {
    "NT_CheckAlive"@
}

/// The only response that counts as alive.
pub open spec fn alive_text() -> Seq<char> {
    "Ok"@
}

/// The state and plan of a teardown requested in `state` while the transport reports
/// `connected`.
pub open spec fn teardown(state: LinkState, connected: bool) -> (LinkState, TeardownPlan) {
    if state == LinkState::Terminated {
        (
            LinkState::Terminated,
            TeardownPlan {
                cancel_dispatcher: false,
                unsubscribe: false,
                disconnect: false,
                already_disconnected: true,
            },
        )
    } else {
        (
            LinkState::Terminated,
            TeardownPlan {
                cancel_dispatcher: state == LinkState::Active,
                unsubscribe: state == LinkState::Active && connected,
                disconnect: connected,
                already_disconnected: !connected,
            },
        )
    }
}

/// The result a finished request reports for `outcome`.
pub open spec fn request_result(outcome: WaitOutcome) -> Result<Seq<char>, LinkError> {
    match outcome {
        WaitOutcome::Delivered(p) => Ok(p@),
        WaitOutcome::WriteFailed => Err(LinkError::TransportError),
        WaitOutcome::SlotClosed => Err(LinkError::Timeout),
        WaitOutcome::TimedOut => Err(LinkError::Timeout),
    }
}

/// Lifecycle and pending requests of one connection. Each connection owns its own
/// registry, so ids of unrelated peripherals never meet.
pub struct ConnectionCore<S> {
    state: LinkState,
    registry: CorrelationRegistry<S>,
}

impl<S> View for ConnectionCore<S> {
    type V = (LinkState, Map<RequestId, S>);

    /// The lifecycle state and the pending requests.
    closed spec fn view(&self) -> (LinkState, Map<RequestId, S>) {
        (self.state, self.registry@)
    }
}

impl<S> ConnectionCore<S> {
    /// A freshly connected link: idle, nothing pending.
    pub fn new() -> (r: Self)
        ensures
            r@ == (LinkState::Idle, Map::<RequestId, S>::empty()),
    {
        ConnectionCore { state: LinkState::Idle, registry: CorrelationRegistry::new() }
    }

    /// The lifecycle state.
    pub fn state(&self) -> (r: LinkState)
        ensures
            r == self@.0,
    {
        self.state
    }

    /// Whether a request is pending under `id`.
    pub fn is_pending(&self, id: RequestId) -> (r: bool)
        ensures
            r == self@.1.contains_key(id),
    {
        self.registry.is_pending(id)
    }

    /// Number of pending requests.
    pub fn pending_count(&self) -> (r: usize)
        ensures
            r == self@.1.len(),
    {
        self.registry.len()
    }

    /// Whether the push stream may be subscribed now: only on an idle link whose transport
    /// reports connected. Initializing an active link is not allowed.
    pub fn may_initialize(&self, connected: bool) -> (r: Result<(), LinkError>)
        requires
            self@.0 != LinkState::Active,
        ensures
            r is Ok <==> (self@.0 == LinkState::Idle && connected),
            r is Err ==> r == Err::<(), LinkError>(LinkError::NotConnected),
    {
        if self.state == LinkState::Idle && connected {
            Ok(())
        } else {
            Err(LinkError::NotConnected)
        }
    }

    /// Records that the push stream is subscribed and the dispatcher runs.
    pub fn activate(&mut self)
        requires
            old(self)@.0 == LinkState::Idle,
        ensures
            final(self)@ == (LinkState::Active, old(self)@.1),
    {
        self.state = LinkState::Active;
    }

    /// Starts a request under the fresh id `id`: fails with `NotConnected` unless the
    /// link is active and the transport reports connected, and with `Collision` when
    /// `id` is already pending; otherwise registers `slot` under `id` and returns the
    /// frame to write.
    pub fn begin_request(&mut self, connected: bool, id: RequestId, slot: S, payload: &[u8]) -> (r:
        Result<Vec<u8>, LinkError>)
        ensures
            final(self)@.0 == old(self)@.0,
            !(old(self)@.0 == LinkState::Active && connected) ==> r == Err::<Vec<u8>, LinkError>(
                LinkError::NotConnected,
            ) && final(self)@.1 == old(self)@.1,
            old(self)@.0 == LinkState::Active && connected && old(self)@.1.contains_key(id) ==> r
                == Err::<Vec<u8>, LinkError>(LinkError::Collision) && final(self)@.1 == old(
                self,
            )@.1,
            old(self)@.0 == LinkState::Active && connected && !old(self)@.1.contains_key(id) ==> (
            r matches Ok(frame) && frame@ == frame_bytes(id, payload@)) && final(self)@.1 == old(
                self,
            )@.1.insert(id, slot),
    {
        if !(self.state == LinkState::Active && connected) {
            return Err(LinkError::NotConnected);
        }
        match self.registry.register(id, slot) {
            Ok(()) => Ok(encode_frame(id, payload)),
            Err(e) => Err(e),
        }
    }

    /// Ends the request under `id` once its wait is over. The entry is always gone
    /// afterwards: a timed-out or failed request abandons it, so no later frame can match
    /// it. Returns the delivered payload, `TransportError` when the write failed, and
    /// `Timeout` when nothing was delivered.
    pub fn finish_request(&mut self, id: RequestId, outcome: WaitOutcome) -> (r: Result<
        String,
        LinkError,
    >)
        ensures
            final(self)@ == (old(self)@.0, old(self)@.1.remove(id)),
            !final(self)@.1.contains_key(id),
            match (r, request_result(outcome)) {
                (Ok(p), Ok(q)) => p@ == q,
                (Err(e), Err(f)) => e == f,
                _ => false,
            },
    {
        self.registry.abandon(id);
        match outcome {
            WaitOutcome::Delivered(p) => Ok(p),
            WaitOutcome::WriteFailed => Err(LinkError::TransportError),
            WaitOutcome::SlotClosed => Err(LinkError::Timeout),
            WaitOutcome::TimedOut => Err(LinkError::Timeout),
        }
    }

    /// Routes one pushed chunk through `dispatcher` into this connection's registry.
    pub fn route_chunk(&mut self, dispatcher: &mut Dispatcher, chunk: &[u8]) -> (r: ChunkOutcome<S>)
        ensures
            ({
                let (reg, buf, routed) = dispatch_step(old(self)@.1, old(dispatcher)@, chunk@);
                &&& final(self)@ == (old(self)@.0, reg)
                &&& final(dispatcher)@ == buf
                &&& routed_by(r) == routed
            }),
    {
        dispatcher.on_chunk(&mut self.registry, chunk)
    }

    /// Tears the link down. The first call plans the release of what is held (the
    /// dispatcher, the subscription, the link itself); any later call plans nothing and
    /// reports the link as already disconnected.
    pub fn terminate(&mut self, connected: bool) -> (r: TeardownPlan)
        ensures
            (final(self)@.0, r) == teardown(old(self)@.0, connected),
            final(self)@.1 == old(self)@.1,
    {
        if self.state == LinkState::Terminated {
            return TeardownPlan {
                cancel_dispatcher: false,
                unsubscribe: false,
                disconnect: false,
                already_disconnected: true,
            };
        }
        let plan = TeardownPlan {
            cancel_dispatcher: self.state == LinkState::Active,
            unsubscribe: self.state == LinkState::Active && connected,
            disconnect: connected,
            already_disconnected: !connected,
        };
        self.state = LinkState::Terminated;
        plan
    }
}

/// Terminating twice never fails: whatever the first call met, the second plans no
/// transport work and reports the link as already disconnected.
pub proof fn lemma_terminate_twice(state: LinkState, first: bool, second: bool)
    ensures
        ({
            let (after, _) = teardown(state, first);
            let (again, plan) = teardown(after, second);
            &&& again == LinkState::Terminated
            &&& plan == (TeardownPlan {
                cancel_dispatcher: false,
                unsubscribe: false,
                disconnect: false,
                already_disconnected: true,
            })
        }),
{
}

/// The payload of the liveness probe.
pub fn probe_payload() -> (r: Vec<u8>)
    ensures
        r@ == encode_utf8(probe_text()),
{
    slice_to_vec("NT_CheckAlive".as_bytes())
}

/// Whether a probe's result shows the peripheral alive: exactly a response `"Ok"`; any
/// failure (timeout, not connected, transport error) or other payload means not alive.
pub fn is_alive_response(response: &Result<String, LinkError>) -> (r: bool)
    ensures
        r == (response matches Ok(p) && p@ == alive_text()),
{
    match response {
        Ok(p) => {
            let alive = String::from_str("Ok");
            *p == alive
        },
        Err(_) => false,
    }
}

} // verus!
