//! Receiving the response to a physical request.
use vstd::prelude::*;

use super::handler::{Dispatch, DispatchView, Endpoint, IsoTpHandler};
use super::mapper::IdMapper;
use super::transfer::{Transfer, TransferState};
use super::types::{
    clock_in_range,
    Action,
    ActionView,
    AddressingMode,
    Event,
    IsoTpError,
    PciType,
    RxEvent,
    N_AS_TIMEOUT,
    N_CR_TIMEOUT,
};
use crate::bounded::payload_bytes;
use crate::can::id::CanId;

verus! {

/// Where a reception stands.
#[derive(Clone, Copy, Debug, PartialEq, Eq, Structural)]
pub enum ReceivePhase {
    /// A frame of the response has to come.
    Listening,
    /// The answer to a First Frame is on its way; with `overflow` it refuses the message.
    Answering { overflow: bool },
}

/// The reception of one response.
#[derive(Debug)]
pub struct ResponseReceiver {
    pub state: TransferState,
    /// When the wait for the next frame ends, in microseconds.
    pub deadline: u64,
    pub phase: ReceivePhase,
}

/// The reception of one response, with its bytes as a sequence.
#[verifier::ext_equal]
pub struct Receiving {
    pub state: Transfer,
    pub deadline: u64,
    pub phase: ReceivePhase,
}

impl View for ResponseReceiver {
    type V = Receiving;

    open spec fn view(&self) -> Receiving {
        Receiving { state: self.state@, deadline: self.deadline, phase: self.phase }
    }
}

/// What a reception came to.
#[derive(Debug)]
pub enum ReceiveStep {
    Next(Action),
    /// The whole response.
    Complete(heapless::Vec<u8, 256>),
    Failed(IsoTpError),
}

/// What a reception came to, with frames and response as sequences.
#[verifier::ext_equal]
pub enum ReceiveStepView {
    Next(ActionView),
    Complete(Seq<u8>),
    Failed(IsoTpError),
}

impl View for ReceiveStep {
    type V = ReceiveStepView;

    open spec fn view(&self) -> ReceiveStepView {
        match self {
            ReceiveStep::Next(action) => ReceiveStepView::Next(action@),
            ReceiveStep::Complete(data) => ReceiveStepView::Complete(payload_bytes(*data)),
            ReceiveStep::Failed(e) => ReceiveStepView::Failed(*e),
        }
    }
}

impl Receiving {
    /// A reception from `id` that starts at `now`.
    pub open spec fn starting(id: CanId, now: u64) -> Receiving {
        Receiving {
            state: Transfer::fresh(id),
            deadline: (now + N_CR_TIMEOUT) as u64,
            phase: ReceivePhase::Listening,
        }
    }

    pub open spec fn well_formed(self) -> bool {
        self.state.id.valid() && self.state.well_formed()
    }

    /// `event` is of the kind that the phase waits for.
    pub open spec fn expects(self, event: Event) -> bool {
        match self.phase {
            ReceivePhase::Listening => event is Rx,
            ReceivePhase::Answering { .. } => event is Tx,
        }
    }

    /// Waits for the next frame of the response with the time started over.
    pub open spec fn listen_again(self, now: u64) -> (Receiving, ReceiveStepView) {
        (
            Receiving {
                deadline: (now + N_CR_TIMEOUT) as u64,
                phase: ReceivePhase::Listening,
                ..self
            },
            ReceiveStepView::Next(ActionView::Receive { timeout_us: N_CR_TIMEOUT }),
        )
    }

    /// Waits on until the deadline, which may have passed.
    pub open spec fn keep(self, now: u64) -> ReceiveStepView {
        if now >= self.deadline {
            ReceiveStepView::Failed(IsoTpError::TimeoutCr)
        } else {
            ReceiveStepView::Next(
                ActionView::Receive { timeout_us: (self.deadline - now) as u64 },
            )
        }
    }

    /// The frame is a Consecutive Frame, and no First Frame came before it.
    pub open spec fn out_of_turn(self, mode: AddressingMode, data: Seq<u8>) -> bool {
        &&& self.state.rx_dl == 0
        &&& data.len() > mode.pci_index()
        &&& PciType::of_pci_byte(data[mode.pci_index()]) == Some(PciType::ConsecutiveFrame)
    }

    /// What `event` at `now` does to the reception. It waits for a Single Frame or a First Frame
    /// and, after a First Frame, for the frames that follow. Every frame that is taken starts the
    /// time over. Frames from other identifiers, frames out of turn, and frames that are ignored
    /// change nothing.
    pub open spec fn next<M: IdMapper>(self, endpoint: Endpoint<M>, event: Event, now: u64) -> (
        Receiving,
        ReceiveStepView,
    ) {
        match (self.phase, event) {
            (ReceivePhase::Listening, Event::Rx(RxEvent::TimedOut)) => (
                self,
                ReceiveStepView::Failed(IsoTpError::TimeoutCr),
            ),
            (ReceivePhase::Listening, Event::Rx(RxEvent::Failed)) => (
                self,
                ReceiveStepView::Failed(IsoTpError::DriverError),
            ),
            (ReceivePhase::Listening, Event::Rx(RxEvent::Frame { id, data })) => if id
                != self.state.id || self.out_of_turn(endpoint.mode, data@) {
                (self, self.keep(now))
            } else {
                let (state, outcome) = endpoint.dispatch(self.state, id, data@);
                let s = Receiving { state, ..self };
                match outcome {
                    DispatchView::Complete => (
                        Receiving { state: state.emptied(), ..self },
                        ReceiveStepView::Complete(state.buffer),
                    ),
                    DispatchView::Ignored => (self, self.keep(now)),
                    DispatchView::Incomplete => s.listen_again(now),
                    DispatchView::Failed(e) => (s, ReceiveStepView::Failed(e)),
                    DispatchView::Answer { id: fc_id, frame, overflow } => (
                        Receiving { phase: ReceivePhase::Answering { overflow }, ..s },
                        ReceiveStepView::Next(
                            ActionView::Transmit { id: fc_id, frame, timeout_us: N_AS_TIMEOUT },
                        ),
                    ),
                }
            },
            (ReceivePhase::Answering { overflow }, Event::Tx(tx)) => match tx.outcome() {
                Err(e) => (self, ReceiveStepView::Failed(e)),
                Ok(_) => if overflow {
                    (self, ReceiveStepView::Failed(IsoTpError::BufferOverflow))
                } else {
                    self.listen_again(now)
                },
            },
            _ => (self, ReceiveStepView::Failed(IsoTpError::DriverError)),
        }
    }
}

/// A transfer whose message goes on stays well-formed.
pub proof fn lemma_dispatch_well_formed<M: IdMapper>(
    endpoint: Endpoint<M>,
    t: Transfer,
    id: CanId,
    data: Seq<u8>,
)
    requires
        t.well_formed(),
    ensures
        endpoint.dispatch(t, id, data).0.id == t.id,
        endpoint.dispatch(t, id, data).0.last_frame_at == t.last_frame_at,
        endpoint.dispatch(t, id, data).1 is Ignored ==> endpoint.dispatch(t, id, data).0 == t,
        endpoint.dispatch(t, id, data).1 is Incomplete || endpoint.dispatch(t, id, data).1
            is Answer ==> endpoint.dispatch(t, id, data).0.well_formed(),
        endpoint.dispatch(t, id, data).0.buffer.len() <= 256,
{
}

impl ResponseReceiver {
    fn keep_listening(&self, now: u64) -> (step: ReceiveStep)
        ensures
            step@ == self@.keep(now),
    {
        if now >= self.deadline {
            return ReceiveStep::Failed(IsoTpError::TimeoutCr);
        }
        ReceiveStep::Next(Action::Receive { timeout_us: self.deadline - now })
    }

    fn listen(&mut self, now: u64) -> (step: ReceiveStep)
        requires
            clock_in_range(now),
        ensures
            (final(self)@, step@) == old(self)@.listen_again(now),
    {
        self.deadline = now + N_CR_TIMEOUT;
        self.phase = ReceivePhase::Listening;
        ReceiveStep::Next(Action::Receive { timeout_us: N_CR_TIMEOUT })
    }
}

impl<D, M: IdMapper> IsoTpHandler<D, M> {
    /// Starts the reception of a response from `target_id`. Returns it and the first wait.
    pub fn receive_response(&self, target_id: CanId, now: u64) -> (r: (ResponseReceiver, Action))
        requires
            target_id.valid(),
            clock_in_range(now),
        ensures
            r.0@ == Receiving::starting(target_id, now),
            r.0@.well_formed(),
            r.1@ == (ActionView::Receive { timeout_us: N_CR_TIMEOUT }),
    {
        let receiver = ResponseReceiver {
            state: TransferState::new(target_id),
            deadline: now + N_CR_TIMEOUT,
            phase: ReceivePhase::Listening,
        };
        (receiver, Action::Receive { timeout_us: N_CR_TIMEOUT })
    }

    /// Whether the frame is a Consecutive Frame that no First Frame came before.
    fn is_out_of_turn(&self, receiver: &ResponseReceiver, data: &[u8]) -> (r: bool)
        ensures
            r == receiver@.out_of_turn(self.mode(), data@),
    {
        let o: usize = self.pci_byte_offset();
        if receiver.state.rx_dl != 0 || data.len() <= o {
            return false;
        }
        match PciType::from_pci_byte(data[o]) {
            Some(PciType::ConsecutiveFrame) => true,
            _ => false,
        }
    }

    /// Carries a reception on with what happened to its last action. Until a Single Frame or a
    /// First Frame has come, no other frame counts; after a First Frame the frames that continue
    /// the message do.
    pub fn continue_response(&self, receiver: &mut ResponseReceiver, event: Event, now: u64) -> (step:
        ReceiveStep)
        requires
            old(receiver)@.well_formed(),
            old(receiver)@.expects(event),
            clock_in_range(now),
        ensures
            (final(receiver)@, step@) == old(receiver)@.next(self.endpoint(), event, now),
            step is Next ==> final(receiver)@.well_formed(),
            step@ matches ReceiveStepView::Next(action) ==> forall|e: Event|
                #[trigger] action.answered_by(e) ==> final(receiver)@.expects(e),
    {
        match (receiver.phase, event) {
            (ReceivePhase::Listening, Event::Rx(RxEvent::TimedOut)) => ReceiveStep::Failed(
                IsoTpError::TimeoutCr,
            ),
            (ReceivePhase::Listening, Event::Rx(RxEvent::Failed)) => ReceiveStep::Failed(
                IsoTpError::DriverError,
            ),
            (ReceivePhase::Listening, Event::Rx(RxEvent::Frame { id, data })) => {
                if id != receiver.state.id || self.is_out_of_turn(receiver, data) {
                    return receiver.keep_listening(now);
                }
                proof {
                    lemma_dispatch_well_formed(self.endpoint(), receiver.state@, id, data@);
                }
                match self.dispatch_frame(&mut receiver.state, id, data) {
                    Dispatch::Complete => ReceiveStep::Complete(receiver.state.take_message()),
                    Dispatch::Ignored => receiver.keep_listening(now),
                    Dispatch::Incomplete => receiver.listen(now),
                    Dispatch::Failed(e) => ReceiveStep::Failed(e),
                    Dispatch::Answer { id: fc_id, frame, overflow } => {
                        receiver.phase = ReceivePhase::Answering { overflow };
                        ReceiveStep::Next(
                            Action::Transmit { id: fc_id, frame, timeout_us: N_AS_TIMEOUT },
                        )
                    },
                }
            },
            (ReceivePhase::Answering { overflow }, Event::Tx(tx)) => match tx.result() {
                Err(e) => ReceiveStep::Failed(e),
                Ok(()) => {
                    if overflow {
                        return ReceiveStep::Failed(IsoTpError::BufferOverflow);
                    }
                    receiver.listen(now)
                },
            },
            _ => ReceiveStep::Failed(IsoTpError::DriverError),
        }
    }
}

} // verus!
