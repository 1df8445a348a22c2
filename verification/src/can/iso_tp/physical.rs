//! A physical request: one message to one ECU, and its response.
use vstd::prelude::*;

use super::frame::{first_frame_bytes, single_capacity, single_frame_bytes};
use super::handler::{Endpoint, IsoTpHandler};
use super::mapper::IdMapper;
use super::receive::{ReceiveStep, ReceiveStepView, Receiving, ResponseReceiver};
use super::send::{MultiFrameSender, SendStep, SendStepView, Sending};
use super::types::{
    clock_in_range,
    Action,
    ActionView,
    Event,
    IsoTpError,
    MAX_SEND_LEN,
    N_AS_TIMEOUT,
    N_CR_TIMEOUT,
};
use crate::can::id::CanId;

verus! {

/// A physical request and its response.
#[derive(Debug)]
pub enum PhysicalExchange {
    /// The request is on its way in a Single Frame.
    Single { resp_id: CanId },
    /// The request is on its way in several frames.
    Multi { resp_id: CanId, sender: MultiFrameSender },
    /// The response is awaited.
    Response { receiver: ResponseReceiver },
}

/// A physical request and its response, with messages as sequences.
#[verifier::ext_equal]
pub enum PhysicalView {
    Single { resp_id: CanId },
    Multi { resp_id: CanId, sender: Sending },
    Response { receiver: Receiving },
}

impl View for PhysicalExchange {
    type V = PhysicalView;

    open spec fn view(&self) -> PhysicalView {
        match self {
            PhysicalExchange::Single { resp_id } => PhysicalView::Single { resp_id: *resp_id },
            PhysicalExchange::Multi { resp_id, sender } => PhysicalView::Multi {
                resp_id: *resp_id,
                sender: sender@,
            },
            PhysicalExchange::Response { receiver } => PhysicalView::Response {
                receiver: receiver@,
            },
        }
    }
}

impl PhysicalView {
    pub open spec fn well_formed(self) -> bool {
        match self {
            PhysicalView::Single { resp_id } => resp_id.valid(),
            PhysicalView::Multi { resp_id, sender } => resp_id.valid() && sender.well_formed(),
            PhysicalView::Response { receiver } => receiver.well_formed(),
        }
    }

    /// `event` is of the kind that the exchange waits for.
    pub open spec fn expects(self, event: Event) -> bool {
        match self {
            PhysicalView::Single { .. } => event is Tx,
            PhysicalView::Multi { sender, .. } => sender.expects(event),
            PhysicalView::Response { receiver } => receiver.expects(event),
        }
    }

    /// The request is out: the response is awaited from `now` on.
    pub open spec fn responding(resp_id: CanId, now: u64) -> (PhysicalView, ReceiveStepView) {
        (
            PhysicalView::Response { receiver: Receiving::starting(resp_id, now) },
            ReceiveStepView::Next(ActionView::Receive { timeout_us: N_CR_TIMEOUT }),
        )
    }

    /// What `event` at `now` does to the exchange.
    pub open spec fn next<M: IdMapper>(self, endpoint: Endpoint<M>, event: Event, now: u64) -> (
        PhysicalView,
        ReceiveStepView,
    ) {
        match self {
            PhysicalView::Single { resp_id } => match event {
                Event::Tx(tx) => match tx.outcome() {
                    Err(e) => (self, ReceiveStepView::Failed(e)),
                    Ok(_) => PhysicalView::responding(resp_id, now),
                },
                _ => (self, ReceiveStepView::Failed(IsoTpError::DriverError)),
            },
            PhysicalView::Multi { resp_id, sender } => {
                let (s, step) = sender.next(endpoint.mode, endpoint.target, event, now);
                match step {
                    SendStepView::Next(action) => (
                        PhysicalView::Multi { resp_id, sender: s },
                        ReceiveStepView::Next(action),
                    ),
                    SendStepView::Failed(e) => (
                        PhysicalView::Multi { resp_id, sender: s },
                        ReceiveStepView::Failed(e),
                    ),
                    SendStepView::Sent => PhysicalView::responding(resp_id, now),
                }
            },
            PhysicalView::Response { receiver } => {
                let (r, step) = receiver.next(endpoint, event, now);
                (PhysicalView::Response { receiver: r }, step)
            },
        }
    }
}

impl<M: IdMapper> Endpoint<M> {
    /// How a physical request of `data` on `target_id` starts: in one frame where it fits one, in
    /// several otherwise. A request without a response identifier, or of more bytes than can be
    /// announced, is refused.
    pub open spec fn physical_start(self, target_id: CanId, data: Seq<u8>) -> Result<
        (PhysicalView, ActionView),
        IsoTpError,
    > {
        match self.mapper.response_id(target_id) {
            Err(e) => Err(e),
            Ok(resp_id) => if data.len() <= single_capacity(self.mode) {
                Ok(
                    (
                        PhysicalView::Single { resp_id },
                        ActionView::Transmit {
                            id: target_id,
                            frame: single_frame_bytes(self.mode, self.target, data),
                            timeout_us: N_AS_TIMEOUT,
                        },
                    ),
                )
            } else if data.len() <= MAX_SEND_LEN {
                Ok(
                    (
                        PhysicalView::Multi {
                            resp_id,
                            sender: Sending::starting(self.mode, target_id, resp_id, data),
                        },
                        ActionView::Transmit {
                            id: target_id,
                            frame: first_frame_bytes(self.mode, self.target, data),
                            timeout_us: N_AS_TIMEOUT,
                        },
                    ),
                )
            } else {
                Err(IsoTpError::BufferOverflow)
            },
        }
    }
}

impl<D, M: IdMapper> IsoTpHandler<D, M> {
    /// Starts a physical request. Returns the exchange and its first action.
    pub fn send_physical_request(&self, target_id: CanId, data: &[u8]) -> (r: Result<
        (PhysicalExchange, Action),
        IsoTpError,
    >)
        requires
            target_id.valid(),
            self.id_mapper().accepts_request(target_id),
        ensures
            match (r, self.endpoint().physical_start(target_id, data@)) {
                (Ok((exchange, action)), Ok((e, a))) => {
                    &&& exchange@ == e
                    &&& action@ == a
                    &&& exchange@.well_formed()
                    &&& forall|event: Event|
                        #[trigger] action@.answered_by(event) ==> exchange@.expects(event)
                },
                (Err(e1), Err(e2)) => e1 == e2,
                _ => false,
            },
    {
        let resp_id = match self.mapper().response_id_for_request(target_id) {
            Ok(id) => id,
            Err(e) => {
                return Err(e);
            },
        };
        if data.len() <= 7 - self.pci_byte_offset() {
            match self.send_single_frame(data) {
                Ok(frame) => Ok(
                    (
                        PhysicalExchange::Single { resp_id },
                        Action::Transmit { id: target_id, frame, timeout_us: N_AS_TIMEOUT },
                    ),
                ),
                Err(e) => Err(e),
            }
        } else {
            match self.send_multi_frame(target_id, resp_id, data) {
                Ok((sender, action)) => Ok((PhysicalExchange::Multi { resp_id, sender }, action)),
                Err(e) => Err(e),
            }
        }
    }

    /// Carries a physical request on with what happened to its last action.
    pub fn continue_physical(&self, exchange: &mut PhysicalExchange, event: Event, now: u64) -> (step:
        ReceiveStep)
        requires
            old(exchange)@.well_formed(),
            old(exchange)@.expects(event),
            clock_in_range(now),
        ensures
            (final(exchange)@, step@) == old(exchange)@.next(self.endpoint(), event, now),
            step is Next ==> final(exchange)@.well_formed(),
            step@ matches ReceiveStepView::Next(action) ==> forall|e: Event|
                #[trigger] action.answered_by(e) ==> final(exchange)@.expects(e),
    {
        let respond_to: CanId;
        match exchange {
            PhysicalExchange::Single { resp_id } => {
                match event {
                    Event::Tx(tx) => match tx.result() {
                        Err(e) => {
                            return ReceiveStep::Failed(e);
                        },
                        Ok(()) => {},
                    },
                    _ => {
                        return ReceiveStep::Failed(IsoTpError::DriverError);
                    },
                }
                respond_to = *resp_id;
            },
            PhysicalExchange::Multi { resp_id, sender } => {
                match self.continue_multi_frame(sender, event, now) {
                    SendStep::Next(action) => {
                        return ReceiveStep::Next(action);
                    },
                    SendStep::Failed(e) => {
                        return ReceiveStep::Failed(e);
                    },
                    SendStep::Sent => {},
                }
                respond_to = *resp_id;
            },
            PhysicalExchange::Response { receiver } => {
                return self.continue_response(receiver, event, now);
            },
        }
        let (receiver, action) = self.receive_response(respond_to, now);
        *exchange = PhysicalExchange::Response { receiver };
        ReceiveStep::Next(action)
    }
}

} // verus!
