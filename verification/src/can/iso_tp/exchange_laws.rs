//! Laws of the steps of an exchange: what is sent next, for how long is waited, and how it ends.
use vstd::prelude::*;

use super::frame::{single_capacity, single_frame_bytes};
use super::functional::{FunctionalExchange, FunctionalStep, FunctionalStepView};
use super::handler::{DispatchView, Endpoint};
use super::laws::{
    arrival,
    ends_sent,
    law_completed_transmission_is_the_message,
    law_multi_frame_answer_is_returned,
    law_single_frame_round_trip,
    reception_after,
    segment,
    segment_count,
    segments,
    transmitted,
    whole_transmission,
};
use super::mapper::{IdMapper, Obd2IdMapper};
use super::physical::{PhysicalExchange, PhysicalView};
use super::receive::{ReceivePhase, ReceiveStep, ReceiveStepView, Receiving, ResponseReceiver};
use super::send::{
    FlowControlWait,
    FlowStep,
    MultiFrameSender,
    SendPhase,
    SendStep,
    SendStepView,
    Sending,
};
use super::transfer::EcuResponse;
use super::types::{
    clock_in_range,
    Action,
    ActionView,
    AddressingMode,
    Event,
    IsoTpError,
    RxEvent,
    TxEvent,
};
use super::wire_laws::{law_first_frame_bytes, law_separation_times, law_single_frame_bytes};
use crate::bounded::{payload_bytes, response_list, transfer_list};
use crate::can::id::CanId;

verus! {

/// Actions are what their fields say, and each is answered by events of one kind.
pub proof fn law_values_of_actions(id: CanId, frame: [u8; 8], us: u64, event: Event)
    ensures
        ({
            let transmit = (Action::Transmit { id, frame, timeout_us: us })@;
            let receive = (Action::Receive { timeout_us: us })@;
            let pause = (Action::Pause { duration_us: us })@;
            &&& transmit == (ActionView::Transmit { id, frame: frame@, timeout_us: us })
            &&& receive == (ActionView::Receive { timeout_us: us })
            &&& pause == (ActionView::Pause { duration_us: us })
            &&& transmit.answered_by(event) <==> event is Tx
            &&& receive.answered_by(event) <==> event is Rx
            &&& pause.answered_by(event) <==> event is Elapsed
        }),
{
}

/// Every time is accepted but the last second of the clock's range.
pub proof fn law_times_accepted(now: u64)
    ensures
        clock_in_range(now) <==> now + 1_000_000 <= u64::MAX,
{
}

/// A wait for Flow Control starts without WAIT frames and lasts one second.
pub proof fn law_flow_control_wait_starts(now: u64)
    requires
        clock_in_range(now),
    ensures
        FlowControlWait::starting(now).wft_count == 0,
        FlowControlWait::starting(now).deadline == now + 1_000_000,
{
}

/// How a Flow Control from the receiver is read: ContinueToSend grants what its two bytes say, the
/// tenth WAIT is one too many and each before it starts the second over, Overflow and a reserved
/// status fail.
pub proof fn law_flow_control_is_read(
    w: FlowControlWait,
    mode: AddressingMode,
    fc_id: CanId,
    data: &[u8],
    now: u64,
)
    requires
        w.wft_count < 10,
        clock_in_range(now),
        data@.len() >= (if mode == AddressingMode::Normal {
            3int
        } else {
            4int
        }),
    ensures
        ({
            let o = if mode == AddressingMode::Normal {
                0int
            } else {
                1int
            };
            let pci = data@[o];
            let (after, step) = w.next(mode, fc_id, RxEvent::Frame { id: fc_id, data }, now);
            &&& pci == 0x30 ==> step == FlowStep::Granted {
                bs: data@[o + 1],
                st_min: data@[o + 2],
            }
            &&& pci == 0x31 && w.wft_count < 9 ==> {
                &&& step == FlowStep::Keep { timeout_us: 1_000_000 }
                &&& after.wft_count == w.wft_count + 1
                &&& after.deadline == now + 1_000_000
            }
            &&& pci == 0x31 && w.wft_count == 9 ==> step == FlowStep::Failed(
                IsoTpError::WftOverrun,
            )
            &&& pci == 0x32 ==> step == FlowStep::Failed(IsoTpError::BufferOverflow)
            &&& 0x33 <= pci <= 0x3F ==> step == FlowStep::Failed(IsoTpError::InvalidFs)
        }),
{
}

/// A wait for Flow Control ends with `TimeoutBs` when its time is up, with `DriverError` where the
/// driver fails. A frame of another sender, of another kind or cut short leaves it as it is, with
/// the time that is left.
pub proof fn law_flow_control_is_waited_for(
    w: FlowControlWait,
    mode: AddressingMode,
    fc_id: CanId,
    id: CanId,
    data: &[u8],
    now: u64,
)
    ensures
        ({
            let o = if mode == AddressingMode::Normal {
                0int
            } else {
                1int
            };
            let other = id != fc_id || data@.len() < o + 3 || data@[o] < 0x30 || data@[o] > 0x3F;
            let (after, step) = w.next(mode, fc_id, RxEvent::Frame { id, data }, now);
            &&& w.next(mode, fc_id, RxEvent::TimedOut, now).1 == FlowStep::Failed(
                IsoTpError::TimeoutBs,
            )
            &&& w.next(mode, fc_id, RxEvent::Failed, now).1 == FlowStep::Failed(
                IsoTpError::DriverError,
            )
            &&& other ==> after == w
            &&& other && now >= w.deadline ==> step == FlowStep::Failed(IsoTpError::TimeoutBs)
            &&& other && now < w.deadline ==> (step matches FlowStep::Keep { timeout_us } && now
                + timeout_us == w.deadline)
        }),
{
}

/// A transmission starts behind the bytes of its First Frame, with number 1 and nothing granted.
pub proof fn law_transmission_starts(
    mode: AddressingMode,
    tx_id: CanId,
    fc_id: CanId,
    data: Seq<u8>,
)
    ensures
        ({
            let s = Sending::starting(mode, tx_id, fc_id, data);
            &&& s.data == data && s.mode == mode && s.tx_id == tx_id && s.fc_id == fc_id
            &&& s.offset == (if mode == AddressingMode::Normal {
                6int
            } else {
                5int
            })
            &&& s.sn == 1 && s.block_count == 0 && s.bs == 0 && s.gap_us == 0
            &&& s.phase == SendPhase::SendingFirst
        }),
{
}

/// Once its First Frame is out, a transmission waits one second for the first grant; the rest of
/// it stays.
pub proof fn law_first_frame_is_out(s: Sending, mode: AddressingMode, target: u8, now: u64)
    requires
        s.phase is SendingFirst,
        clock_in_range(now),
    ensures
        ({
            let (after, step) = s.next(mode, target, Event::Tx(TxEvent::Sent), now);
            let wait = FlowControlWait { wft_count: 0, deadline: (now + 1_000_000) as u64 };
            &&& step == SendStepView::Next(ActionView::Receive { timeout_us: 1_000_000 })
            &&& after == (Sending { phase: SendPhase::AwaitingFirstGrant(wait), ..s })
        }),
{
}

/// The next Consecutive Frame of a transmission: on the request's identifier, within five seconds,
/// with the number and the bytes that come next.
pub open spec fn sends_next_piece(s: Sending, target: u8, step: SendStepView) -> bool {
    let o = if s.mode == AddressingMode::Normal {
        0int
    } else {
        1int
    };
    match step {
        SendStepView::Next(ActionView::Transmit { id, frame, timeout_us }) => {
            &&& id == s.tx_id
            &&& timeout_us == 5_000_000
            &&& frame.len() == 8
            &&& o == 1 ==> frame[0] == target
            &&& frame[o] == 0x20 + s.sn
            &&& forall|j: int|
                s.offset <= j < s.offset + 7 - o && j < s.data.len() ==> frame[o + 1 + j - s.offset]
                    == #[trigger] s.data[j]
            &&& forall|i: int|
                o + 1 + s.data.len() - s.offset <= i < 8 ==> #[trigger] frame[i] == 0xCC
        },
        _ => false,
    }
}

/// The first grant is followed at once by a Consecutive Frame, each later one by a pause. The block
/// starts over with the granted size and separation time.
pub proof fn law_grant_starts_a_block(
    s: Sending,
    mode: AddressingMode,
    target: u8,
    data: &[u8],
    now: u64,
)
    requires
        s.phase is AwaitingFirstGrant || s.phase is AwaitingGrant,
        0 <= s.offset < s.data.len(),
        s.sn < 16,
        data@.len() >= (if mode == AddressingMode::Normal {
            3int
        } else {
            4int
        }),
        data@[if mode == AddressingMode::Normal {
            0int
        } else {
            1int
        }] == 0x30,
    ensures
        ({
            let o = if mode == AddressingMode::Normal {
                0int
            } else {
                1int
            };
            let bs = data@[o + 1];
            let st_min = data@[o + 2];
            let grant = Event::Rx(RxEvent::Frame { id: s.fc_id, data });
            let (after, step) = s.next(mode, target, grant, now);
            &&& after.data == s.data && after.mode == s.mode
            &&& after.tx_id == s.tx_id && after.fc_id == s.fc_id
            &&& after.offset == s.offset && after.sn == s.sn
            &&& after.bs == bs && after.block_count == 0
            &&& st_min <= 127 ==> after.gap_us == 1000 * st_min
            &&& 241 <= st_min <= 249 ==> after.gap_us == 100 * (st_min - 240)
            &&& 128 <= st_min <= 240 || st_min >= 250 ==> after.gap_us == 127_000
            &&& s.phase is AwaitingFirstGrant ==> {
                &&& after.phase == SendPhase::SendingConsecutive
                &&& sends_next_piece(s, target, step)
            }
            &&& s.phase is AwaitingGrant ==> {
                &&& after.phase == SendPhase::Pausing
                &&& step == SendStepView::Next(ActionView::Pause { duration_us: after.gap_us })
            }
        }),
{
    let o = mode.pci_index();
    law_separation_times(data@[o + 2]);
}

/// A pause is followed by the next Consecutive Frame; nothing else of the transmission changes.
pub proof fn law_pause_is_followed_by_a_frame(
    s: Sending,
    mode: AddressingMode,
    target: u8,
    now: u64,
)
    requires
        s.phase is Pausing,
        0 <= s.offset < s.data.len(),
        s.sn < 16,
    ensures
        ({
            let (after, step) = s.next(mode, target, Event::Elapsed, now);
            &&& sends_next_piece(s, target, step)
            &&& after == (Sending { phase: SendPhase::SendingConsecutive, ..s })
        }),
{
}

/// Once a Consecutive Frame is out the transmission ends where all bytes are; waits one second for
/// a grant where the block is full; and pauses for the separation time otherwise. The next frame
/// carries the next number and starts behind the bytes that are out.
pub proof fn law_consecutive_frame_is_out(s: Sending, mode: AddressingMode, target: u8, now: u64)
    requires
        s.phase is SendingConsecutive,
        s.sn < 16,
        s.bs > 0 ==> s.block_count < s.bs,
        clock_in_range(now),
    ensures
        ({
            let room = if s.mode == AddressingMode::Normal {
                7int
            } else {
                6int
            };
            let (after, step) = s.next(mode, target, Event::Tx(TxEvent::Sent), now);
            let wait = FlowControlWait { wft_count: 0, deadline: (now + 1_000_000) as u64 };
            &&& after.data == s.data && after.mode == s.mode
            &&& after.tx_id == s.tx_id && after.fc_id == s.fc_id
            &&& after.bs == s.bs && after.gap_us == s.gap_us
            &&& after.offset == s.offset + room
            &&& after.sn == (s.sn + 1) % 16
            &&& s.bs == 0 ==> after.block_count == 0
            &&& s.bs > 0 ==> after.block_count == s.block_count + 1
            &&& if s.offset + room >= s.data.len() {
                step == SendStepView::Sent
            } else if s.bs > 0 && s.block_count + 1 == s.bs {
                &&& step == SendStepView::Next(ActionView::Receive { timeout_us: 1_000_000 })
                &&& after.phase == SendPhase::AwaitingGrant(wait)
            } else {
                &&& step == SendStepView::Next(ActionView::Pause { duration_us: s.gap_us })
                &&& after.phase == SendPhase::Pausing
            }
        }),
{
}

/// How a transmission fails: with `TimeoutA` or `DriverError` where a frame does not go out, with
/// the error of its wait where no grant comes. While a wait goes on, so does the transmission, and
/// only its wait changes.
pub proof fn law_transmission_fails(
    s: Sending,
    w: FlowControlWait,
    mode: AddressingMode,
    target: u8,
    event: RxEvent,
    now: u64,
)
    ensures
        s.phase is SendingFirst || s.phase is SendingConsecutive ==> {
            &&& s.next(mode, target, Event::Tx(TxEvent::TimedOut), now).1 == SendStepView::Failed(
                IsoTpError::TimeoutA,
            )
            &&& s.next(mode, target, Event::Tx(TxEvent::Failed), now).1 == SendStepView::Failed(
                IsoTpError::DriverError,
            )
        },
        s.phase == SendPhase::AwaitingFirstGrant(w) || s.phase == SendPhase::AwaitingGrant(w) ==> {
            let (waited, waiting) = w.next(mode, s.fc_id, event, now);
            let (after, step) = s.next(mode, target, Event::Rx(event), now);
            match waiting {
                FlowStep::Failed(e) => step == SendStepView::Failed(e),
                FlowStep::Keep { timeout_us } => {
                    &&& step == SendStepView::Next(ActionView::Receive { timeout_us })
                    &&& after.phase == if s.phase is AwaitingFirstGrant {
                        SendPhase::AwaitingFirstGrant(waited)
                    } else {
                        SendPhase::AwaitingGrant(waited)
                    }
                    &&& after == (Sending { phase: after.phase, ..s })
                },
                FlowStep::Granted { .. } => true,
            }
        },
{
}

/// A reception starts with nothing taken from its sender, and waits one second.
pub proof fn law_reception_starts(id: CanId, now: u64)
    requires
        clock_in_range(now),
    ensures
        ({
            let r = Receiving::starting(id, now);
            &&& r.state.id == id && r.state.rx_dl == 0 && r.state.next_sn == 1
            &&& r.state.buffer.len() == 0 && r.state.last_frame_at is None
            &&& r.deadline == now + 1_000_000
            &&& r.phase == ReceivePhase::Listening
        }),
{
}

/// A reception ends with `TimeoutCr` when its time is up, with `DriverError` where the driver
/// fails. A frame of another sender leaves it as it is, with the time that is left.
pub proof fn law_reception_is_waited_for<M: IdMapper>(
    r: Receiving,
    endpoint: Endpoint<M>,
    id: CanId,
    data: &[u8],
    now: u64,
)
    requires
        r.phase is Listening,
    ensures
        ({
            let (after, step) = r.next(endpoint, Event::Rx(RxEvent::Frame { id, data }), now);
            &&& r.next(endpoint, Event::Rx(RxEvent::TimedOut), now).1 == ReceiveStepView::Failed(
                IsoTpError::TimeoutCr,
            )
            &&& r.next(endpoint, Event::Rx(RxEvent::Failed), now).1 == ReceiveStepView::Failed(
                IsoTpError::DriverError,
            )
            &&& id != r.state.id ==> after == r
            &&& id != r.state.id && now >= r.deadline ==> step == ReceiveStepView::Failed(
                IsoTpError::TimeoutCr,
            )
            &&& id != r.state.id && now < r.deadline ==> (step matches ReceiveStepView::Next(
                ActionView::Receive { timeout_us },
            ) && now + timeout_us == r.deadline)
        }),
{
}

/// What a frame of the sender does to a reception: one that is ignored leaves it as it is, with the
/// time that is left; one that is taken starts the second over; one that completes the message ends
/// the reception with all of it; an answer goes out within five seconds. Without a First Frame a
/// Consecutive Frame is ignored.
pub proof fn law_frame_of_a_reception<M: IdMapper>(
    r: Receiving,
    endpoint: Endpoint<M>,
    data: &[u8],
    now: u64,
)
    requires
        r.phase is Listening,
        r.state.well_formed(),
        clock_in_range(now),
    ensures
        ({
            let o = if endpoint.mode == AddressingMode::Normal {
                0int
            } else {
                1int
            };
            let stray = r.state.rx_dl == 0 && data@.len() > o && 0x20 <= data@[o] <= 0x2F;
            let (t, outcome) = endpoint.dispatch(r.state, r.state.id, data@);
            let event = Event::Rx(RxEvent::Frame { id: r.state.id, data });
            let (after, step) = r.next(endpoint, event, now);
            if stray || outcome is Ignored {
                &&& after == r
                &&& now >= r.deadline ==> step == ReceiveStepView::Failed(IsoTpError::TimeoutCr)
                &&& now < r.deadline ==> (step matches ReceiveStepView::Next(
                    ActionView::Receive { timeout_us },
                ) && now + timeout_us == r.deadline)
            } else {
                match outcome {
                    DispatchView::Ignored => true,
                    DispatchView::Incomplete => {
                        &&& step == ReceiveStepView::Next(
                            ActionView::Receive { timeout_us: 1_000_000 },
                        )
                        &&& after.state == t
                        &&& after.deadline == now + 1_000_000
                        &&& after.phase == ReceivePhase::Listening
                    },
                    DispatchView::Complete => step == ReceiveStepView::Complete(t.buffer),
                    DispatchView::Failed(e) => step == ReceiveStepView::Failed(e),
                    DispatchView::Answer { id, frame, overflow } => {
                        &&& step == ReceiveStepView::Next(
                            ActionView::Transmit { id, frame, timeout_us: 5_000_000 },
                        )
                        &&& after.state == t
                        &&& after.phase == (ReceivePhase::Answering { overflow })
                    },
                }
            }
        }),
{
}

/// Once the answer to a First Frame is out the reception goes on for a second more, or fails with
/// `BufferOverflow` where the answer refused the message. It fails where the answer does not go out.
pub proof fn law_answer_of_a_reception<M: IdMapper>(
    r: Receiving,
    endpoint: Endpoint<M>,
    overflow: bool,
    now: u64,
)
    requires
        r.phase == (ReceivePhase::Answering { overflow }),
        clock_in_range(now),
    ensures
        ({
            let (after, step) = r.next(endpoint, Event::Tx(TxEvent::Sent), now);
            &&& overflow ==> step == ReceiveStepView::Failed(IsoTpError::BufferOverflow)
            &&& !overflow ==> {
                &&& step == ReceiveStepView::Next(ActionView::Receive { timeout_us: 1_000_000 })
                &&& after.state == r.state
                &&& after.deadline == now + 1_000_000
                &&& after.phase == ReceivePhase::Listening
            }
            &&& r.next(endpoint, Event::Tx(TxEvent::TimedOut), now).1 == ReceiveStepView::Failed(
                IsoTpError::TimeoutA,
            )
            &&& r.next(endpoint, Event::Tx(TxEvent::Failed), now).1 == ReceiveStepView::Failed(
                IsoTpError::DriverError,
            )
        }),
{
}

/// How a physical request starts: in one frame up to 7 bytes in Normal mode and 6 in Extended mode,
/// with a First Frame up to 4095 bytes, and not at all beyond; each on the request's identifier and
/// within five seconds.
pub proof fn law_physical_request_starts<M: IdMapper>(
    endpoint: Endpoint<M>,
    target_id: CanId,
    data: Seq<u8>,
    resp_id: CanId,
)
    requires
        endpoint.mapper.response_id(target_id) == Ok::<CanId, IsoTpError>(resp_id),
    ensures
        ({
            let o = if endpoint.mode == AddressingMode::Normal {
                0int
            } else {
                1int
            };
            match endpoint.physical_start(target_id, data) {
                Ok((exchange, ActionView::Transmit { id, frame, timeout_us })) => {
                    &&& data.len() <= 4095
                    &&& id == target_id
                    &&& timeout_us == 5_000_000
                    &&& frame.len() == 8
                    &&& o == 1 ==> frame[0] == endpoint.target
                    &&& data.len() <= 7 - o ==> {
                        &&& frame[o] == data.len()
                        &&& forall|i: int|
                            0 <= i < data.len() ==> frame[o + 1 + i] == #[trigger] data[i]
                        &&& exchange == (PhysicalView::Single { resp_id })
                    }
                    &&& data.len() > 7 - o ==> {
                        &&& frame[o] / 16 == 1
                        &&& (frame[o] % 16) * 256 + frame[o + 1] == data.len()
                        &&& forall|i: int|
                            0 <= i < 6 - o ==> frame[o + 2 + i] == #[trigger] data[i]
                        &&& exchange == (PhysicalView::Multi {
                            resp_id,
                            sender: Sending::starting(endpoint.mode, target_id, resp_id, data),
                        })
                    }
                },
                Ok(_) => false,
                Err(e) => data.len() > 4095 && e == IsoTpError::BufferOverflow,
            }
        }),
{
    if data.len() <= single_capacity(endpoint.mode) {
        law_single_frame_bytes(endpoint.mode, endpoint.target, data);
    } else if data.len() <= 4095 {
        law_first_frame_bytes(endpoint.mode, endpoint.target, data);
    }
}

/// A request whose identifier has no answer is refused with the error of the identifier rules.
pub proof fn law_unanswerable_request_is_refused<M: IdMapper>(
    endpoint: Endpoint<M>,
    target_id: CanId,
    data: Seq<u8>,
    e: IsoTpError,
)
    requires
        endpoint.mapper.response_id(target_id) == Err::<CanId, IsoTpError>(e),
    ensures
        endpoint.physical_start(target_id, data) == Err::<(PhysicalView, ActionView), IsoTpError>(
            e,
        ),
{
}

/// How a physical request fails before its response is awaited: with `TimeoutA` or `DriverError`
/// where its only frame does not go out, with the error of the transmission where it has several.
pub proof fn law_physical_request_fails<M: IdMapper>(
    endpoint: Endpoint<M>,
    resp_id: CanId,
    sender: Sending,
    event: Event,
    now: u64,
)
    ensures
        ({
            let single = PhysicalView::Single { resp_id };
            let multi = PhysicalView::Multi { resp_id, sender };
            let (s, sending) = sender.next(endpoint.mode, endpoint.target, event, now);
            let (after, step) = multi.next(endpoint, event, now);
            &&& single.next(endpoint, Event::Tx(TxEvent::TimedOut), now).1
                == ReceiveStepView::Failed(IsoTpError::TimeoutA)
            &&& single.next(endpoint, Event::Tx(TxEvent::Failed), now).1
                == ReceiveStepView::Failed(IsoTpError::DriverError)
            &&& match sending {
                SendStepView::Failed(e) => step == ReceiveStepView::Failed(e),
                SendStepView::Next(action) => {
                    &&& step == ReceiveStepView::Next(action)
                    &&& after == (PhysicalView::Multi { resp_id, sender: s })
                },
                SendStepView::Sent => step == ReceiveStepView::Next(
                    ActionView::Receive { timeout_us: 1_000_000 },
                ),
            }
        }),
{
}

/// A physical exchange once `inputs`, each an event and its time, have happened.
pub open spec fn exchange_after<M: IdMapper>(
    p: PhysicalView,
    endpoint: Endpoint<M>,
    inputs: Seq<(Event, u64)>,
) -> PhysicalView
    decreases inputs.len(),
{
    if inputs.len() == 0 {
        p
    } else {
        exchange_after(
            p.next(endpoint, inputs[0].0, inputs[0].1).0,
            endpoint,
            inputs.skip(1),
        )
    }
}

/// The last of `inputs` is the one with which the transmission ends well.
pub open spec fn sent_with_last(
    s: Sending,
    mode: AddressingMode,
    target: u8,
    inputs: Seq<(Event, u64)>,
) -> bool {
    &&& inputs.len() > 0
    &&& ends_sent(s, mode, target, inputs)
    &&& !ends_sent(s, mode, target, inputs.drop_last())
}

proof fn lemma_request_out<M: IdMapper>(
    endpoint: Endpoint<M>,
    resp_id: CanId,
    s: Sending,
    inputs: Seq<(Event, u64)>,
)
    requires
        sent_with_last(s, endpoint.mode, endpoint.target, inputs),
    ensures
        exchange_after(PhysicalView::Multi { resp_id, sender: s }, endpoint, inputs)
            == (PhysicalView::Response { receiver: Receiving::starting(resp_id, inputs.last().1) }),
    decreases inputs.len(),
{
    let p = PhysicalView::Multi { resp_id, sender: s };
    let (after, step) = s.next(endpoint.mode, endpoint.target, inputs[0].0, inputs[0].1);
    let rest = inputs.skip(1);
    let before = inputs.drop_last();
    match step {
        SendStepView::Next(_) => {
            assert(ends_sent(after, endpoint.mode, endpoint.target, rest));
            if before.len() > 0 {
                assert(before[0] == inputs[0]);
                assert(before.skip(1) == rest.drop_last());
            } else {
                assert(rest.len() == 0);
            }
            lemma_request_out(endpoint, resp_id, after, rest);
            assert(rest.last() == inputs.last());
        },
        SendStepView::Sent => {
            if before.len() > 0 {
                assert(before[0] == inputs[0]);
            }
            assert(inputs.len() == 1);
            assert(rest.len() == 0);
            assert(exchange_after(p.next(endpoint, inputs[0].0, inputs[0].1).0, endpoint, rest)
                == p.next(endpoint, inputs[0].0, inputs[0].1).0);
        },
        SendStepView::Failed(_) => {},
    }
}

proof fn lemma_exchange_after_both<M: IdMapper>(
    p: PhysicalView,
    endpoint: Endpoint<M>,
    first: Seq<(Event, u64)>,
    second: Seq<(Event, u64)>,
)
    ensures
        exchange_after(p, endpoint, first + second) == exchange_after(
            exchange_after(p, endpoint, first),
            endpoint,
            second,
        ),
    decreases first.len(),
{
    if first.len() == 0 {
        assert(first + second == second);
    } else {
        assert((first + second)[0] == first[0]);
        assert((first + second).skip(1) == first.skip(1) + second);
        lemma_exchange_after_both(
            p.next(endpoint, first[0].0, first[0].1).0,
            endpoint,
            first.skip(1),
            second,
        );
    }
}

proof fn lemma_exchange_is_reception<M: IdMapper>(
    r: Receiving,
    endpoint: Endpoint<M>,
    inputs: Seq<(Event, u64)>,
    n: int,
)
    requires
        0 <= n <= inputs.len(),
    ensures
        exchange_after(PhysicalView::Response { receiver: r }, endpoint, inputs.take(n))
            == (PhysicalView::Response { receiver: reception_after(r, endpoint, inputs, n).0 }),
    decreases n,
{
    let p = PhysicalView::Response { receiver: r };
    if n > 0 {
        lemma_exchange_is_reception(r, endpoint, inputs, n - 1);
        let last = inputs.take(n).skip(n - 1);
        assert(inputs.take(n) == inputs.take(n - 1) + last);
        lemma_exchange_after_both(p, endpoint, inputs.take(n - 1), last);
        assert(last.len() == 1 && last[0] == inputs[n - 1]);
        reveal_with_fuel(exchange_after, 2);
    }
}

/// A request of several frames, whatever is granted and whenever: once its last frame is out, a
/// message in one frame from the identifier that answers the request completes the exchange with
/// that message.
pub proof fn law_long_request_gets_short_answer<M: IdMapper>(
    endpoint: Endpoint<M>,
    target_id: CanId,
    resp_id: CanId,
    data: Seq<u8>,
    inputs: Seq<(Event, u64)>,
    target: u8,
    message: Seq<u8>,
    frame: &[u8],
    now: u64,
)
    requires
        single_capacity(endpoint.mode) < data.len() <= 4095,
        endpoint.mapper.response_id(target_id) == Ok::<CanId, IsoTpError>(resp_id),
        sent_with_last(
            Sending::starting(endpoint.mode, target_id, resp_id, data),
            endpoint.mode,
            endpoint.target,
            inputs,
        ),
        1 <= message.len() <= single_capacity(endpoint.mode),
        frame@ == single_frame_bytes(endpoint.mode, target, message),
    ensures
        ({
            let (start, _) = endpoint.physical_start(target_id, data)->Ok_0;
            let waiting = exchange_after(start, endpoint, inputs);
            let answer = Event::Rx(RxEvent::Frame { id: resp_id, data: frame });
            &&& endpoint.physical_start(target_id, data) is Ok
            &&& waiting.next(endpoint, answer, now).1 == ReceiveStepView::Complete(message)
        }),
{
    lemma_request_out(
        endpoint,
        resp_id,
        Sending::starting(endpoint.mode, target_id, resp_id, data),
        inputs,
    );
    law_single_frame_round_trip(endpoint, resp_id, target, message);
}

/// The same where the answer comes in several frames: each in its turn from the identifier that
/// answers the request, the answer to the first one sent. The last of them completes the exchange
/// with the message.
pub proof fn law_long_request_gets_long_answer<M: IdMapper>(
    endpoint: Endpoint<M>,
    target_id: CanId,
    resp_id: CanId,
    data: Seq<u8>,
    inputs: Seq<(Event, u64)>,
    target: u8,
    message: Seq<u8>,
    answers: Seq<(Event, u64)>,
)
    requires
        single_capacity(endpoint.mode) < data.len() <= 4095,
        endpoint.mapper.response_id(target_id) == Ok::<CanId, IsoTpError>(resp_id),
        endpoint.mapper.fc_sender_id(resp_id) is Ok,
        sent_with_last(
            Sending::starting(endpoint.mode, target_id, resp_id, data),
            endpoint.mode,
            endpoint.target,
            inputs,
        ),
        single_capacity(endpoint.mode) < message.len() <= 256,
        answers.len() == segment_count(endpoint.mode, message.len() as int) + 1,
        arrival(answers[0].0, resp_id, segment(endpoint.mode, target, message, 0)),
        answers[1].0 == Event::Tx(TxEvent::Sent),
        forall|k: int|
            1 <= k < answers.len() - 1 ==> arrival(
                (#[trigger] answers[k + 1]).0,
                resp_id,
                segment(endpoint.mode, target, message, k),
            ),
    ensures
        ({
            let (start, _) = endpoint.physical_start(target_id, data)->Ok_0;
            let waiting = exchange_after(start, endpoint, inputs + answers.drop_last());
            &&& endpoint.physical_start(target_id, data) is Ok
            &&& waiting.next(endpoint, answers.last().0, answers.last().1).1
                == ReceiveStepView::Complete(message)
        }),
{
    let (start, _) = endpoint.physical_start(target_id, data)->Ok_0;
    let n = answers.len() - 1;
    let at = inputs.last().1;
    lemma_request_out(
        endpoint,
        resp_id,
        Sending::starting(endpoint.mode, target_id, resp_id, data),
        inputs,
    );
    lemma_exchange_after_both(start, endpoint, inputs, answers.drop_last());
    assert(answers.take(n) == answers.drop_last());
    lemma_exchange_is_reception(Receiving::starting(resp_id, at), endpoint, answers, n);
    law_multi_frame_answer_is_returned(endpoint, resp_id, at, target, message, answers);
}

/// The same of a request in one frame: it is out with its only frame, and the message that the
/// answering identifier then sends in one frame completes the exchange.
pub proof fn law_short_request_gets_answer<M: IdMapper>(
    endpoint: Endpoint<M>,
    target_id: CanId,
    resp_id: CanId,
    data: Seq<u8>,
    sent_at: u64,
    target: u8,
    message: Seq<u8>,
    frame: &[u8],
    now: u64,
)
    requires
        data.len() <= single_capacity(endpoint.mode),
        endpoint.mapper.response_id(target_id) == Ok::<CanId, IsoTpError>(resp_id),
        1 <= message.len() <= single_capacity(endpoint.mode),
        frame@ == single_frame_bytes(endpoint.mode, target, message),
    ensures
        ({
            let (start, _) = endpoint.physical_start(target_id, data)->Ok_0;
            let waiting = start.next(endpoint, Event::Tx(TxEvent::Sent), sent_at);
            let answer = Event::Rx(RxEvent::Frame { id: resp_id, data: frame });
            &&& endpoint.physical_start(target_id, data) is Ok
            &&& waiting.1 == ReceiveStepView::Next(ActionView::Receive { timeout_us: 1_000_000 })
            &&& waiting.0 == (PhysicalView::Response {
                receiver: Receiving::starting(resp_id, sent_at),
            })
            &&& waiting.0.next(endpoint, answer, now).1 == ReceiveStepView::Complete(message)
        }),
{
    law_single_frame_round_trip(endpoint, resp_id, target, message);
}

/// The frames that a physical exchange hands out in the course of `inputs` until its request is
/// out.
pub open spec fn requested<M: IdMapper>(
    p: PhysicalView,
    endpoint: Endpoint<M>,
    inputs: Seq<(Event, u64)>,
) -> Seq<Seq<u8>>
    decreases inputs.len(),
{
    if inputs.len() == 0 || p is Response {
        Seq::empty()
    } else {
        let (after, step) = p.next(endpoint, inputs[0].0, inputs[0].1);
        match step {
            ReceiveStepView::Next(ActionView::Transmit { frame, .. }) => seq![frame] + requested(
                after,
                endpoint,
                inputs.skip(1),
            ),
            ReceiveStepView::Next(_) => requested(after, endpoint, inputs.skip(1)),
            _ => Seq::empty(),
        }
    }
}

proof fn lemma_requested_is_transmitted<M: IdMapper>(
    endpoint: Endpoint<M>,
    resp_id: CanId,
    s: Sending,
    inputs: Seq<(Event, u64)>,
)
    ensures
        requested(PhysicalView::Multi { resp_id, sender: s }, endpoint, inputs) == transmitted(
            s,
            endpoint.mode,
            endpoint.target,
            inputs,
        ),
    decreases inputs.len(),
{
    if inputs.len() > 0 {
        let (after, step) = s.next(endpoint.mode, endpoint.target, inputs[0].0, inputs[0].1);
        if step is Next {
            lemma_requested_is_transmitted(endpoint, resp_id, after, inputs.skip(1));
        } else if step is Sent {
            let next = PhysicalView::Response {
                receiver: Receiving::starting(resp_id, inputs[0].1),
            };
            assert(requested(next, endpoint, inputs.skip(1)) == Seq::<Seq<u8>>::empty());
        }
    }
}

/// A request of several frames is out once all frames of its message are, each handed out once and
/// in order.
pub proof fn law_long_request_is_the_message<M: IdMapper>(
    endpoint: Endpoint<M>,
    target_id: CanId,
    resp_id: CanId,
    data: Seq<u8>,
    inputs: Seq<(Event, u64)>,
)
    requires
        single_capacity(endpoint.mode) < data.len() <= 4095,
        endpoint.mapper.response_id(target_id) == Ok::<CanId, IsoTpError>(resp_id),
        sent_with_last(
            Sending::starting(endpoint.mode, target_id, resp_id, data),
            endpoint.mode,
            endpoint.target,
            inputs,
        ),
    ensures
        match endpoint.physical_start(target_id, data) {
            Ok((start, ActionView::Transmit { frame, .. })) => seq![frame] + requested(
                start,
                endpoint,
                inputs,
            ) == segments(endpoint.mode, endpoint.target, data),
            _ => false,
        },
{
    let s = Sending::starting(endpoint.mode, target_id, resp_id, data);
    lemma_requested_is_transmitted(endpoint, resp_id, s, inputs);
    law_completed_transmission_is_the_message(
        endpoint.mode,
        target_id,
        resp_id,
        endpoint.mode,
        endpoint.target,
        data,
        inputs,
    );
    assert(whole_transmission(
        endpoint.mode,
        target_id,
        resp_id,
        endpoint.mode,
        endpoint.target,
        data,
        inputs,
    ) == segments(endpoint.mode, endpoint.target, data));
}

/// A request in one frame whose answer comes in several frames: the last of them completes the
/// exchange with the message.
pub proof fn law_short_request_gets_long_answer<M: IdMapper>(
    endpoint: Endpoint<M>,
    target_id: CanId,
    resp_id: CanId,
    data: Seq<u8>,
    sent_at: u64,
    target: u8,
    message: Seq<u8>,
    answers: Seq<(Event, u64)>,
)
    requires
        data.len() <= single_capacity(endpoint.mode),
        endpoint.mapper.response_id(target_id) == Ok::<CanId, IsoTpError>(resp_id),
        endpoint.mapper.fc_sender_id(resp_id) is Ok,
        single_capacity(endpoint.mode) < message.len() <= 256,
        answers.len() == segment_count(endpoint.mode, message.len() as int) + 1,
        arrival(answers[0].0, resp_id, segment(endpoint.mode, target, message, 0)),
        answers[1].0 == Event::Tx(TxEvent::Sent),
        forall|k: int|
            1 <= k < answers.len() - 1 ==> arrival(
                (#[trigger] answers[k + 1]).0,
                resp_id,
                segment(endpoint.mode, target, message, k),
            ),
    ensures
        ({
            let (start, _) = endpoint.physical_start(target_id, data)->Ok_0;
            let out = start.next(endpoint, Event::Tx(TxEvent::Sent), sent_at).0;
            let waiting = exchange_after(out, endpoint, answers.drop_last());
            &&& endpoint.physical_start(target_id, data) is Ok
            &&& waiting.next(endpoint, answers.last().0, answers.last().1).1
                == ReceiveStepView::Complete(message)
        }),
{
    let n = answers.len() - 1;
    assert(answers.take(n) == answers.drop_last());
    lemma_exchange_is_reception(Receiving::starting(resp_id, sent_at), endpoint, answers, n);
    law_multi_frame_answer_is_returned(endpoint, resp_id, sent_at, target, message, answers);
}

/// By the rules of OBD-II a request on the 11-bit identifier n awaits its answer, and its Flow
/// Control, on the 11-bit identifier n + 8, in one frame as in several.
pub proof fn law_standard_request_awaits_eight_higher(
    endpoint: Endpoint<Obd2IdMapper>,
    n: u16,
    data: Seq<u8>,
)
    requires
        n + 8 <= 0x7FF,
        data.len() <= 4095,
    ensures
        match endpoint.physical_start(CanId::Standard(n), data) {
            Ok((PhysicalView::Single { resp_id }, _)) => resp_id == CanId::Standard((n + 8) as u16),
            Ok((PhysicalView::Multi { resp_id, sender }, _)) => {
                &&& resp_id == CanId::Standard((n + 8) as u16)
                &&& sender.fc_id == CanId::Standard((n + 8) as u16)
                &&& sender.tx_id == CanId::Standard(n)
                &&& sender.data == data
            },
            _ => false,
        },
{
}

/// Steps are what they hold: a response its bytes, a collection its responses in their order.
pub proof fn law_values_of_steps(
    action: Action,
    data: heapless::Vec<u8, 256>,
    list: heapless::Vec<EcuResponse, 8>,
    e: IsoTpError,
    i: int,
)
    ensures
        ReceiveStep::Next(action)@ == ReceiveStepView::Next(action@),
        ReceiveStep::Complete(data)@ == ReceiveStepView::Complete(payload_bytes(data)),
        ReceiveStep::Failed(e)@ == ReceiveStepView::Failed(e),
        SendStep::Next(action)@ == SendStepView::Next(action@),
        SendStep::Sent@ == SendStepView::Sent,
        SendStep::Failed(e)@ == SendStepView::Failed(e),
        FunctionalStep::Next(action)@ == FunctionalStepView::Next(action@),
        FunctionalStep::Failed(e)@ == FunctionalStepView::Failed(e),
        FunctionalStep::Complete(list)@ matches FunctionalStepView::Complete(all) && all.len()
            == response_list(list).len() && (0 <= i < all.len() ==> all[i] == response_list(
            list,
        )[i]@),
{
}

/// A collection is what it holds: its responses and its transfers, each in its place.
pub proof fn law_values_of_collections(exchange: FunctionalExchange, i: int)
    ensures
        exchange@.deadline == exchange.deadline,
        exchange@.phase == exchange.phase,
        exchange@.responses.len() == response_list(exchange.responses).len(),
        0 <= i < exchange@.responses.len() ==> exchange@.responses[i] == response_list(
            exchange.responses,
        )[i]@,
        exchange@.states.len() == transfer_list(exchange.states).len(),
        0 <= i < exchange@.states.len() ==> exchange@.states[i] == transfer_list(
            exchange.states,
        )[i]@,
{
}

/// A transmission, a reception and a physical exchange are what their fields hold.
pub proof fn law_values_of_exchanges(
    sender: MultiFrameSender,
    receiver: ResponseReceiver,
    resp_id: CanId,
)
    ensures
        sender@.data == sender.data@,
        sender@.mode == sender.mode && sender@.tx_id == sender.tx_id && sender@.fc_id
            == sender.fc_id,
        sender@.offset == sender.offset && sender@.sn == sender.sn,
        sender@.block_count == sender.block_count && sender@.bs == sender.bs,
        sender@.gap_us == sender.gap_us && sender@.phase == sender.phase,
        receiver@.state == receiver.state@,
        receiver@.deadline == receiver.deadline && receiver@.phase == receiver.phase,
        (PhysicalExchange::Single { resp_id })@ == (PhysicalView::Single { resp_id }),
        (PhysicalExchange::Multi { resp_id, sender })@ == (PhysicalView::Multi {
            resp_id,
            sender: sender@,
        }),
        (PhysicalExchange::Response { receiver })@ == (PhysicalView::Response {
            receiver: receiver@,
        }),
{
}

} // verus!
