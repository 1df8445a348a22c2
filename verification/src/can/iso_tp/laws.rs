//! What holds of the transport as a whole.
use vstd::prelude::*;

use super::frame::{
    consecutive_frame_bytes,
    first_capacity,
    first_frame_bytes,
    flow_control_bytes,
    single_capacity,
    single_frame_bytes,
};
use super::handler::{announced_length, progress, DispatchView, Endpoint};
use super::mapper::IdMapper;
use super::physical::PhysicalView;
use super::receive::{lemma_dispatch_well_formed, ReceivePhase, ReceiveStepView, Receiving};
use super::send::{
    chunk_at,
    lemma_advanced,
    separation_time,
    FlowControlWait,
    FlowStep,
    SendStepView,
    Sending,
};
use super::transfer::Transfer;
use super::types::{
    ActionView,
    AddressingMode,
    Event,
    FlowStatus,
    IsoTpError,
    PciType,
    RxEvent,
    TxEvent,
    FC_BS,
    FC_STMIN,
    FRAME_LEN,
    MAX_RECEIVE_LEN,
    MAX_SEND_LEN,
    N_BS_TIMEOUT,
    N_CR_TIMEOUT,
    N_WFTMAX,
};
use crate::can::id::CanId;

verus! {

/// Frame number `k` of a message that is sent in several frames.
pub open spec fn segment(mode: AddressingMode, target: u8, data: Seq<u8>, k: int) -> Seq<u8> {
    if k == 0 {
        first_frame_bytes(mode, target, data)
    } else {
        consecutive_frame_bytes(
            mode,
            target,
            (k % 16) as u8,
            chunk_at(mode, data, segment_start(mode, k)),
        )
    }
}

/// Index of the first byte that Consecutive Frame `k` sends.
pub open spec fn segment_start(mode: AddressingMode, k: int) -> int {
    match mode {
        AddressingMode::Normal => 6 + (k - 1) * 7,
        AddressingMode::Extended => 5 + (k - 1) * 6,
    }
}

/// Number of frames that a message of `len` bytes is sent in: the First Frame, and what is left
/// after its bytes in pieces of one Consecutive Frame each, the last of them perhaps shorter.
pub open spec fn segment_count(mode: AddressingMode, len: int) -> int {
    match mode {
        AddressingMode::Normal => 1 + (len - 6 + (7 - 1)) / 7,
        AddressingMode::Extended => 1 + (len - 5 + (6 - 1)) / 6,
    }
}

/// All frames of a message that is sent in several frames.
pub open spec fn segments(mode: AddressingMode, target: u8, data: Seq<u8>) -> Seq<Seq<u8>> {
    Seq::new(
        segment_count(mode, data.len() as int) as nat,
        |k: int| segment(mode, target, data, k),
    )
}

/// The transfer from `id` and what its last frame did, once the first `n` of `frames` have come.
pub open spec fn reassembled<M: IdMapper>(
    endpoint: Endpoint<M>,
    id: CanId,
    frames: Seq<Seq<u8>>,
    n: int,
) -> (Transfer, DispatchView)
    decreases n,
{
    if n <= 0 {
        (Transfer::fresh(id), DispatchView::Incomplete)
    } else {
        endpoint.dispatch(reassembled(endpoint, id, frames, n - 1).0, id, frames[n - 1])
    }
}

/// Every frame that is sent is eight bytes long.
pub proof fn law_frames_are_eight_bytes(
    mode: AddressingMode,
    target: u8,
    data: Seq<u8>,
    sn: u8,
    status: FlowStatus,
    bs: u8,
    st_min: u8,
)
    ensures
        data.len() <= single_capacity(mode) ==> single_frame_bytes(mode, target, data).len()
            == FRAME_LEN,
        data.len() <= single_capacity(mode) ==> consecutive_frame_bytes(
            mode,
            target,
            sn,
            data,
        ).len() == FRAME_LEN,
        data.len() >= first_capacity(mode) ==> first_frame_bytes(mode, target, data).len()
            == FRAME_LEN,
        flow_control_bytes(mode, target, status, bs, st_min).len() == FRAME_LEN,
{
}

/// A message that fits a Single Frame, sent and received in the same mode, arrives whole.
pub proof fn law_single_frame_round_trip<M: IdMapper>(
    endpoint: Endpoint<M>,
    id: CanId,
    target: u8,
    data: Seq<u8>,
)
    requires
        0 < data.len() <= single_capacity(endpoint.mode),
    ensures
        endpoint.dispatch(
            Transfer::fresh(id),
            id,
            single_frame_bytes(endpoint.mode, target, data),
        ) == (Transfer { buffer: data, ..Transfer::fresh(id) }, DispatchView::Complete),
{
    let frame = single_frame_bytes(endpoint.mode, target, data);
    let o = endpoint.mode.pci_index();
    let d = frame.skip(o);
    assert(frame[o] == data.len());
    assert(d[0] == data.len());
    assert(d.subrange(1, (1 + data.len()) as int) == data);
    assert(Seq::<u8>::empty() + data == data);
}

/// A transfer holds the part of the message that its first `n` frames carry.
pub open spec fn holds_first(
    t: Transfer,
    mode: AddressingMode,
    id: CanId,
    data: Seq<u8>,
    n: int,
) -> bool {
    let have = segment_start(mode, n);
    &&& t.id == id
    &&& t.rx_dl == data.len()
    &&& t.next_sn as int == n % 16
    &&& t.buffer == data.take(
        if have < data.len() {
            have
        } else {
            data.len() as int
        },
    )
}

proof fn lemma_first_segment<M: IdMapper>(
    endpoint: Endpoint<M>,
    id: CanId,
    target: u8,
    data: Seq<u8>,
)
    requires
        single_capacity(endpoint.mode) < data.len() <= MAX_RECEIVE_LEN,
        endpoint.mapper.fc_sender_id(id) is Ok,
    ensures
        ({
            let (t, outcome) = endpoint.dispatch(
                Transfer::fresh(id),
                id,
                segment(endpoint.mode, target, data, 0),
            );
            &&& holds_first(t, endpoint.mode, id, data, 1)
            &&& outcome is Answer && outcome->overflow == false
        }),
{
    let mode = endpoint.mode;
    let len = data.len() as int;
    let frame = segment(mode, target, data, 0);
    let o = mode.pci_index();
    let d = frame.skip(o);
    assert(frame[o] == 0x10 + len / 256);
    assert(d[0] == frame[o] && d[1] == len % 256);
    assert(announced_length(d) == len);
    assert(frame.len() == 8);
    assert(d.subrange(2, d.len() as int) == data.take(first_capacity(mode)));
    assert(PciType::of_pci_byte(frame[o]) == Some(PciType::FirstFrame));
    assert(endpoint.dispatch(Transfer::fresh(id), id, frame) == endpoint.on_first(
        Transfer::fresh(id),
        id,
        d,
    ));
}

proof fn lemma_next_segment<M: IdMapper>(
    endpoint: Endpoint<M>,
    id: CanId,
    target: u8,
    data: Seq<u8>,
    before: Transfer,
    k: int,
)
    requires
        single_capacity(endpoint.mode) < data.len() <= MAX_RECEIVE_LEN,
        1 <= k,
        segment_start(endpoint.mode, k) < data.len(),
        holds_first(before, endpoint.mode, id, data, k),
    ensures
        ({
            let (t, outcome) = endpoint.dispatch(
                before,
                id,
                segment(endpoint.mode, target, data, k),
            );
            &&& holds_first(t, endpoint.mode, id, data, k + 1)
            &&& outcome == (if segment_start(endpoint.mode, k + 1) < data.len() {
                DispatchView::Incomplete
            } else {
                DispatchView::Complete
            })
        }),
{
    let mode = endpoint.mode;
    let frame = segment(mode, target, data, k);
    let o = mode.pci_index();
    let d = frame.skip(o);
    let start = segment_start(mode, k);
    let chunk = chunk_at(mode, data, start);
    assert(0 <= k % 16 < 16);
    assert(frame[o] == 0x20 + k % 16);
    assert(d[0] == frame[o]);
    assert(d.len() == 1 + single_capacity(mode));
    assert(d.subrange(1, (1 + chunk.len()) as int) == chunk);
    assert(before.buffer + chunk == data.take((start + chunk.len()) as int));
    assert(PciType::of_pci_byte(frame[o]) == Some(PciType::ConsecutiveFrame));
    assert((k % 16 + 1) % 16 == (k + 1) % 16);
    assert(segment_start(mode, k + 1) == start + single_capacity(mode));
    let (t, r) = before.after_consecutive(d);
    assert(r is Ok);
    assert(t.buffer == data.take((start + chunk.len()) as int));
    assert(endpoint.dispatch(before, id, frame) == (t, progress(true, r)));
}

/// The first `n` frames of a message leave its start in the buffer; all of them complete it.
pub(crate) proof fn lemma_reassembled<M: IdMapper>(
    endpoint: Endpoint<M>,
    id: CanId,
    target: u8,
    data: Seq<u8>,
    n: int,
)
    requires
        single_capacity(endpoint.mode) < data.len() <= MAX_RECEIVE_LEN,
        endpoint.mapper.fc_sender_id(id) is Ok,
        1 <= n <= segment_count(endpoint.mode, data.len() as int),
    ensures
        ({
            let frames = segments(endpoint.mode, target, data);
            let (t, outcome) = reassembled(endpoint, id, frames, n);
            let have = segment_start(endpoint.mode, n);
            &&& holds_first(t, endpoint.mode, id, data, n)
            &&& n < segment_count(endpoint.mode, data.len() as int) ==> have < data.len()
            &&& n == segment_count(endpoint.mode, data.len() as int) <==> have >= data.len()
            &&& n == 1 ==> outcome is Answer && outcome->overflow == false
            &&& 1 < n < segment_count(endpoint.mode, data.len() as int) ==> outcome is Incomplete
            &&& n == segment_count(endpoint.mode, data.len() as int) ==> outcome is Complete
        }),
    decreases n,
{
    let frames = segments(endpoint.mode, target, data);
    assert(frames[n - 1] == segment(endpoint.mode, target, data, n - 1));
    if n == 1 {
        lemma_first_segment(endpoint, id, target, data);
    } else {
        lemma_reassembled(endpoint, id, target, data, n - 1);
        let before = reassembled(endpoint, id, frames, n - 1).0;
        lemma_next_segment(endpoint, id, target, data, before, n - 1);
    }
}

/// A message of more than one frame, up to what a receiver takes, arrives whole with its last
/// frame, and not before.
pub proof fn law_multi_frame_round_trip<M: IdMapper>(
    endpoint: Endpoint<M>,
    id: CanId,
    target: u8,
    data: Seq<u8>,
)
    requires
        single_capacity(endpoint.mode) < data.len() <= MAX_RECEIVE_LEN,
        endpoint.mapper.fc_sender_id(id) is Ok,
    ensures
        ({
            let frames = segments(endpoint.mode, target, data);
            let count = frames.len() as int;
            &&& reassembled(endpoint, id, frames, count).0.buffer == data
            &&& reassembled(endpoint, id, frames, count).1 is Complete
            &&& forall|n: int|
                0 <= n < count ==> !((#[trigger] reassembled(endpoint, id, frames, n)).1
                    is Complete) && !(reassembled(endpoint, id, frames, n).1 is Failed)
        }),
{
    let frames = segments(endpoint.mode, target, data);
    let count = frames.len() as int;
    lemma_reassembled(endpoint, id, target, data, count);
    assert(data.take(data.len() as int) == data);
    assert forall|n: int| 0 <= n < count implies !((#[trigger] reassembled(
        endpoint,
        id,
        frames,
        n,
    )).1 is Complete) && !(reassembled(endpoint, id, frames, n).1 is Failed) by {
        if n >= 1 {
            lemma_reassembled(endpoint, id, target, data, n);
        }
    }
}

/// Number of the next frame that a transmission hands out.
pub open spec fn upcoming(s: Sending) -> int {
    if s.phase is SendingConsecutive {
        s.index() + 1
    } else {
        s.index()
    }
}

/// The frames that a transmission hands out in the course of `inputs`, each an event and its
/// time.
pub open spec fn transmitted(
    s: Sending,
    mode: AddressingMode,
    target: u8,
    inputs: Seq<(Event, u64)>,
) -> Seq<Seq<u8>>
    decreases inputs.len(),
{
    if inputs.len() == 0 {
        Seq::empty()
    } else {
        let (after, step) = s.next(mode, target, inputs[0].0, inputs[0].1);
        match step {
            SendStepView::Next(ActionView::Transmit { frame, .. }) => seq![frame] + transmitted(
                after,
                mode,
                target,
                inputs.skip(1),
            ),
            SendStepView::Next(_) => transmitted(after, mode, target, inputs.skip(1)),
            _ => Seq::empty(),
        }
    }
}

/// The transmission ends well in the course of `inputs`.
pub open spec fn ends_sent(
    s: Sending,
    mode: AddressingMode,
    target: u8,
    inputs: Seq<(Event, u64)>,
) -> bool
    decreases inputs.len(),
{
    if inputs.len() == 0 {
        false
    } else {
        let (after, step) = s.next(mode, target, inputs[0].0, inputs[0].1);
        match step {
            SendStepView::Next(_) => ends_sent(after, mode, target, inputs.skip(1)),
            SendStepView::Sent => true,
            SendStepView::Failed(_) => false,
        }
    }
}

/// Consecutive Frame number `index` starts at the transmission's offset.
proof fn lemma_index_is_position(s: Sending)
    requires
        s.well_formed(),
    ensures
        segment_start(s.mode, s.index()) == s.offset,
        s.offset < s.data.len() ==> s.index() < segment_count(s.mode, s.data.len() as int),
        s.offset >= s.data.len() ==> s.index() >= segment_count(s.mode, s.data.len() as int),
{
    let sent = s.offset - first_capacity(s.mode);
    match s.mode {
        AddressingMode::Normal => {
            assert(sent == 7 * (sent / 7));
        },
        AddressingMode::Extended => {
            assert(sent == 6 * (sent / 6));
        },
    }
}

/// One step of a transmission keeps it well-formed and hands out frames in their order.
proof fn lemma_send_step(s: Sending, mode: AddressingMode, target: u8, event: Event, now: u64)
    requires
        s.well_formed(),
    ensures
        ({
            let (after, step) = s.next(mode, target, event, now);
            &&& step is Next ==> {
                &&& after.well_formed()
                &&& after.data == s.data
                &&& after.mode == s.mode
            }
            &&& match step {
                SendStepView::Next(ActionView::Transmit { frame, .. }) => {
                    &&& frame == segment(s.mode, target, s.data, upcoming(s))
                    &&& upcoming(after) == upcoming(s) + 1
                },
                SendStepView::Next(_) => upcoming(after) == upcoming(s),
                SendStepView::Sent => upcoming(s) == segment_count(s.mode, s.data.len() as int),
                SendStepView::Failed(_) => true,
            }
        }),
{
    lemma_index_is_position(s);
    lemma_advanced(s);
    if s.offset < s.data.len() {
        let a = s.advanced();
        assert(segment_start(s.mode, s.index() + 1) == a.offset);
        if a.offset >= a.data.len() {
            assert(a.index() >= segment_count(s.mode, s.data.len() as int));
        }
    }
}

/// Whatever the receiver grants and whenever, a transmission hands out the frames of its message
/// in their order, each once; and it ends well only once all are out.
pub proof fn law_transmission_sends_every_segment(
    s: Sending,
    mode: AddressingMode,
    target: u8,
    inputs: Seq<(Event, u64)>,
)
    requires
        s.well_formed(),
    ensures
        forall|j: int|
            0 <= j < transmitted(s, mode, target, inputs).len() ==> (#[trigger] transmitted(
                s,
                mode,
                target,
                inputs,
            )[j]) == segment(s.mode, target, s.data, upcoming(s) + j),
        ends_sent(s, mode, target, inputs) ==> upcoming(s) + transmitted(
            s,
            mode,
            target,
            inputs,
        ).len() == segment_count(s.mode, s.data.len() as int),
    decreases inputs.len(),
{
    if inputs.len() > 0 {
        let (after, step) = s.next(mode, target, inputs[0].0, inputs[0].1);
        lemma_send_step(s, mode, target, inputs[0].0, inputs[0].1);
        if let SendStepView::Next(action) = step {
            law_transmission_sends_every_segment(after, mode, target, inputs.skip(1));
            let rest = transmitted(after, mode, target, inputs.skip(1));
            let all = transmitted(s, mode, target, inputs);
            assert forall|j: int| 0 <= j < all.len() implies (#[trigger] all[j]) == segment(
                s.mode,
                target,
                s.data,
                upcoming(s) + j,
            ) by {
                if action is Transmit {
                    if j > 0 {
                        assert(all[j] == rest[j - 1]);
                    }
                } else {
                    assert(all[j] == rest[j]);
                }
            }
        }
    }
}

/// All frames of a transmission, First Frame included, in the course of `inputs`.
pub open spec fn whole_transmission(
    mode: AddressingMode,
    tx_id: CanId,
    fc_id: CanId,
    reading_mode: AddressingMode,
    target: u8,
    data: Seq<u8>,
    inputs: Seq<(Event, u64)>,
) -> Seq<Seq<u8>> {
    seq![first_frame_bytes(mode, target, data)] + transmitted(
        Sending::starting(mode, tx_id, fc_id, data),
        reading_mode,
        target,
        inputs,
    )
}

/// A transmission that ends well is the frames of its message, in their order, and nothing else.
pub proof fn law_completed_transmission_is_the_message(
    mode: AddressingMode,
    tx_id: CanId,
    fc_id: CanId,
    reading_mode: AddressingMode,
    target: u8,
    data: Seq<u8>,
    inputs: Seq<(Event, u64)>,
)
    requires
        first_capacity(mode) <= data.len() <= MAX_SEND_LEN,
        ends_sent(Sending::starting(mode, tx_id, fc_id, data), reading_mode, target, inputs),
    ensures
        whole_transmission(mode, tx_id, fc_id, reading_mode, target, data, inputs) == segments(
            mode,
            target,
            data,
        ),
{
    let s = Sending::starting(mode, tx_id, fc_id, data);
    law_transmission_sends_every_segment(s, reading_mode, target, inputs);
}

/// What one endpoint sends in several frames, another in the same mode receives: a transmission
/// that ends well, of a message that a receiver takes, completes at the receiver with that
/// message.
pub proof fn law_message_sent_is_message_received<M: IdMapper>(
    endpoint: Endpoint<M>,
    id: CanId,
    tx_id: CanId,
    fc_id: CanId,
    reading_mode: AddressingMode,
    target: u8,
    data: Seq<u8>,
    inputs: Seq<(Event, u64)>,
)
    requires
        single_capacity(endpoint.mode) < data.len() <= MAX_RECEIVE_LEN,
        endpoint.mapper.fc_sender_id(id) is Ok,
        ends_sent(
            Sending::starting(endpoint.mode, tx_id, fc_id, data),
            reading_mode,
            target,
            inputs,
        ),
    ensures
        ({
            let frames = whole_transmission(
                endpoint.mode,
                tx_id,
                fc_id,
                reading_mode,
                target,
                data,
                inputs,
            );
            let (t, outcome) = reassembled(endpoint, id, frames, frames.len() as int);
            t.buffer == data && outcome is Complete
        }),
{
    law_completed_transmission_is_the_message(
        endpoint.mode,
        tx_id,
        fc_id,
        reading_mode,
        target,
        data,
        inputs,
    );
    law_multi_frame_round_trip(endpoint, id, target, data);
}

/// A transmission never pauses for more than 127 ms between two frames, and the plain
/// millisecond values are taken as they are.
pub proof fn law_separation_time_is_bounded(st_min: u8)
    ensures
        separation_time(st_min) <= 127_000,
        st_min <= 0x7F ==> separation_time(st_min) == st_min * 1000,
        0xF1 <= st_min <= 0xF9 ==> 100 <= separation_time(st_min) <= 900,
{
}

/// The separation time lies between any two Consecutive Frames, across blocks too: a frame other
/// than the first goes out only when a pause is over, and the pause is as long as the last grant
/// asked for.
pub proof fn law_consecutive_frames_are_separated(
    s: Sending,
    mode: AddressingMode,
    target: u8,
    event: Event,
    now: u64,
)
    ensures
        ({
            let (after, step) = s.next(mode, target, event, now);
            &&& step matches SendStepView::Next(ActionView::Transmit { .. }) ==> (s.phase is Pausing
                && event is Elapsed) || s.phase is AwaitingFirstGrant
            &&& step is Next && after.phase is Pausing ==> step == SendStepView::Next(
                ActionView::Pause { duration_us: after.gap_us },
            )
        }),
{
}

/// Without another grant a transmission hands out no more frames than the rest of its block.
pub proof fn law_blocks_are_limited(
    s: Sending,
    mode: AddressingMode,
    target: u8,
    inputs: Seq<(Event, u64)>,
)
    requires
        s.well_formed(),
        s.bs > 0,
        s.phase is SendingConsecutive || s.phase is Pausing || s.phase is AwaitingGrant,
        forall|i: int| 0 <= i < inputs.len() ==> !((#[trigger] inputs[i]).0 is Rx),
    ensures
        transmitted(s, mode, target, inputs).len() <= (if s.phase is AwaitingGrant {
            0
        } else if s.phase is SendingConsecutive {
            s.bs - s.block_count - 1
        } else {
            s.bs - s.block_count
        }),
    decreases inputs.len(),
{
    if inputs.len() > 0 {
        let (after, step) = s.next(mode, target, inputs[0].0, inputs[0].1);
        lemma_send_step(s, mode, target, inputs[0].0, inputs[0].1);
        assert(!(inputs[0].0 is Rx));
        if step is Next {
            let rest = inputs.skip(1);
            assert forall|i: int| 0 <= i < rest.len() implies !((#[trigger] rest[i]).0 is Rx) by {
                assert(rest[i] == inputs[i + 1]);
            }
            law_blocks_are_limited(after, mode, target, rest);
        }
    }
}

/// A First Frame that announces more than a receiver takes is answered by Overflow on the
/// sender's request identifier, and leaves the transfer as it was.
pub proof fn law_oversized_message_is_refused<M: IdMapper>(
    endpoint: Endpoint<M>,
    t: Transfer,
    id: CanId,
    data: Seq<u8>,
)
    requires
        data.len() >= endpoint.mode.pci_index() + 3,
        PciType::of_pci_byte(data[endpoint.mode.pci_index()]) == Some(PciType::FirstFrame),
        announced_length(data.skip(endpoint.mode.pci_index())) > MAX_RECEIVE_LEN,
        endpoint.mapper.fc_sender_id(id) is Ok,
    ensures
        endpoint.dispatch(t, id, data) == (
            t,
            DispatchView::Answer {
                id: endpoint.mapper.fc_sender_id(id)->Ok_0,
                frame: flow_control_bytes(
                    endpoint.mode,
                    endpoint.target,
                    FlowStatus::Overflow,
                    0,
                    0,
                ),
                overflow: true,
            },
        ),
{
}

/// A First Frame that a receiver takes is answered by ContinueToSend without a block limit.
pub proof fn law_accepted_message_is_granted<M: IdMapper>(
    endpoint: Endpoint<M>,
    t: Transfer,
    id: CanId,
    data: Seq<u8>,
)
    requires
        data.len() >= endpoint.mode.pci_index() + 3,
        PciType::of_pci_byte(data[endpoint.mode.pci_index()]) == Some(PciType::FirstFrame),
        single_capacity(endpoint.mode) < announced_length(data.skip(endpoint.mode.pci_index()))
            <= MAX_RECEIVE_LEN,
        endpoint.mapper.fc_sender_id(id) is Ok,
    ensures
        endpoint.dispatch(t, id, data).1 == (DispatchView::Answer {
            id: endpoint.mapper.fc_sender_id(id)->Ok_0,
            frame: flow_control_bytes(
                endpoint.mode,
                endpoint.target,
                FlowStatus::ContinueToSend,
                FC_BS,
                FC_STMIN,
            ),
            overflow: false,
        }),
        endpoint.dispatch(t, id, data).0.rx_dl == announced_length(
            data.skip(endpoint.mode.pci_index()),
        ),
{
}

/// A wait for Flow Control after the WAIT frames whose times are `times`.
pub open spec fn after_waits(
    w: FlowControlWait,
    mode: AddressingMode,
    fc_id: CanId,
    wait: RxEvent,
    times: Seq<u64>,
) -> (FlowControlWait, FlowStep)
    decreases times.len(),
{
    if times.len() == 0 {
        (w, FlowStep::Keep { timeout_us: N_BS_TIMEOUT })
    } else {
        after_waits(w, mode, fc_id, wait, times.drop_last()).0.next(
            mode,
            fc_id,
            wait,
            times.last(),
        )
    }
}

/// A sender bears fewer than N_WFTmax WAIT frames in a row, each of which starts its time over,
/// and gives up on the one that reaches the limit.
pub proof fn law_wait_frames_are_limited(
    start: u64,
    mode: AddressingMode,
    fc_id: CanId,
    wait: RxEvent,
    times: Seq<u64>,
)
    requires
        wait matches RxEvent::Frame { id, data } && id == fc_id && data@.len() >= mode.pci_index()
            + 3 && data@[mode.pci_index()] == 0x31,
        times.len() <= N_WFTMAX,
    ensures
        ({
            let (w, step) = after_waits(
                FlowControlWait::starting(start),
                mode,
                fc_id,
                wait,
                times,
            );
            &&& w.wft_count == times.len()
            &&& times.len() < N_WFTMAX ==> step == (FlowStep::Keep { timeout_us: N_BS_TIMEOUT })
            &&& times.len() == N_WFTMAX ==> step == FlowStep::Failed(IsoTpError::WftOverrun)
        }),
    decreases times.len(),
{
    if times.len() > 0 {
        law_wait_frames_are_limited(start, mode, fc_id, wait, times.drop_last());
    }
}

/// A frame that is no Flow Control for this sender does not change how long it waits.
pub proof fn law_foreign_frames_keep_flow_control_deadline(
    w: FlowControlWait,
    mode: AddressingMode,
    fc_id: CanId,
    id: CanId,
    data: &[u8],
    now: u64,
)
    requires
        id != fc_id || data@.len() < mode.pci_index() + 3 || PciType::of_pci_byte(
            data@[mode.pci_index()],
        ) != Some(PciType::FlowControl),
    ensures
        w.next(mode, fc_id, RxEvent::Frame { id, data }, now) == (w, w.keep(now)),
{
}

/// A frame from another identifier changes nothing of a reception, its deadline included.
pub proof fn law_foreign_frames_keep_reception<M: IdMapper>(
    r: Receiving,
    endpoint: Endpoint<M>,
    id: CanId,
    data: &[u8],
    now: u64,
)
    requires
        r.phase is Listening,
        id != r.state.id,
    ensures
        r.next(endpoint, Event::Rx(RxEvent::Frame { id, data }), now) == (r, r.keep(now)),
{
}

/// The frame, from its PCI byte on, is a Single Frame that holds as much as it says.
pub open spec fn whole_single_frame(d: Seq<u8>) -> bool {
    &&& d.len() > 0
    &&& PciType::of_pci_byte(d[0]) == Some(PciType::SingleFrame)
    &&& 1 <= d[0] % 16 <= 7
    &&& 1 + d[0] % 16 <= d.len()
}

/// The frame, from its PCI byte on, is a First Frame of a message that does not fit a Single Frame.
pub open spec fn proper_first_frame(mode: AddressingMode, d: Seq<u8>) -> bool {
    &&& d.len() >= 3
    &&& PciType::of_pci_byte(d[0]) == Some(PciType::FirstFrame)
    &&& announced_length(d) > single_capacity(mode)
}

/// A reception that has taken nothing yet waits for a Single Frame or a First Frame. A whole Single
/// Frame completes it with the frame's message. A First Frame is answered, and where it is granted
/// its length is taken over. Every other frame of the sender changes nothing, the deadline
/// included.
pub proof fn law_reception_waits_for_single_or_first<M: IdMapper>(
    start: u64,
    endpoint: Endpoint<M>,
    id: CanId,
    data: &[u8],
    now: u64,
)
    ensures
        ({
            let r = Receiving::starting(id, start);
            let o = endpoint.mode.pci_index();
            let d = data@.skip(o);
            let (after, step) = r.next(endpoint, Event::Rx(RxEvent::Frame { id, data }), now);
            if data@.len() > o && whole_single_frame(d) {
                step == ReceiveStepView::Complete(d.subrange(1, 1 + d[0] % 16))
            } else if data@.len() > o && proper_first_frame(endpoint.mode, d) {
                match endpoint.mapper.fc_sender_id(id) {
                    Err(e) => step == ReceiveStepView::Failed(e),
                    Ok(fc_id) => {
                        &&& step matches ReceiveStepView::Next(
                            ActionView::Transmit { id: to, .. },
                        ) && to == fc_id
                        &&& after.phase == (ReceivePhase::Answering {
                            overflow: announced_length(d) > MAX_RECEIVE_LEN,
                        })
                        &&& announced_length(d) <= MAX_RECEIVE_LEN ==> after.state.rx_dl
                            == announced_length(d)
                    },
                }
            } else {
                (after, step) == (r, r.keep(now))
            }
        }),
{
    let d = data@.skip(endpoint.mode.pci_index());
    if data@.len() > endpoint.mode.pci_index() {
        assert(d[0] == data@[endpoint.mode.pci_index()]);
        if whole_single_frame(d) {
            let payload = d.subrange(1, 1 + d[0] % 16);
            assert(Seq::<u8>::empty() + payload == payload);
        }
    }
}

/// Only frames that are taken start the time of a reception over. One that is ignored (a Flow
/// Control, one of no known kind, one that is malformed) changes nothing, the deadline included.
pub proof fn law_ignored_frames_keep_reception<M: IdMapper>(
    r: Receiving,
    endpoint: Endpoint<M>,
    data: &[u8],
    now: u64,
)
    requires
        r.phase is Listening,
        r.state.well_formed(),
        endpoint.dispatch(r.state, r.state.id, data@).1 is Ignored,
    ensures
        r.next(endpoint, Event::Rx(RxEvent::Frame { id: r.state.id, data }), now) == (
            r,
            r.keep(now),
        ),
{
}

/// The frames that every reception ignores: those without a PCI byte, Flow Control, those of no
/// known kind, and Consecutive Frames that hold nothing.
pub proof fn law_ignored_frames<M: IdMapper>(
    t: Transfer,
    endpoint: Endpoint<M>,
    id: CanId,
    data: Seq<u8>,
)
    requires
        ({
            let o = endpoint.mode.pci_index();
            ||| data.len() <= o
            ||| PciType::of_pci_byte(data[o]) is None
            ||| PciType::of_pci_byte(data[o]) == Some(PciType::FlowControl)
            ||| PciType::of_pci_byte(data[o]) == Some(PciType::ConsecutiveFrame) && data.len() < o
                + 2
        }),
    ensures
        endpoint.dispatch(t, id, data) == (t, DispatchView::Ignored),
{
}

/// A reception that no First Frame has come to ignores Consecutive Frames, whatever their number:
/// they change nothing, the deadline included.
pub proof fn law_stray_consecutive_is_ignored<M: IdMapper>(
    r: Receiving,
    endpoint: Endpoint<M>,
    id: CanId,
    data: &[u8],
    now: u64,
)
    requires
        r.phase is Listening,
        r.state.rx_dl == 0,
        data@.len() > endpoint.mode.pci_index(),
        PciType::of_pci_byte(data@[endpoint.mode.pci_index()]) == Some(
            PciType::ConsecutiveFrame,
        ),
    ensures
        r.next(endpoint, Event::Rx(RxEvent::Frame { id, data }), now) == (r, r.keep(now)),
{
}

/// A Consecutive Frame that holds something and has another number than the expected one fails,
/// whatever was announced, and changes nothing of the transfer.
pub proof fn law_wrong_number_fails<M: IdMapper>(
    t: Transfer,
    endpoint: Endpoint<M>,
    id: CanId,
    data: Seq<u8>,
)
    requires
        data.len() >= endpoint.mode.pci_index() + 2,
        PciType::of_pci_byte(data[endpoint.mode.pci_index()]) == Some(
            PciType::ConsecutiveFrame,
        ),
        data[endpoint.mode.pci_index()] % 16 != t.next_sn,
    ensures
        endpoint.dispatch(t, id, data) == (t, DispatchView::Failed(IsoTpError::WrongSn)),
{
    let d = data.skip(endpoint.mode.pci_index());
    assert(d[0] == data[endpoint.mode.pci_index()]);
}

/// A response that a receiver hands out is never longer than its buffer.
pub proof fn law_received_message_fits<M: IdMapper>(
    r: Receiving,
    endpoint: Endpoint<M>,
    event: Event,
    now: u64,
)
    requires
        r.well_formed(),
    ensures
        r.next(endpoint, event, now).1 matches ReceiveStepView::Complete(data) ==> data.len()
            <= MAX_RECEIVE_LEN,
{
    if let Event::Rx(RxEvent::Frame { id, data }) = event {
        lemma_dispatch_well_formed(endpoint, r.state, id, data@);
    }
}

/// A physical request that is answered in one frame brings the bytes of that frame's message.
pub proof fn law_single_frame_answer_is_returned<M: IdMapper>(
    endpoint: Endpoint<M>,
    resp_id: CanId,
    sent_at: u64,
    target: u8,
    message: Seq<u8>,
    frame: &[u8],
    now: u64,
)
    requires
        1 <= message.len() <= single_capacity(endpoint.mode),
        frame@ == single_frame_bytes(endpoint.mode, target, message),
    ensures
        (PhysicalView::Single { resp_id }).next(
            endpoint,
            Event::Tx(TxEvent::Sent),
            sent_at,
        ).0.next(
            endpoint,
            Event::Rx(RxEvent::Frame { id: resp_id, data: frame }),
            now,
        ).1 == ReceiveStepView::Complete(message),
{
    law_single_frame_round_trip(endpoint, resp_id, target, message);
}

/// A reception and what its last event came to, once the first `n` of `inputs` have happened.
pub open spec fn reception_after<M: IdMapper>(
    r: Receiving,
    endpoint: Endpoint<M>,
    inputs: Seq<(Event, u64)>,
    n: int,
) -> (Receiving, ReceiveStepView)
    decreases n,
{
    if n <= 0 {
        (r, ReceiveStepView::Next(ActionView::Receive { timeout_us: N_CR_TIMEOUT }))
    } else {
        reception_after(r, endpoint, inputs, n - 1).0.next(
            endpoint,
            inputs[n - 1].0,
            inputs[n - 1].1,
        )
    }
}

/// `event` is the arrival of `frame` from `id`.
pub open spec fn arrival(event: Event, id: CanId, frame: Seq<u8>) -> bool {
    event matches Event::Rx(RxEvent::Frame { id: from, data }) && from == id && data@ == frame
}

proof fn lemma_reception<M: IdMapper>(
    endpoint: Endpoint<M>,
    id: CanId,
    start: u64,
    target: u8,
    data: Seq<u8>,
    inputs: Seq<(Event, u64)>,
    n: int,
)
    requires
        single_capacity(endpoint.mode) < data.len() <= MAX_RECEIVE_LEN,
        endpoint.mapper.fc_sender_id(id) is Ok,
        1 <= n < segment_count(endpoint.mode, data.len() as int),
        inputs.len() > n,
        arrival(inputs[0].0, id, segment(endpoint.mode, target, data, 0)),
        inputs[1].0 == Event::Tx(TxEvent::Sent),
        forall|k: int|
            1 <= k < n ==> arrival(
                (#[trigger] inputs[k + 1]).0,
                id,
                segment(endpoint.mode, target, data, k),
            ),
    ensures
        ({
            let r = Receiving::starting(id, start);
            let frames = segments(endpoint.mode, target, data);
            let (after, step) = reception_after(r, endpoint, inputs, n + 1);
            &&& after.phase is Listening
            &&& after.state == reassembled(endpoint, id, frames, n).0
            &&& after.state.id == id
            &&& step is Next
        }),
    decreases n,
{
    let r = Receiving::starting(id, start);
    let frames = segments(endpoint.mode, target, data);
    lemma_reassembled(endpoint, id, target, data, n);
    assert(frames[n - 1] == segment(endpoint.mode, target, data, n - 1));
    if n == 1 {
        reveal_with_fuel(reception_after, 3);
        reveal_with_fuel(reassembled, 2);
    } else {
        lemma_reception(endpoint, id, start, target, data, inputs, n - 1);
        assert(arrival(
            inputs[(n - 1) + 1].0,
            id,
            segment(endpoint.mode, target, data, n - 1),
        ));
    }
}

/// The frames of a message that a receiver takes, each in its turn and at whatever times within
/// the limits, with the answer to the first one sent: the receiver hands out the message with the
/// last frame.
pub proof fn law_multi_frame_answer_is_returned<M: IdMapper>(
    endpoint: Endpoint<M>,
    id: CanId,
    start: u64,
    target: u8,
    data: Seq<u8>,
    inputs: Seq<(Event, u64)>,
)
    requires
        single_capacity(endpoint.mode) < data.len() <= MAX_RECEIVE_LEN,
        endpoint.mapper.fc_sender_id(id) is Ok,
        inputs.len() == segment_count(endpoint.mode, data.len() as int) + 1,
        arrival(inputs[0].0, id, segment(endpoint.mode, target, data, 0)),
        inputs[1].0 == Event::Tx(TxEvent::Sent),
        forall|k: int|
            1 <= k < inputs.len() - 1 ==> arrival(
                (#[trigger] inputs[k + 1]).0,
                id,
                segment(endpoint.mode, target, data, k),
            ),
    ensures
        reception_after(
            Receiving::starting(id, start),
            endpoint,
            inputs,
            inputs.len() as int,
        ).1 == ReceiveStepView::Complete(data),
{
    let count = inputs.len() - 1;
    let frames = segments(endpoint.mode, target, data);
    lemma_reassembled(endpoint, id, target, data, count);
    assert(count >= 2);
    lemma_reception(endpoint, id, start, target, data, inputs, count - 1);
    assert(frames[count - 1] == segment(endpoint.mode, target, data, count - 1));
    assert(arrival(
        inputs[(count - 1) + 1].0,
        id,
        segment(endpoint.mode, target, data, count - 1),
    ));
    assert(data.take(data.len() as int) == data);
}

} // verus!
