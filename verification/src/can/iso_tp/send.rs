//! Sending a message that does not fit one frame.
use vstd::prelude::*;

use super::frame::{
    consecutive_frame,
    consecutive_frame_bytes,
    first_capacity,
    first_frame,
    first_frame_bytes,
    single_capacity,
};
use super::handler::IsoTpHandler;
use super::mapper::IdMapper;
use super::types::{
    clock_in_range,
    Action,
    ActionView,
    AddressingMode,
    Event,
    FlowStatus,
    IsoTpError,
    RxEvent,
    MAX_SEND_LEN,
    N_AS_TIMEOUT,
    N_BS_TIMEOUT,
    N_WFTMAX,
};
use crate::can::id::CanId;

verus! {

/// The separation time that an STmin byte asks for, in microseconds.
///
/// | Byte                 | Time                          |
/// |----------------------|-------------------------------|
/// | 0x00 - 0x7F          | 0 - 127 ms                    |
/// | 0xF1 - 0xF9          | 100 - 900 us                  |
/// | 0x80 - 0xF0, from 0xFA | reserved: 127 ms            |
pub open spec fn separation_time(st_min: u8) -> u64 {
    if st_min <= 0x7F {
        (st_min * 1000) as u64
    } else if 0xF1 <= st_min <= 0xF9 {
        ((st_min - 0xF0) * 100) as u64
    } else {
        127_000
    }
}

/// Decodes an STmin byte to microseconds.
pub fn decode_stmin(st_min: u8) -> (us: u64)
    ensures
        us == separation_time(st_min),
{
    if st_min <= 0x7F {
        st_min as u64 * 1000
    } else if 0xF1 <= st_min && st_min <= 0xF9 {
        (st_min - 0xF0) as u64 * 100
    } else {
        127_000
    }
}

/// A wait for Flow Control.
#[derive(Clone, Copy, Debug, PartialEq, Eq, Structural)]
pub struct FlowControlWait {
    /// WAIT frames that have come.
    pub wft_count: u8,
    /// When the wait ends, in microseconds.
    pub deadline: u64,
}

/// What a wait for Flow Control came to.
#[derive(Clone, Copy, Debug, PartialEq, Eq, Structural)]
pub enum FlowStep {
    /// Go on waiting, for `timeout_us` at most.
    Keep { timeout_us: u64 },
    /// The next block may be sent.
    Granted { bs: u8, st_min: u8 },
    Failed(IsoTpError),
}

impl FlowControlWait {
    /// A wait that starts at `now`.
    pub open spec fn starting(now: u64) -> FlowControlWait {
        FlowControlWait { wft_count: 0, deadline: (now + N_BS_TIMEOUT) as u64 }
    }

    /// Go on waiting until the deadline, which may have passed.
    pub open spec fn keep(self, now: u64) -> FlowStep {
        if now >= self.deadline {
            FlowStep::Failed(IsoTpError::TimeoutBs)
        } else {
            FlowStep::Keep { timeout_us: (self.deadline - now) as u64 }
        }
    }

    /// What `event` at `now` does to the wait. Frames on other identifiers, of other kinds, or
    /// too short for a Flow Control leave the deadline as it is. WAIT starts the time over, until
    /// too many have come.
    pub open spec fn next(self, mode: AddressingMode, fc_id: CanId, event: RxEvent, now: u64) -> (
        FlowControlWait,
        FlowStep,
    ) {
        let o = mode.pci_index();
        match event {
            RxEvent::TimedOut => (self, FlowStep::Failed(IsoTpError::TimeoutBs)),
            RxEvent::Failed => (self, FlowStep::Failed(IsoTpError::DriverError)),
            RxEvent::Frame { id, data } => if id != fc_id || data@.len() < o + 3 || data@[o] / 16
                != 3 {
                (self, self.keep(now))
            } else {
                match FlowStatus::of_pci_byte(data@[o]) {
                    Err(e) => (self, FlowStep::Failed(e)),
                    Ok(FlowStatus::ContinueToSend) => (
                        self,
                        FlowStep::Granted { bs: data@[o + 1], st_min: data@[o + 2] },
                    ),
                    Ok(FlowStatus::Overflow) => (
                        self,
                        FlowStep::Failed(IsoTpError::BufferOverflow),
                    ),
                    Ok(FlowStatus::Wait) => {
                        let waited = FlowControlWait {
                            wft_count: (self.wft_count + 1) as u8,
                            deadline: self.deadline,
                        };
                        if waited.wft_count >= N_WFTMAX {
                            (waited, FlowStep::Failed(IsoTpError::WftOverrun))
                        } else {
                            (
                                FlowControlWait { deadline: (now + N_BS_TIMEOUT) as u64, ..waited },
                                FlowStep::Keep { timeout_us: N_BS_TIMEOUT },
                            )
                        }
                    },
                }
            },
        }
    }

    /// Starts a wait.
    pub fn new(now: u64) -> (w: FlowControlWait)
        requires
            clock_in_range(now),
        ensures
            w == FlowControlWait::starting(now),
    {
        FlowControlWait { wft_count: 0, deadline: now + N_BS_TIMEOUT }
    }

    fn keep_waiting(&self, now: u64) -> (step: FlowStep)
        ensures
            step == self.keep(now),
    {
        if now >= self.deadline {
            FlowStep::Failed(IsoTpError::TimeoutBs)
        } else {
            FlowStep::Keep { timeout_us: self.deadline - now }
        }
    }
}

impl<D, M: IdMapper> IsoTpHandler<D, M> {
    /// Handles what came while waiting for Flow Control on `fc_id`.
    pub fn await_flow_control(
        &self,
        wait: &mut FlowControlWait,
        fc_id: CanId,
        event: RxEvent,
        now: u64,
    ) -> (step: FlowStep)
        requires
            old(wait).wft_count < N_WFTMAX,
            clock_in_range(now),
        ensures
            (*final(wait), step) == old(wait).next(self.mode(), fc_id, event, now),
            step is Keep ==> final(wait).wft_count < N_WFTMAX,
    {
        match event {
            RxEvent::TimedOut => FlowStep::Failed(IsoTpError::TimeoutBs),
            RxEvent::Failed => FlowStep::Failed(IsoTpError::DriverError),
            RxEvent::Frame { id, data } => {
                let o: usize = self.pci_byte_offset();
                if id != fc_id || data.len() < o + 3 || data[o] / 16 != 3 {
                    return wait.keep_waiting(now);
                }
                match FlowStatus::from_pci_byte(data[o]) {
                    Err(e) => FlowStep::Failed(e),
                    Ok(FlowStatus::ContinueToSend) => FlowStep::Granted {
                        bs: data[o + 1],
                        st_min: data[o + 2],
                    },
                    Ok(FlowStatus::Overflow) => FlowStep::Failed(IsoTpError::BufferOverflow),
                    Ok(FlowStatus::Wait) => {
                        wait.wft_count = wait.wft_count + 1;
                        if wait.wft_count >= N_WFTMAX {
                            return FlowStep::Failed(IsoTpError::WftOverrun);
                        }
                        wait.deadline = now + N_BS_TIMEOUT;
                        FlowStep::Keep { timeout_us: N_BS_TIMEOUT }
                    },
                }
            },
        }
    }
}

/// Where a multi-frame transmission stands.
#[derive(Clone, Copy, Debug, PartialEq, Eq, Structural)]
pub enum SendPhase {
    /// The First Frame is on its way.
    SendingFirst,
    /// The receiver has to grant the first block.
    AwaitingFirstGrant(FlowControlWait),
    /// A Consecutive Frame is on its way.
    SendingConsecutive,
    /// The receiver has to grant another block.
    AwaitingGrant(FlowControlWait),
    /// The separation time runs.
    Pausing,
}

/// A multi-frame transmission.
#[derive(Debug)]
pub struct MultiFrameSender {
    pub data: Vec<u8>,
    pub mode: AddressingMode,
    pub tx_id: CanId,
    pub fc_id: CanId,
    /// Index of the first byte that the next Consecutive Frame sends.
    pub offset: usize,
    /// Sequence number of the next Consecutive Frame.
    pub sn: u8,
    /// Consecutive Frames sent of the current block; 0 while blocks have no limit.
    pub block_count: u8,
    /// Block size that the receiver granted; 0 is no limit.
    pub bs: u8,
    /// Separation time in microseconds.
    pub gap_us: u64,
    pub phase: SendPhase,
}

/// A multi-frame transmission, with its message as a sequence.
#[verifier::ext_equal]
pub struct Sending {
    pub data: Seq<u8>,
    pub mode: AddressingMode,
    pub tx_id: CanId,
    pub fc_id: CanId,
    pub offset: int,
    pub sn: u8,
    pub block_count: u8,
    pub bs: u8,
    pub gap_us: u64,
    pub phase: SendPhase,
}

impl View for MultiFrameSender {
    type V = Sending;

    open spec fn view(&self) -> Sending {
        Sending {
            data: self.data@,
            mode: self.mode,
            tx_id: self.tx_id,
            fc_id: self.fc_id,
            offset: self.offset as int,
            sn: self.sn,
            block_count: self.block_count,
            bs: self.bs,
            gap_us: self.gap_us,
            phase: self.phase,
        }
    }
}

/// What a multi-frame transmission came to.
#[derive(Clone, Copy, Debug)]
pub enum SendStep {
    Next(Action),
    /// The whole message is out.
    Sent,
    Failed(IsoTpError),
}

/// What a multi-frame transmission came to, with frames as sequences.
#[verifier::ext_equal]
pub enum SendStepView {
    Next(ActionView),
    Sent,
    Failed(IsoTpError),
}

impl View for SendStep {
    type V = SendStepView;

    open spec fn view(&self) -> SendStepView {
        match self {
            SendStep::Next(action) => SendStepView::Next(action@),
            SendStep::Sent => SendStepView::Sent,
            SendStep::Failed(e) => SendStepView::Failed(*e),
        }
    }
}

/// The piece of a message that starts at `offset` and fills at most one Consecutive Frame.
pub open spec fn chunk_at(mode: AddressingMode, data: Seq<u8>, offset: int) -> Seq<u8> {
    let end = offset + single_capacity(mode);
    data.subrange(
        offset,
        if end < data.len() {
            end
        } else {
            data.len() as int
        },
    )
}

impl Sending {
    /// A transmission whose First Frame is on its way.
    pub open spec fn starting(
        mode: AddressingMode,
        tx_id: CanId,
        fc_id: CanId,
        data: Seq<u8>,
    ) -> Sending {
        Sending {
            data,
            mode,
            tx_id,
            fc_id,
            offset: first_capacity(mode),
            sn: 1,
            block_count: 0,
            bs: 0,
            gap_us: 0,
            phase: SendPhase::SendingFirst,
        }
    }

    /// Number of the next Consecutive Frame, from 1 on.
    pub open spec fn index(self) -> int {
        1 + (self.offset - first_capacity(self.mode)) / single_capacity(self.mode)
    }

    /// The next frame starts where the last one ended and carries the number that follows. Once
    /// the first block is granted, the phase is left only while bytes are to be sent and, but for
    /// a wait, while the block has room.
    pub open spec fn well_formed(self) -> bool {
        &&& first_capacity(self.mode) <= self.data.len() <= MAX_SEND_LEN
        &&& first_capacity(self.mode) <= self.offset
        &&& (self.offset - first_capacity(self.mode)) % single_capacity(self.mode) == 0
        &&& self.sn as int == self.index() % 16
        &&& match self.phase {
            SendPhase::SendingFirst => self.offset == first_capacity(self.mode),
            SendPhase::AwaitingFirstGrant(w) => {
                &&& self.offset == first_capacity(self.mode)
                &&& w.wft_count < N_WFTMAX
            },
            SendPhase::AwaitingGrant(w) => {
                &&& self.offset < self.data.len()
                &&& w.wft_count < N_WFTMAX
            },
            _ => {
                &&& self.offset < self.data.len()
                &&& self.bs > 0 ==> self.block_count < self.bs
            },
        }
    }

    /// `event` is of the kind that the phase waits for.
    pub open spec fn expects(self, event: Event) -> bool {
        match self.phase {
            SendPhase::SendingFirst => event is Tx,
            SendPhase::AwaitingFirstGrant(_) => event is Rx,
            SendPhase::SendingConsecutive => event is Tx,
            SendPhase::AwaitingGrant(_) => event is Rx,
            SendPhase::Pausing => event is Elapsed,
        }
    }

    /// Sends the next Consecutive Frame, or ends where nothing is left.
    pub open spec fn emit(self, target: u8) -> (Sending, SendStepView) {
        if self.offset >= self.data.len() {
            (self, SendStepView::Sent)
        } else {
            (
                Sending { phase: SendPhase::SendingConsecutive, ..self },
                SendStepView::Next(
                    ActionView::Transmit {
                        id: self.tx_id,
                        frame: consecutive_frame_bytes(
                            self.mode,
                            target,
                            self.sn,
                            chunk_at(self.mode, self.data, self.offset),
                        ),
                        timeout_us: N_AS_TIMEOUT,
                    },
                ),
            )
        }
    }

    /// The transmission with one more Consecutive Frame out.
    pub open spec fn advanced(self) -> Sending {
        Sending {
            sn: ((self.sn + 1) % 16) as u8,
            offset: self.offset + single_capacity(self.mode),
            block_count: if self.bs > 0 {
                (self.block_count + 1) as u8
            } else {
                0
            },
            ..self
        }
    }

    /// The transmission with a new block granted.
    pub open spec fn granted(self, bs: u8, st_min: u8) -> Sending {
        Sending { bs, gap_us: separation_time(st_min), block_count: 0, ..self }
    }

    /// What `event` at `now` does to the transmission. Flow Control frames are read in
    /// `reading_mode`; frames carry `target` as their target address.
    pub open spec fn next(
        self,
        reading_mode: AddressingMode,
        target: u8,
        event: Event,
        now: u64,
    ) -> (Sending, SendStepView) {
        match (self.phase, event) {
            (SendPhase::SendingFirst, Event::Tx(tx)) => match tx.outcome() {
                Err(e) => (self, SendStepView::Failed(e)),
                Ok(_) => (
                    Sending {
                        phase: SendPhase::AwaitingFirstGrant(FlowControlWait::starting(now)),
                        ..self
                    },
                    SendStepView::Next(ActionView::Receive { timeout_us: N_BS_TIMEOUT }),
                ),
            },
            (SendPhase::AwaitingFirstGrant(w), Event::Rx(rx)) => {
                let (waited, step) = w.next(reading_mode, self.fc_id, rx, now);
                let kept = Sending { phase: SendPhase::AwaitingFirstGrant(waited), ..self };
                match step {
                    FlowStep::Keep { timeout_us } => (
                        kept,
                        SendStepView::Next(ActionView::Receive { timeout_us }),
                    ),
                    FlowStep::Failed(e) => (kept, SendStepView::Failed(e)),
                    FlowStep::Granted { bs, st_min } => self.granted(bs, st_min).emit(target),
                }
            },
            (SendPhase::SendingConsecutive, Event::Tx(tx)) => match tx.outcome() {
                Err(e) => (self, SendStepView::Failed(e)),
                Ok(_) => {
                    let s = self.advanced();
                    if s.offset >= s.data.len() {
                        (s, SendStepView::Sent)
                    } else if s.bs > 0 && s.block_count == s.bs {
                        (
                            Sending {
                                phase: SendPhase::AwaitingGrant(FlowControlWait::starting(now)),
                                ..s
                            },
                            SendStepView::Next(ActionView::Receive { timeout_us: N_BS_TIMEOUT }),
                        )
                    } else {
                        (
                            Sending { phase: SendPhase::Pausing, ..s },
                            SendStepView::Next(ActionView::Pause { duration_us: s.gap_us }),
                        )
                    }
                },
            },
            (SendPhase::AwaitingGrant(w), Event::Rx(rx)) => {
                let (waited, step) = w.next(reading_mode, self.fc_id, rx, now);
                let kept = Sending { phase: SendPhase::AwaitingGrant(waited), ..self };
                match step {
                    FlowStep::Keep { timeout_us } => (
                        kept,
                        SendStepView::Next(ActionView::Receive { timeout_us }),
                    ),
                    FlowStep::Failed(e) => (kept, SendStepView::Failed(e)),
                    FlowStep::Granted { bs, st_min } => {
                        let s = self.granted(bs, st_min);
                        (
                            Sending { phase: SendPhase::Pausing, ..s },
                            SendStepView::Next(ActionView::Pause { duration_us: s.gap_us }),
                        )
                    },
                }
            },
            (SendPhase::Pausing, Event::Elapsed) => self.emit(target),
            _ => (self, SendStepView::Failed(IsoTpError::DriverError)),
        }
    }
}

/// One more Consecutive Frame out: the next one has the next number.
pub(crate) proof fn lemma_advanced(s: Sending)
    requires
        s.well_formed(),
    ensures
        s.advanced().index() == s.index() + 1,
        (s.advanced().offset - first_capacity(s.mode)) % single_capacity(s.mode) == 0,
        s.advanced().sn as int == s.advanced().index() % 16,
{
    let sent = s.offset - first_capacity(s.mode);
    match s.mode {
        AddressingMode::Normal => {
            assert((sent + 7) / 7 == sent / 7 + 1);
        },
        AddressingMode::Extended => {
            assert((sent + 6) / 6 == sent / 6 + 1);
        },
    }
}

impl MultiFrameSender {
    /// Sends the next Consecutive Frame, or ends where nothing is left.
    fn emit_consecutive(&mut self, target: u8) -> (step: SendStep)
        requires
            first_capacity(old(self)@.mode) <= old(self)@.offset,
            old(self)@.sn < 16,
            old(self)@.data.len() <= MAX_SEND_LEN,
        ensures
            (final(self)@, step@) == old(self)@.emit(target),
    {
        let len: usize = self.data.len();
        if self.offset >= len {
            return SendStep::Sent;
        }
        let room: usize = 7 - self.mode.pci_byte_offset();
        let end: usize = if self.offset + room < len {
            self.offset + room
        } else {
            len
        };
        let chunk = &self.data.as_slice()[self.offset..end];
        assert(chunk@ == chunk_at(self.mode, self.data@, self.offset as int));
        let frame = consecutive_frame(self.mode, target, self.sn, chunk);
        self.phase = SendPhase::SendingConsecutive;
        SendStep::Next(Action::Transmit { id: self.tx_id, frame, timeout_us: N_AS_TIMEOUT })
    }

    /// Takes in that a Consecutive Frame is out.
    fn consecutive_sent(&mut self, now: u64) -> (step: SendStep)
        requires
            old(self)@.well_formed(),
            old(self)@.phase is SendingConsecutive,
            clock_in_range(now),
        ensures
            (final(self)@, step@) == ({
                let s = old(self)@.advanced();
                if s.offset >= s.data.len() {
                    (s, SendStepView::Sent)
                } else if s.bs > 0 && s.block_count == s.bs {
                    (
                        Sending {
                            phase: SendPhase::AwaitingGrant(FlowControlWait::starting(now)),
                            ..s
                        },
                        SendStepView::Next(ActionView::Receive { timeout_us: N_BS_TIMEOUT }),
                    )
                } else {
                    (
                        Sending { phase: SendPhase::Pausing, ..s },
                        SendStepView::Next(ActionView::Pause { duration_us: s.gap_us }),
                    )
                }
            }),
    {
        self.sn = (self.sn + 1) % 16;
        self.offset = self.offset + (7 - self.mode.pci_byte_offset());
        self.block_count = if self.bs > 0 {
            self.block_count + 1
        } else {
            0
        };
        if self.offset >= self.data.len() {
            return SendStep::Sent;
        }
        if self.bs > 0 && self.block_count == self.bs {
            self.phase = SendPhase::AwaitingGrant(FlowControlWait::new(now));
            return SendStep::Next(Action::Receive { timeout_us: N_BS_TIMEOUT });
        }
        self.phase = SendPhase::Pausing;
        SendStep::Next(Action::Pause { duration_us: self.gap_us })
    }

    /// Takes in a grant.
    fn grant(&mut self, bs: u8, st_min: u8)
        ensures
            final(self)@ == old(self)@.granted(bs, st_min),
    {
        self.bs = bs;
        self.gap_us = decode_stmin(st_min);
        self.block_count = 0;
    }
}

impl<D, M: IdMapper> IsoTpHandler<D, M> {
    /// Starts a multi-frame transmission on `tx_id`, whose Flow Control comes on `fc_id`. Returns
    /// the transmission and the First Frame to send, or `BufferOverflow` for a message whose
    /// length does not fit 12 bits.
    pub fn send_multi_frame(&self, tx_id: CanId, fc_id: CanId, data: &[u8]) -> (r: Result<
        (MultiFrameSender, Action),
        IsoTpError,
    >)
        requires
            data@.len() >= first_capacity(self.mode()),
        ensures
            match r {
                Ok((sender, action)) => {
                    &&& data@.len() <= MAX_SEND_LEN
                    &&& sender@ == Sending::starting(self.mode(), tx_id, fc_id, data@)
                    &&& sender@.well_formed()
                    &&& action@ == ActionView::Transmit {
                        id: tx_id,
                        frame: first_frame_bytes(self.mode(), self.target(), data@),
                        timeout_us: N_AS_TIMEOUT,
                    }
                },
                Err(e) => data@.len() > MAX_SEND_LEN && e == IsoTpError::BufferOverflow,
            },
    {
        if data.len() > MAX_SEND_LEN {
            return Err(IsoTpError::BufferOverflow);
        }
        let mode = self.addressing_mode();
        let frame = first_frame(mode, self.target_addr(), data);
        let mut copy: Vec<u8> = Vec::new();
        copy.extend_from_slice(data);
        assert(copy@ == data@);
        let sender = MultiFrameSender {
            data: copy,
            mode,
            tx_id,
            fc_id,
            offset: 6 - mode.pci_byte_offset(),
            sn: 1,
            block_count: 0,
            bs: 0,
            gap_us: 0,
            phase: SendPhase::SendingFirst,
        };
        Ok((sender, Action::Transmit { id: tx_id, frame, timeout_us: N_AS_TIMEOUT }))
    }

    /// Carries a multi-frame transmission on with what happened to its last action.
    pub fn continue_multi_frame(&self, sender: &mut MultiFrameSender, event: Event, now: u64) -> (step:
        SendStep)
        requires
            old(sender)@.well_formed(),
            old(sender)@.expects(event),
            clock_in_range(now),
        ensures
            (final(sender)@, step@) == old(sender)@.next(self.mode(), self.target(), event, now),
            step is Next ==> final(sender)@.well_formed(),
            step@ matches SendStepView::Next(action) ==> forall|e: Event|
                #[trigger] action.answered_by(e) ==> final(sender)@.expects(e),
    {
        match (sender.phase, event) {
            (SendPhase::SendingFirst, Event::Tx(tx)) => match tx.result() {
                Err(e) => SendStep::Failed(e),
                Ok(()) => {
                    sender.phase = SendPhase::AwaitingFirstGrant(FlowControlWait::new(now));
                    SendStep::Next(Action::Receive { timeout_us: N_BS_TIMEOUT })
                },
            },
            (SendPhase::AwaitingFirstGrant(w), Event::Rx(rx)) => {
                let mut wait = w;
                match self.await_flow_control(&mut wait, sender.fc_id, rx, now) {
                    FlowStep::Keep { timeout_us } => {
                        sender.phase = SendPhase::AwaitingFirstGrant(wait);
                        SendStep::Next(Action::Receive { timeout_us })
                    },
                    FlowStep::Failed(e) => {
                        sender.phase = SendPhase::AwaitingFirstGrant(wait);
                        SendStep::Failed(e)
                    },
                    FlowStep::Granted { bs, st_min } => {
                        sender.grant(bs, st_min);
                        sender.emit_consecutive(self.target_addr())
                    },
                }
            },
            (SendPhase::SendingConsecutive, Event::Tx(tx)) => match tx.result() {
                Err(e) => SendStep::Failed(e),
                Ok(()) => {
                    proof {
                        lemma_advanced(sender@);
                    }
                    sender.consecutive_sent(now)
                },
            },
            (SendPhase::AwaitingGrant(w), Event::Rx(rx)) => {
                let mut wait = w;
                match self.await_flow_control(&mut wait, sender.fc_id, rx, now) {
                    FlowStep::Keep { timeout_us } => {
                        sender.phase = SendPhase::AwaitingGrant(wait);
                        SendStep::Next(Action::Receive { timeout_us })
                    },
                    FlowStep::Failed(e) => {
                        sender.phase = SendPhase::AwaitingGrant(wait);
                        SendStep::Failed(e)
                    },
                    FlowStep::Granted { bs, st_min } => {
                        sender.grant(bs, st_min);
                        sender.phase = SendPhase::Pausing;
                        SendStep::Next(Action::Pause { duration_us: sender.gap_us })
                    },
                }
            },
            (SendPhase::Pausing, Event::Elapsed) => sender.emit_consecutive(self.target_addr()),
            _ => SendStep::Failed(IsoTpError::DriverError),
        }
    }
}

} // verus!
