//! Constants, addressing, errors and the events that an exchange is driven by.
use vstd::prelude::*;

use crate::can::id::CanId;

verus! {

/// Fills the unused tail of every frame.
pub const PADDING_BYTE: u8 = 0xCC;

/// Bytes in a CAN frame.
pub const FRAME_LEN: usize = 8;

/// Longest message that a receiver takes.
pub const MAX_RECEIVE_LEN: usize = 256;

/// Longest message that the 12-bit length field of a First Frame can announce.
pub const MAX_SEND_LEN: usize = 0xFFF;

/// N_As: time for one frame to leave, in microseconds.
pub const N_AS_TIMEOUT: u64 = 5_000_000;

/// N_Bs: time for a Flow Control to arrive, in microseconds.
pub const N_BS_TIMEOUT: u64 = 1_000_000;

/// N_Cr: time for the next frame of a message to arrive, in microseconds.
pub const N_CR_TIMEOUT: u64 = 1_000_000;

/// Flow Control WAIT frames at which a sender gives up.
pub const N_WFTMAX: u8 = 10;

/// Longest silence while functional responses are collected, in microseconds.
pub const TIMEOUT_INTER_FRAME: u64 = 100_000;

/// Time that a collection of functional responses may take in all, in microseconds.
pub const TIMEOUT_TOTAL: u64 = 500_000;

/// Block size that a receiver grants: no limit. A First Frame that announces more than the
/// receive buffer holds is refused, so the buffer cannot be overrun.
pub const FC_BS: u8 = 0;

/// Separation time that a receiver asks for: 25 ms between Consecutive Frames.
pub const FC_STMIN: u8 = 25;

/// Functional collections hold this many transfers and this many responses.
pub const MAX_ECUS: usize = 8;

/// What a Flow Control frame tells the sender.
#[derive(Clone, Copy, Debug, PartialEq, Eq, Structural)]
pub enum FlowStatus {
    ContinueToSend,
    Wait,
    Overflow,
}

impl FlowStatus {
    /// The status in a Flow Control's PCI byte.
    pub open spec fn of_pci_byte(b: u8) -> Result<FlowStatus, IsoTpError> {
        if b % 16 == 0 {
            Ok(FlowStatus::ContinueToSend)
        } else if b % 16 == 1 {
            Ok(FlowStatus::Wait)
        } else if b % 16 == 2 {
            Ok(FlowStatus::Overflow)
        } else {
            Err(IsoTpError::InvalidFs)
        }
    }

    /// The status's number on the wire.
    pub open spec fn number(self) -> u8 {
        match self {
            FlowStatus::ContinueToSend => 0,
            FlowStatus::Wait => 1,
            FlowStatus::Overflow => 2,
        }
    }

    /// Reads the status from the low half of a Flow Control's PCI byte. The values from 3 on are
    /// reserved.
    pub fn from_pci_byte(b: u8) -> (r: Result<FlowStatus, IsoTpError>)
        ensures
            r == FlowStatus::of_pci_byte(b),
    {
        match b % 16 {
            0 => Ok(FlowStatus::ContinueToSend),
            1 => Ok(FlowStatus::Wait),
            2 => Ok(FlowStatus::Overflow),
            _ => Err(IsoTpError::InvalidFs),
        }
    }

    /// The status's number on the wire.
    pub fn to_u8(self) -> (n: u8)
        ensures
            n == self.number(),
    {
        match self {
            FlowStatus::ContinueToSend => 0,
            FlowStatus::Wait => 1,
            FlowStatus::Overflow => 2,
        }
    }
}

/// The kind of an ISO-TP frame.
#[derive(Clone, Copy, Debug, PartialEq, Eq, Structural)]
pub enum PciType {
    SingleFrame,
    FirstFrame,
    ConsecutiveFrame,
    FlowControl,
}

impl PciType {
    /// The kind in a PCI byte, where the byte holds one.
    pub open spec fn of_pci_byte(b: u8) -> Option<PciType> {
        if b / 16 == 0 {
            Some(PciType::SingleFrame)
        } else if b / 16 == 1 {
            Some(PciType::FirstFrame)
        } else if b / 16 == 2 {
            Some(PciType::ConsecutiveFrame)
        } else if b / 16 == 3 {
            Some(PciType::FlowControl)
        } else {
            None
        }
    }

    /// Reads the kind from the high half of a PCI byte.
    pub fn from_pci_byte(b: u8) -> (r: Option<PciType>)
        ensures
            r == PciType::of_pci_byte(b),
    {
        match b / 16 {
            0 => Some(PciType::SingleFrame),
            1 => Some(PciType::FirstFrame),
            2 => Some(PciType::ConsecutiveFrame),
            3 => Some(PciType::FlowControl),
            _ => None,
        }
    }
}

/// Where the PCI byte stands in a frame.
#[derive(Clone, Copy, Debug, PartialEq, Eq, Structural)]
pub enum AddressingMode {
    /// The PCI byte comes first. A Single Frame holds up to 7 bytes.
    Normal,
    /// The target address comes first, then the PCI byte. A Single Frame holds up to 6 bytes.
    Extended,
}

impl AddressingMode {
    /// The mode that a number stands for.
    pub open spec fn of_u8(v: u8) -> AddressingMode {
        if v == 0 {
            AddressingMode::Normal
        } else {
            AddressingMode::Extended
        }
    }

    /// The number that stands for the mode.
    pub open spec fn number(self) -> u8 {
        match self {
            AddressingMode::Normal => 0,
            AddressingMode::Extended => 1,
        }
    }

    /// Index of the PCI byte.
    pub open spec fn pci_index(self) -> int {
        match self {
            AddressingMode::Normal => 0,
            AddressingMode::Extended => 1,
        }
    }

    /// Zero is Normal, every other number Extended.
    pub fn from_u8(v: u8) -> (mode: AddressingMode)
        ensures
            mode == AddressingMode::of_u8(v),
    {
        if v == 0 {
            AddressingMode::Normal
        } else {
            AddressingMode::Extended
        }
    }

    /// The number that stands for the mode.
    pub fn to_u8(self) -> (v: u8)
        ensures
            v == self.number(),
            AddressingMode::of_u8(v) == self,
    {
        match self {
            AddressingMode::Normal => 0,
            AddressingMode::Extended => 1,
        }
    }

    /// Index of the PCI byte.
    pub fn pci_byte_offset(self) -> (o: usize)
        ensures
            o == self.pci_index(),
    {
        match self {
            AddressingMode::Normal => 0,
            AddressingMode::Extended => 1,
        }
    }
}

/// Why an exchange failed.
#[derive(Clone, Copy, Debug, PartialEq, Eq, Structural)]
pub enum IsoTpError {
    /// N_As / N_Ar: a frame was not sent in time.
    TimeoutA,
    /// N_Bs: no Flow Control came.
    TimeoutBs,
    /// N_Cr: no frame of the response came.
    TimeoutCr,
    /// A Consecutive Frame had an unexpected sequence number.
    WrongSn,
    /// A Flow Control carried a reserved status.
    InvalidFs,
    /// Too many Flow Control WAIT frames came.
    WftOverrun,
    BufferOverflow,
    DriverError,
    InvalidId,
}

/// How the transmission of a frame ended.
#[derive(Clone, Copy, Debug, PartialEq, Eq, Structural)]
pub enum TxEvent {
    Sent,
    TimedOut,
    /// The driver failed, or refused to make the frame.
    Failed,
}

impl TxEvent {
    /// What the end of a transmission means to the exchange.
    pub open spec fn outcome(self) -> Result<(), IsoTpError> {
        match self {
            TxEvent::Sent => Ok(()),
            TxEvent::TimedOut => Err(IsoTpError::TimeoutA),
            TxEvent::Failed => Err(IsoTpError::DriverError),
        }
    }

    /// `TimeoutA` after a timeout, `DriverError` after a failure.
    pub fn result(self) -> (r: Result<(), IsoTpError>)
        ensures
            r == self.outcome(),
    {
        match self {
            TxEvent::Sent => Ok(()),
            TxEvent::TimedOut => Err(IsoTpError::TimeoutA),
            TxEvent::Failed => Err(IsoTpError::DriverError),
        }
    }
}

/// How a wait for a frame ended.
#[derive(Clone, Copy, Debug)]
pub enum RxEvent<'a> {
    TimedOut,
    Failed,
    Frame { id: CanId, data: &'a [u8] },
}

/// What happened to the last thing that an exchange asked for.
#[derive(Clone, Copy, Debug)]
pub enum Event<'a> {
    Tx(TxEvent),
    Rx(RxEvent<'a>),
    Elapsed,
}

/// What an exchange asks for.
#[derive(Clone, Copy, Debug)]
pub enum Action {
    /// Send `frame`; give up after `timeout_us`. Answered by [`Event::Tx`].
    Transmit { id: CanId, frame: [u8; 8], timeout_us: u64 },
    /// Wait for any frame; give up after `timeout_us`. Answered by [`Event::Rx`].
    Receive { timeout_us: u64 },
    /// Wait `duration_us`. Answered by [`Event::Elapsed`].
    Pause { duration_us: u64 },
}

/// What an exchange asks for, with the frame as a sequence.
#[verifier::ext_equal]
pub enum ActionView {
    Transmit { id: CanId, frame: Seq<u8>, timeout_us: u64 },
    Receive { timeout_us: u64 },
    Pause { duration_us: u64 },
}

impl View for Action {
    type V = ActionView;

    open spec fn view(&self) -> ActionView {
        match self {
            Action::Transmit { id, frame, timeout_us } => ActionView::Transmit {
                id: *id,
                frame: frame@,
                timeout_us: *timeout_us,
            },
            Action::Receive { timeout_us } => ActionView::Receive { timeout_us: *timeout_us },
            Action::Pause { duration_us } => ActionView::Pause { duration_us: *duration_us },
        }
    }
}

impl ActionView {
    /// `event` answers this action.
    pub open spec fn answered_by(self, event: Event) -> bool {
        match self {
            ActionView::Transmit { .. } => event is Tx,
            ActionView::Receive { .. } => event is Rx,
            ActionView::Pause { .. } => event is Elapsed,
        }
    }
}

/// Deadlines computed from `now` stay in the range of the clock.
pub open spec fn clock_in_range(now: u64) -> bool {
    now <= u64::MAX - N_BS_TIMEOUT
}

} // verus!
