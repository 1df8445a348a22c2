//! The ISO-TP endpoint: its addressing, its identifier rules, and what it does with a frame.
use vstd::prelude::*;

use super::frame::{
    flow_control_bytes,
    flow_control_frame,
    single_capacity,
    single_frame,
    single_frame_bytes,
};
use super::mapper::{IdMapper, Obd2IdMapper};
use super::transfer::{Transfer, TransferState};
use super::types::{
    AddressingMode,
    FlowStatus,
    IsoTpError,
    PciType,
    FC_BS,
    FC_STMIN,
    MAX_RECEIVE_LEN,
};
use crate::can::id::CanId;

verus! {

/// An ISO-TP endpoint on a CAN driver.
#[derive(Debug)]
pub struct IsoTpHandler<D, M: IdMapper = Obd2IdMapper> {
    driver: D,
    addressing: u8,
    /// Stands first in every frame in Extended mode.
    target_addr: u8,
    mapper: M,
}

/// What a received frame did to a transfer.
#[derive(Clone, Copy, Debug)]
pub enum Dispatch {
    /// The frame was ignored; the transfer is as it was.
    Ignored,
    /// The frame was taken; more have to come.
    Incomplete,
    /// The message is complete.
    Complete,
    Failed(IsoTpError),
    /// A First Frame has to be answered by the Flow Control `frame` on `id`. With `overflow` the
    /// message was refused, and is lost once the answer is out.
    Answer { id: CanId, frame: [u8; 8], overflow: bool },
}

/// What a received frame did to a transfer, with the answer as a sequence.
#[verifier::ext_equal]
pub enum DispatchView {
    Ignored,
    Incomplete,
    Complete,
    Failed(IsoTpError),
    Answer { id: CanId, frame: Seq<u8>, overflow: bool },
}

impl View for Dispatch {
    type V = DispatchView;

    open spec fn view(&self) -> DispatchView {
        match self {
            Dispatch::Ignored => DispatchView::Ignored,
            Dispatch::Incomplete => DispatchView::Incomplete,
            Dispatch::Complete => DispatchView::Complete,
            Dispatch::Failed(e) => DispatchView::Failed(*e),
            Dispatch::Answer { id, frame, overflow } => DispatchView::Answer {
                id: *id,
                frame: frame@,
                overflow: *overflow,
            },
        }
    }
}

/// What an endpoint needs to know to read and answer frames.
pub struct Endpoint<M> {
    pub mode: AddressingMode,
    pub target: u8,
    pub mapper: M,
}

/// The length that a First Frame announces, from its PCI byte on.
pub open spec fn announced_length(d: Seq<u8>) -> int {
    (d[0] % 16) * 256 + d[1]
}

/// What a frame has done that was taken or not, and has completed the message or not.
pub open spec fn progress(taken: bool, r: Result<bool, IsoTpError>) -> DispatchView {
    match r {
        Ok(true) => DispatchView::Complete,
        Ok(false) => if taken {
            DispatchView::Incomplete
        } else {
            DispatchView::Ignored
        },
        Err(e) => DispatchView::Failed(e),
    }
}

impl<M: IdMapper> Endpoint<M> {
    /// A First Frame on `id`, from its PCI byte on. One that is too short, or that announces what a
    /// Single Frame would hold, is ignored. One that announces more than the buffer holds is
    /// answered by Overflow, any other by ContinueToSend.
    pub open spec fn on_first(self, t: Transfer, id: CanId, d: Seq<u8>) -> (
        Transfer,
        DispatchView,
    ) {
        if d.len() < 3 || announced_length(d) < 8 - self.mode.pci_index() {
            (t, DispatchView::Ignored)
        } else {
            match self.mapper.fc_sender_id(id) {
                Err(e) => (t, DispatchView::Failed(e)),
                Ok(fc_id) => if announced_length(d) > MAX_RECEIVE_LEN {
                    (
                        t,
                        DispatchView::Answer {
                            id: fc_id,
                            frame: flow_control_bytes(
                                self.mode,
                                self.target,
                                FlowStatus::Overflow,
                                0,
                                0,
                            ),
                            overflow: true,
                        },
                    )
                } else {
                    (
                        t.after_first(d, announced_length(d)),
                        DispatchView::Answer {
                            id: fc_id,
                            frame: flow_control_bytes(
                                self.mode,
                                self.target,
                                FlowStatus::ContinueToSend,
                                FC_BS,
                                FC_STMIN,
                            ),
                            overflow: false,
                        },
                    )
                },
            }
        }
    }

    /// A frame on `id` that holds `data`. A frame without a PCI byte, a Flow Control, a frame of no
    /// known kind and one that is malformed are ignored.
    pub open spec fn dispatch(self, t: Transfer, id: CanId, data: Seq<u8>) -> (
        Transfer,
        DispatchView,
    ) {
        let o = self.mode.pci_index();
        if data.len() <= o {
            (t, DispatchView::Ignored)
        } else {
            let d = data.skip(o);
            match PciType::of_pci_byte(data[o]) {
                Some(PciType::SingleFrame) => (
                    t.after_single(d).0,
                    progress(false, t.after_single(d).1),
                ),
                Some(PciType::FirstFrame) => self.on_first(t, id, d),
                Some(PciType::ConsecutiveFrame) => (
                    t.after_consecutive(d).0,
                    progress(d.len() >= 2, t.after_consecutive(d).1),
                ),
                _ => (t, DispatchView::Ignored),
            }
        }
    }
}

fn to_dispatch(taken: bool, r: Result<bool, IsoTpError>) -> (outcome: Dispatch)
    ensures
        outcome@ == progress(taken, r),
{
    match r {
        Ok(true) => Dispatch::Complete,
        Ok(false) => if taken {
            Dispatch::Incomplete
        } else {
            Dispatch::Ignored
        },
        Err(e) => Dispatch::Failed(e),
    }
}

impl<D> IsoTpHandler<D, Obd2IdMapper> {
    /// An endpoint in Normal mode.
    pub fn new(driver: D) -> (h: IsoTpHandler<D, Obd2IdMapper>)
        ensures
            h.link() == driver,
            h.mode() == AddressingMode::Normal,
            h.target() == 0,
            h.id_mapper().mode() == AddressingMode::Normal,
    {
        IsoTpHandler {
            driver,
            addressing: AddressingMode::Normal.to_u8(),
            target_addr: 0,
            mapper: Obd2IdMapper::new(AddressingMode::Normal),
        }
    }

    /// An endpoint in Extended mode with the given target address.
    pub fn with_target_addr(driver: D, target_addr: u8) -> (h: IsoTpHandler<D, Obd2IdMapper>)
        ensures
            h.link() == driver,
            h.mode() == AddressingMode::Extended,
            h.target() == target_addr,
            h.id_mapper().mode() == AddressingMode::Extended,
    {
        IsoTpHandler {
            driver,
            addressing: AddressingMode::Extended.to_u8(),
            target_addr,
            mapper: Obd2IdMapper::new(AddressingMode::Extended),
        }
    }

    /// Switches to Extended mode.
    pub fn to_extended_adr(&mut self, target_addr: u8)
        ensures
            final(self).link() == old(self).link(),
            final(self).mode() == AddressingMode::Extended,
            final(self).target() == target_addr,
            final(self).id_mapper().mode() == AddressingMode::Extended,
    {
        self.addressing = AddressingMode::Extended.to_u8();
        self.target_addr = target_addr;
        self.mapper.to_extended_adr();
    }

    /// Switches to Normal mode. The target address is kept.
    pub fn to_normal_addr(&mut self)
        ensures
            final(self).link() == old(self).link(),
            final(self).mode() == AddressingMode::Normal,
            final(self).target() == old(self).target(),
            final(self).id_mapper().mode() == AddressingMode::Normal,
    {
        self.addressing = AddressingMode::Normal.to_u8();
        self.mapper.to_normal_addr();
    }
}

impl<D, M: IdMapper> IsoTpHandler<D, M> {
    /// The CAN driver.
    pub closed spec fn link(&self) -> D {
        self.driver
    }

    /// The addressing mode.
    pub closed spec fn mode(&self) -> AddressingMode {
        AddressingMode::of_u8(self.addressing)
    }

    /// The target address of Extended mode.
    pub closed spec fn target(&self) -> u8 {
        self.target_addr
    }

    /// The identifier rules.
    pub closed spec fn id_mapper(&self) -> M {
        self.mapper
    }

    /// What the endpoint knows to read and answer frames.
    pub open spec fn endpoint(&self) -> Endpoint<M> {
        Endpoint { mode: self.mode(), target: self.target(), mapper: self.id_mapper() }
    }

    /// An endpoint with other identifier rules.
    pub fn with_mapper(driver: D, addressing: AddressingMode, target_addr: u8, mapper: M) -> (h:
        IsoTpHandler<D, M>)
        ensures
            h.link() == driver,
            h.mode() == addressing,
            h.target() == target_addr,
            h.id_mapper() == mapper,
    {
        IsoTpHandler { driver, addressing: addressing.to_u8(), target_addr, mapper }
    }

    /// The CAN driver.
    pub fn driver(&self) -> (driver: &D)
        ensures
            *driver == self.link(),
    {
        &self.driver
    }

    /// The identifier rules.
    pub fn mapper(&self) -> (mapper: &M)
        ensures
            *mapper == self.id_mapper(),
    {
        &self.mapper
    }

    /// The target address of Extended mode.
    pub fn target_addr(&self) -> (target: u8)
        ensures
            target == self.target(),
    {
        self.target_addr
    }

    pub fn addressing_mode(&self) -> (mode: AddressingMode)
        ensures
            mode == self.mode(),
    {
        AddressingMode::from_u8(self.addressing)
    }

    /// Whether the endpoint is in Extended mode.
    pub fn is_extended_addressing(&self) -> (r: bool)
        ensures
            r == (self.mode() == AddressingMode::Extended),
    {
        self.addressing_mode() == AddressingMode::Extended
    }

    /// Index of the PCI byte in a frame.
    pub fn pci_byte_offset(&self) -> (o: usize)
        ensures
            o == self.mode().pci_index(),
    {
        self.addressing_mode().pci_byte_offset()
    }

    /// The Single Frame that sends `data`, or `BufferOverflow` where it does not fit one.
    pub fn send_single_frame(&self, data: &[u8]) -> (r: Result<[u8; 8], IsoTpError>)
        ensures
            match r {
                Ok(frame) => {
                    &&& data@.len() <= single_capacity(self.mode())
                    &&& frame@ == single_frame_bytes(self.mode(), self.target(), data@)
                },
                Err(e) => {
                    &&& data@.len() > single_capacity(self.mode())
                    &&& e == IsoTpError::BufferOverflow
                },
            },
    {
        if data.len() > 7 - self.pci_byte_offset() {
            return Err(IsoTpError::BufferOverflow);
        }
        Ok(single_frame(self.addressing_mode(), self.target_addr, data))
    }

    /// The Flow Control frame with the given status, block size and separation time.
    pub fn transmit_flow_control(&self, status: FlowStatus, bs: u8, st_min: u8) -> (frame: [u8; 8])
        ensures
            frame@ == flow_control_bytes(self.mode(), self.target(), status, bs, st_min),
    {
        flow_control_frame(self.addressing_mode(), self.target_addr, status, bs, st_min)
    }

    /// Handles a First Frame on `id`, given from its PCI byte on.
    pub fn process_first_frame(&self, state: &mut TransferState, id: CanId, d: &[u8]) -> (r:
        Dispatch)
        requires
            id.valid(),
        ensures
            (final(state)@, r@) == self.endpoint().on_first(old(state)@, id, d@),
            r matches Dispatch::Answer { id: fc_id, .. } ==> fc_id.valid(),
    {
        if d.len() < 3 {
            return Dispatch::Ignored;
        }
        let ff_dl: usize = (d[0] % 16) as usize * 256 + d[1] as usize;
        if ff_dl < 8 - self.pci_byte_offset() {
            return Dispatch::Ignored;
        }
        let fc_id = match self.mapper.derive_fc_sender_id(id) {
            Ok(fc_id) => fc_id,
            Err(e) => {
                return Dispatch::Failed(e);
            },
        };
        if ff_dl > MAX_RECEIVE_LEN {
            let frame = self.transmit_flow_control(FlowStatus::Overflow, 0, 0);
            return Dispatch::Answer { id: fc_id, frame, overflow: true };
        }
        match state.apply_first_frame(d, ff_dl) {
            Ok(()) => {},
            Err(e) => {
                return Dispatch::Failed(e);
            },
        }
        let frame = self.transmit_flow_control(FlowStatus::ContinueToSend, FC_BS, FC_STMIN);
        Dispatch::Answer { id: fc_id, frame, overflow: false }
    }

    /// Handles a Single Frame, given from its PCI byte on.
    pub fn process_single_frame(&self, state: &mut TransferState, d: &[u8]) -> (r: Result<
        bool,
        IsoTpError,
    >)
        requires
            d@.len() > 0,
        ensures
            (final(state)@, r) == old(state)@.after_single(d@),
    {
        state.apply_single_frame(d)
    }

    /// Handles a Consecutive Frame, given from its PCI byte on.
    pub fn process_consecutive_frame(&self, state: &mut TransferState, d: &[u8]) -> (r: Result<
        bool,
        IsoTpError,
    >)
        requires
            old(state)@.buffer.len() <= old(state)@.rx_dl,
        ensures
            (final(state)@, r) == old(state)@.after_consecutive(d@),
    {
        state.apply_consecutive_frame(d)
    }

    /// Routes a received frame by its kind.
    pub fn dispatch_frame(&self, state: &mut TransferState, id: CanId, data: &[u8]) -> (r: Dispatch)
        requires
            id.valid(),
            old(state)@.buffer.len() <= old(state)@.rx_dl,
        ensures
            (final(state)@, r@) == self.endpoint().dispatch(old(state)@, id, data@),
            r matches Dispatch::Answer { id: fc_id, .. } ==> fc_id.valid(),
    {
        let o: usize = self.pci_byte_offset();
        if data.len() <= o {
            return Dispatch::Ignored;
        }
        let d = &data[o..data.len()];
        assert(d@ == data@.skip(o as int));
        match PciType::from_pci_byte(data[o]) {
            Some(PciType::SingleFrame) => to_dispatch(false, self.process_single_frame(state, d)),
            Some(PciType::FirstFrame) => self.process_first_frame(state, id, d),
            Some(PciType::ConsecutiveFrame) => {
                let taken = d.len() >= 2;
                to_dispatch(taken, self.process_consecutive_frame(state, d))
            },
            _ => Dispatch::Ignored,
        }
    }
}

} // verus!
