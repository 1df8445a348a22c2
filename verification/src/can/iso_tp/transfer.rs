//! Reassembly of one message from its frames.
use vstd::prelude::*;

use super::types::{IsoTpError, N_CR_TIMEOUT};
use crate::bounded::{
    payload_bytes,
    payload_clear,
    payload_clone,
    payload_extend,
    payload_new,
    payload_slice,
};
use crate::can::id::CanId;

verus! {

/// A complete response and the identifier it came from.
#[derive(Debug)]
pub struct EcuResponse {
    pub id: CanId,
    pub data: heapless::Vec<u8, 256>,
}

/// A response as a value: sender and message.
#[verifier::ext_equal]
pub struct Reply {
    pub id: CanId,
    pub data: Seq<u8>,
}

impl View for EcuResponse {
    type V = Reply;

    open spec fn view(&self) -> Reply {
        Reply { id: self.id, data: payload_bytes(self.data) }
    }
}

impl Clone for EcuResponse {
    fn clone(&self) -> (copy: EcuResponse)
        ensures
            copy@ == self@,
    {
        EcuResponse { id: self.id, data: payload_clone(&self.data) }
    }
}

/// The progress of one message.
#[derive(Debug)]
pub struct TransferState {
    pub id: CanId,
    /// Length that the First Frame announced; 0 while none has.
    pub rx_dl: usize,
    /// Sequence number that the next Consecutive Frame has to carry.
    pub next_sn: u8,
    pub buffer: heapless::Vec<u8, 256>,
    /// When the last frame of this sender came, in microseconds.
    pub last_frame_at: Option<u64>,
}

/// The progress of one message, with its bytes as a sequence.
#[verifier::ext_equal]
pub struct Transfer {
    pub id: CanId,
    pub rx_dl: int,
    pub next_sn: u8,
    pub buffer: Seq<u8>,
    pub last_frame_at: Option<u64>,
}

impl View for TransferState {
    type V = Transfer;

    open spec fn view(&self) -> Transfer {
        Transfer {
            id: self.id,
            rx_dl: self.rx_dl as int,
            next_sn: self.next_sn,
            buffer: payload_bytes(self.buffer),
            last_frame_at: self.last_frame_at,
        }
    }
}

impl Transfer {
    /// A transfer that has seen no frame.
    pub open spec fn fresh(id: CanId) -> Transfer {
        Transfer { id, rx_dl: 0, next_sn: 1, buffer: Seq::empty(), last_frame_at: None }
    }

    /// No more bytes are held than were announced, and no more were announced than fit.
    pub open spec fn well_formed(self) -> bool {
        &&& self.buffer.len() <= self.rx_dl <= 256
        &&& self.next_sn < 16
    }

    /// The last frame came no later than `now`.
    pub open spec fn seen_by(self, now: u64) -> bool {
        self.last_frame_at matches Some(t) ==> t <= now
    }

    /// The transfer is idle, or its last frame is less than N_Cr ago.
    pub open spec fn live(self, now: u64) -> bool {
        self.rx_dl == 0 || (self.last_frame_at matches Some(t) ==> now - t < N_CR_TIMEOUT)
    }

    /// A Single Frame, from its PCI byte on. A length of 0, one over 7, or one that the frame does
    /// not hold is ignored. The flag says whether the message is complete.
    pub open spec fn after_single(self, d: Seq<u8>) -> (Transfer, Result<bool, IsoTpError>) {
        let len = (d[0] % 16) as int;
        if len == 0 || len > 7 || d.len() < 1 + len {
            (self, Ok(false))
        } else if self.buffer.len() + len > 256 {
            (self, Err(IsoTpError::BufferOverflow))
        } else {
            (Transfer { buffer: self.buffer + d.subrange(1, 1 + len), ..self }, Ok(true))
        }
    }

    /// A First Frame, from its PCI byte on: the transfer starts over with the frame's bytes.
    pub open spec fn after_first(self, d: Seq<u8>, ff_dl: int) -> Transfer {
        let end = if d.len() < 8 {
            d.len() as int
        } else {
            8
        };
        Transfer { rx_dl: ff_dl, next_sn: 1, buffer: d.subrange(2, end), ..self }
    }

    /// A Consecutive Frame, from its PCI byte on: its bytes are appended, up to the announced
    /// length. One that holds nothing is ignored, one with another number than the expected fails.
    /// The flag says whether the message is complete; where nothing was announced it is.
    pub open spec fn after_consecutive(self, d: Seq<u8>) -> (Transfer, Result<bool, IsoTpError>) {
        let missing = self.rx_dl - self.buffer.len();
        let count = if missing < d.len() - 1 {
            missing
        } else {
            d.len() - 1
        };
        if d.len() < 2 {
            (self, Ok(false))
        } else if d[0] % 16 != self.next_sn {
            (self, Err(IsoTpError::WrongSn))
        } else if self.buffer.len() + count > 256 {
            (self, Err(IsoTpError::BufferOverflow))
        } else {
            (
                Transfer {
                    buffer: self.buffer + d.subrange(1, 1 + count),
                    next_sn: ((self.next_sn + 1) % 16) as u8,
                    ..self
                },
                Ok(count == missing),
            )
        }
    }

    /// The transfer once its message was handed over: idle again.
    pub open spec fn emptied(self) -> Transfer {
        Transfer { rx_dl: 0, next_sn: 1, buffer: Seq::empty(), ..self }
    }
}

impl TransferState {
    /// A transfer that has seen no frame.
    pub fn new(id: CanId) -> (s: TransferState)
        ensures
            s@ == Transfer::fresh(id),
    {
        TransferState { id, rx_dl: 0, next_sn: 1, buffer: payload_new(), last_frame_at: None }
    }

    /// Whether the transfer is idle, or its last frame is less than N_Cr ago.
    pub fn is_live(&self, now: u64) -> (live: bool)
        requires
            self@.seen_by(now),
        ensures
            live == self@.live(now),
    {
        if self.rx_dl == 0 {
            return true;
        }
        match self.last_frame_at {
            Some(t) => now - t < N_CR_TIMEOUT,
            None => true,
        }
    }

    /// Whether the transfer belongs to another identifier than `id`.
    pub fn is_other(&self, id: CanId) -> (other: bool)
        ensures
            other == (self@.id != id),
    {
        self.id != id
    }

    /// Applies a Single Frame, given from its PCI byte on. Returns true when the message is
    /// complete.
    pub fn apply_single_frame(&mut self, data: &[u8]) -> (r: Result<bool, IsoTpError>)
        requires
            data@.len() > 0,
        ensures
            (final(self)@, r) == old(self)@.after_single(data@),
    {
        let len: usize = (data[0] % 16) as usize;
        if len == 0 || len > 7 || data.len() < 1 + len {
            return Ok(false);
        }
        match payload_extend(&mut self.buffer, &data[1..1 + len]) {
            Ok(()) => Ok(true),
            Err(()) => Err(IsoTpError::BufferOverflow),
        }
    }

    /// Applies a First Frame that announces `ff_dl` bytes, given from its PCI byte on.
    pub fn apply_first_frame(&mut self, data: &[u8], ff_dl: usize) -> (r: Result<(), IsoTpError>)
        requires
            data@.len() >= 2,
        ensures
            r is Ok,
            final(self)@ == old(self)@.after_first(data@, ff_dl as int),
    {
        self.rx_dl = ff_dl;
        self.next_sn = 1;
        payload_clear(&mut self.buffer);
        let end: usize = if data.len() < 8 {
            data.len()
        } else {
            8
        };
        let r = payload_extend(&mut self.buffer, &data[2..end]);
        assert(payload_bytes(self.buffer) == data@.subrange(2, end as int));
        match r {
            Ok(()) => Ok(()),
            Err(()) => Err(IsoTpError::BufferOverflow),
        }
    }

    /// Applies a Consecutive Frame, given from its PCI byte on. Returns true when all announced
    /// bytes have come.
    pub fn apply_consecutive_frame(&mut self, data: &[u8]) -> (r: Result<bool, IsoTpError>)
        requires
            old(self)@.buffer.len() <= old(self)@.rx_dl,
        ensures
            (final(self)@, r) == old(self)@.after_consecutive(data@),
    {
        if data.len() < 2 {
            return Ok(false);
        }
        if data[0] % 16 != self.next_sn {
            return Err(IsoTpError::WrongSn);
        }
        let missing: usize = self.rx_dl - payload_slice(&self.buffer).len();
        let to_copy: usize = if missing < data.len() - 1 {
            missing
        } else {
            data.len() - 1
        };
        match payload_extend(&mut self.buffer, &data[1..1 + to_copy]) {
            Ok(()) => {},
            Err(()) => {
                return Err(IsoTpError::BufferOverflow);
            },
        }
        self.next_sn = (self.next_sn + 1) % 16;
        Ok(payload_slice(&self.buffer).len() >= self.rx_dl)
    }

    /// Takes the message out and makes the transfer idle.
    pub fn take_message(&mut self) -> (data: heapless::Vec<u8, 256>)
        ensures
            payload_bytes(data) == old(self)@.buffer,
            final(self)@ == old(self)@.emptied(),
    {
        let mut data = payload_new();
        core::mem::swap(&mut data, &mut self.buffer);
        self.rx_dl = 0;
        self.next_sn = 1;
        data
    }
}

} // verus!
