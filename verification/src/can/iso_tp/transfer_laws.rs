//! Laws of one frame and the transfer it belongs to, told by the frame's bytes.
use vstd::prelude::*;

use super::functional::{PendingAnswer, PendingView};
use super::handler::{Dispatch, DispatchView, Endpoint};
use super::mapper::IdMapper;
use super::transfer::{EcuResponse, Transfer, TransferState};
use super::types::{AddressingMode, IsoTpError};
use crate::bounded::payload_bytes;
use crate::can::id::CanId;

verus! {

/// A transfer holds what its fields say, and a response is its sender and its bytes.
pub proof fn law_values_of_transfers(state: TransferState, response: EcuResponse)
    ensures
        state@.id == state.id,
        state@.rx_dl == state.rx_dl,
        state@.next_sn == state.next_sn,
        state@.buffer == payload_bytes(state.buffer),
        state@.last_frame_at == state.last_frame_at,
        response@.id == response.id,
        response@.data == payload_bytes(response.data),
{
}

/// A transfer that has seen no frame, and one whose message was handed over, expect number 1 and
/// hold and announce nothing.
pub proof fn law_idle_transfers(id: CanId, t: Transfer)
    ensures
        ({
            let fresh = Transfer::fresh(id);
            let idle = t.emptied();
            &&& fresh.id == id && fresh.last_frame_at is None
            &&& fresh.rx_dl == 0 && fresh.next_sn == 1 && fresh.buffer.len() == 0
            &&& idle.id == t.id && idle.last_frame_at == t.last_frame_at
            &&& idle.rx_dl == 0 && idle.next_sn == 1 && idle.buffer.len() == 0
        }),
{
}

/// A transfer waits for one second after each frame, from its First Frame on.
pub proof fn law_transfers_wait_one_second(t: Transfer, seen: u64, now: u64)
    requires
        t.last_frame_at == Some(seen),
        seen <= now,
    ensures
        t.rx_dl > 0 ==> (t.live(now) <==> now < seen + 1_000_000),
        t.rx_dl == 0 ==> t.live(now),
{
}

/// A frame whose PCI byte is 1 to 7 and that holds as many bytes more is a whole message: they are
/// appended and complete the transfer. Where they do not fit, the transfer fails. Any other Single
/// Frame is ignored.
pub proof fn law_single_frame_completes<M: IdMapper>(
    endpoint: Endpoint<M>,
    t: Transfer,
    id: CanId,
    data: Seq<u8>,
)
    requires
        data.len() > (if endpoint.mode == AddressingMode::Normal {
            0int
        } else {
            1int
        }),
    ensures
        ({
            let o = if endpoint.mode == AddressingMode::Normal {
                0int
            } else {
                1int
            };
            let len = data[o] as int;
            let (after, outcome) = endpoint.dispatch(t, id, data);
            data[o] < 16 ==> {
                if len == 0 || len > 7 || data.len() < o + 1 + len {
                    after == t && outcome == DispatchView::Ignored
                } else if t.buffer.len() + len > 256 {
                    after == t && outcome == DispatchView::Failed(IsoTpError::BufferOverflow)
                } else {
                    &&& outcome == DispatchView::Complete
                    &&& after.buffer == t.buffer + data.subrange(o + 1, o + 1 + len)
                    &&& after.id == t.id && after.rx_dl == t.rx_dl && after.next_sn == t.next_sn
                    &&& after.last_frame_at == t.last_frame_at
                }
            }
        }),
{
    let o = endpoint.mode.pci_index();
    let len = data[o] as int;
    let d = data.skip(o);
    assert(d[0] == data[o]);
    if data[o] < 16 && len <= 7 && data.len() >= o + 1 + len {
        assert(d.subrange(1, 1 + len) == data.subrange(o + 1, o + 1 + len));
    }
}

/// A First Frame that announces 8 to 256 bytes in Normal mode, 7 to 256 in Extended mode, starts
/// the transfer over with its own bytes and is granted everything, 25 ms apart. One that announces
/// more is refused, one that announces less or is cut short is ignored, and where there is no
/// identifier to answer on the transfer fails.
pub proof fn law_first_frame_starts_over<M: IdMapper>(
    endpoint: Endpoint<M>,
    t: Transfer,
    id: CanId,
    data: Seq<u8>,
)
    requires
        data.len() > (if endpoint.mode == AddressingMode::Normal {
            0int
        } else {
            1int
        }),
    ensures
        ({
            let o = if endpoint.mode == AddressingMode::Normal {
                0int
            } else {
                1int
            };
            let len = (data[o] % 16) * 256 + data[o + 1];
            let (after, outcome) = endpoint.dispatch(t, id, data);
            data[o] / 16 == 1 ==> if data.len() < o + 3 || len < 8 - o {
                after == t && outcome == DispatchView::Ignored
            } else {
                match (endpoint.mapper.fc_sender_id(id), outcome) {
                    (Err(e), DispatchView::Failed(f)) => e == f && after == t,
                    (Ok(to), DispatchView::Answer { id: fc_id, frame, overflow }) => {
                        &&& fc_id == to
                        &&& overflow <==> len > 256
                        &&& frame.len() == 8
                        &&& o == 1 ==> frame[0] == endpoint.target
                        &&& frame[o] == if overflow {
                            0x32u8
                        } else {
                            0x30u8
                        }
                        &&& frame[o + 1] == 0
                        &&& frame[o + 2] == if overflow {
                            0u8
                        } else {
                            25u8
                        }
                        &&& forall|i: int| o + 3 <= i < 8 ==> #[trigger] frame[i] == 0xCC
                        &&& overflow ==> after == t
                        &&& !overflow ==> {
                            &&& after.id == t.id && after.last_frame_at == t.last_frame_at
                            &&& after.rx_dl == len
                            &&& after.next_sn == 1
                            &&& data.len() <= 8 + o ==> after.buffer == data.skip(o + 2)
                            &&& data.len() > 8 + o ==> after.buffer == data.subrange(o + 2, o + 8)
                        }
                    },
                    _ => false,
                }
            }
        }),
{
    let o = endpoint.mode.pci_index();
    let d = data.skip(o);
    if data.len() > o + 1 {
        assert(d[0] == data[o] && d[1] == data[o + 1]);
    }
    if data.len() >= o + 3 {
        let end = if d.len() < 8 {
            d.len() as int
        } else {
            8
        };
        if data.len() <= 8 + o {
            assert(d.subrange(2, end) == data.skip(o + 2));
        } else {
            assert(d.subrange(2, end) == data.subrange(o + 2, o + 8));
        }
    }
}

/// A Consecutive Frame with the expected number appends its bytes as far as they were announced,
/// the next number follows modulo 16, and the message is complete once nothing is missing.
pub proof fn law_consecutive_frame_goes_on<M: IdMapper>(
    endpoint: Endpoint<M>,
    t: Transfer,
    id: CanId,
    data: Seq<u8>,
)
    requires
        t.buffer.len() <= t.rx_dl <= 256,
        data.len() > (if endpoint.mode == AddressingMode::Normal {
            1int
        } else {
            2int
        }),
    ensures
        ({
            let o = if endpoint.mode == AddressingMode::Normal {
                0int
            } else {
                1int
            };
            let missing = t.rx_dl - t.buffer.len();
            let held = data.len() - o - 1;
            let (after, outcome) = endpoint.dispatch(t, id, data);
            data[o] / 16 == 2 ==> if data[o] % 16 != t.next_sn {
                after == t && outcome == DispatchView::Failed(IsoTpError::WrongSn)
            } else {
                &&& after.id == t.id && after.rx_dl == t.rx_dl
                &&& after.last_frame_at == t.last_frame_at
                &&& after.next_sn == (t.next_sn + 1) % 16
                &&& held < missing ==> {
                    &&& after.buffer == t.buffer + data.skip(o + 1)
                    &&& outcome == DispatchView::Incomplete
                }
                &&& held >= missing ==> {
                    &&& after.buffer == t.buffer + data.subrange(o + 1, o + 1 + missing)
                    &&& outcome == DispatchView::Complete
                }
            }
        }),
{
    let o = endpoint.mode.pci_index();
    let d = data.skip(o);
    assert(d[0] == data[o]);
    let missing = t.rx_dl - t.buffer.len();
    if d.len() - 1 < missing {
        assert(d.subrange(1, d.len() as int) == data.skip(o + 1));
    } else {
        assert(d.subrange(1, 1 + missing) == data.subrange(o + 1, o + 1 + missing));
    }
}

/// A frame without a PCI byte, a Flow Control, a frame of another kind, and a Consecutive Frame
/// without bytes are ignored.
pub proof fn law_other_frames_are_ignored<M: IdMapper>(
    endpoint: Endpoint<M>,
    t: Transfer,
    id: CanId,
    data: Seq<u8>,
)
    ensures
        ({
            let o = if endpoint.mode == AddressingMode::Normal {
                0int
            } else {
                1int
            };
            data.len() <= o || data[o] >= 0x30 || (data[o] / 16 == 2 && data.len() == o + 1)
                ==> endpoint.dispatch(t, id, data) == (t, DispatchView::Ignored)
        }),
{
}

/// What a frame did, and an answer that has to go out, are what their fields say.
pub proof fn law_values_of_dispatches(
    id: CanId,
    frame: [u8; 8],
    overflow: bool,
    e: IsoTpError,
)
    ensures
        Dispatch::Ignored@ == DispatchView::Ignored,
        Dispatch::Incomplete@ == DispatchView::Incomplete,
        Dispatch::Complete@ == DispatchView::Complete,
        Dispatch::Failed(e)@ == DispatchView::Failed(e),
        (Dispatch::Answer { id, frame, overflow })@ == (DispatchView::Answer {
            id,
            frame: frame@,
            overflow,
        }),
        (PendingAnswer { id, frame, overflow })@ == (PendingView { id, frame: frame@, overflow }),
{
}

} // verus!
