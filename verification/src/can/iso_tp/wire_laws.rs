//! Laws of the bytes on the bus: what stands where in a frame, and how it is read.
use vstd::prelude::*;

use super::frame::{
    consecutive_frame_bytes,
    first_capacity,
    first_frame_bytes,
    flow_control_bytes,
    single_capacity,
    single_frame_bytes,
};
use super::laws::{segment, segments};
use super::send::separation_time;
use super::types::{AddressingMode, FlowStatus, IsoTpError, PciType, TxEvent};

verus! {

/// In Normal mode the PCI byte comes first and a frame carries up to 7 bytes of a message, 6 where
/// it is a First Frame. In Extended mode the target address comes first, and a frame carries one
/// byte less.
pub proof fn law_room_in_a_frame(mode: AddressingMode)
    ensures
        mode == AddressingMode::Normal ==> mode.pci_index() == 0 && single_capacity(mode) == 7
            && first_capacity(mode) == 6,
        mode == AddressingMode::Extended ==> mode.pci_index() == 1 && single_capacity(mode) == 6
            && first_capacity(mode) == 5,
{
}

/// Normal mode is 0 and Extended mode 1; every other number is read as Extended mode.
pub proof fn law_mode_numbers(v: u8)
    ensures
        AddressingMode::Normal.number() == 0,
        AddressingMode::Extended.number() == 1,
        AddressingMode::of_u8(v) == AddressingMode::Normal <==> v == 0,
        AddressingMode::of_u8(v) == AddressingMode::Extended <==> v != 0,
{
}

/// The high half of a PCI byte tells the kind of its frame.
pub proof fn law_kinds_of_frames(low: u8, high: u8)
    requires
        low < 16,
        high < 16,
    ensures
        ({
            let kind = PciType::of_pci_byte((16 * high + low) as u8);
            &&& high == 0 ==> kind == Some(PciType::SingleFrame)
            &&& high == 1 ==> kind == Some(PciType::FirstFrame)
            &&& high == 2 ==> kind == Some(PciType::ConsecutiveFrame)
            &&& high == 3 ==> kind == Some(PciType::FlowControl)
            &&& high > 3 ==> kind is None
        }),
{
}

/// The low half of a Flow Control's PCI byte tells its status; from 3 on it is reserved.
pub proof fn law_flow_statuses(low: u8, high: u8)
    requires
        low < 16,
        high < 16,
    ensures
        ({
            let status = FlowStatus::of_pci_byte((16 * high + low) as u8);
            &&& low == 0 ==> status == Ok::<FlowStatus, IsoTpError>(FlowStatus::ContinueToSend)
            &&& low == 1 ==> status == Ok::<FlowStatus, IsoTpError>(FlowStatus::Wait)
            &&& low == 2 ==> status == Ok::<FlowStatus, IsoTpError>(FlowStatus::Overflow)
            &&& low > 2 ==> status == Err::<FlowStatus, IsoTpError>(IsoTpError::InvalidFs)
        }),
{
}

/// A Flow Control is read back with the status it was written with.
pub proof fn law_flow_status_round_trip(
    mode: AddressingMode,
    target: u8,
    status: FlowStatus,
    bs: u8,
    st_min: u8,
)
    ensures
        ({
            let frame = flow_control_bytes(mode, target, status, bs, st_min);
            let pci = frame[mode.pci_index()];
            &&& PciType::of_pci_byte(pci) == Some(PciType::FlowControl)
            &&& FlowStatus::of_pci_byte(pci) == Ok::<FlowStatus, IsoTpError>(status)
        }),
{
}

/// A transmission that times out is a `TimeoutA`, one that the driver fails a `DriverError`.
pub proof fn law_ends_of_transmissions()
    ensures
        TxEvent::Sent.outcome() == Ok::<(), IsoTpError>(()),
        TxEvent::TimedOut.outcome() == Err::<(), IsoTpError>(IsoTpError::TimeoutA),
        TxEvent::Failed.outcome() == Err::<(), IsoTpError>(IsoTpError::DriverError),
{
}

/// A Single Frame byte by byte: the target address in Extended mode, the length, the message, and
/// 0xCC up to the eighth byte.
pub proof fn law_single_frame_bytes(mode: AddressingMode, target: u8, data: Seq<u8>)
    requires
        data.len() <= (if mode == AddressingMode::Normal {
            7int
        } else {
            6int
        }),
    ensures
        ({
            let o = if mode == AddressingMode::Normal {
                0int
            } else {
                1int
            };
            let frame = single_frame_bytes(mode, target, data);
            &&& frame.len() == 8
            &&& o == 1 ==> frame[0] == target
            &&& frame[o] == data.len()
            &&& forall|i: int| 0 <= i < data.len() ==> frame[o + 1 + i] == #[trigger] data[i]
            &&& forall|i: int| o + 1 + data.len() <= i < 8 ==> #[trigger] frame[i] == 0xCC
        }),
{
}

/// A First Frame byte by byte: the target address in Extended mode, 1 and the high four bits of the
/// length, the low eight bits of the length, and the start of the message.
pub proof fn law_first_frame_bytes(mode: AddressingMode, target: u8, data: Seq<u8>)
    requires
        6 <= data.len() <= 0xFFF,
    ensures
        ({
            let o = if mode == AddressingMode::Normal {
                0int
            } else {
                1int
            };
            let frame = first_frame_bytes(mode, target, data);
            &&& frame.len() == 8
            &&& o == 1 ==> frame[0] == target
            &&& frame[o] / 16 == 1
            &&& (frame[o] % 16) * 256 + frame[o + 1] == data.len()
            &&& forall|i: int| 0 <= i < 6 - o ==> frame[o + 2 + i] == #[trigger] data[i]
        }),
{
}

/// A Consecutive Frame byte by byte: the target address in Extended mode, 2 and the number, the
/// piece of the message, and 0xCC up to the eighth byte.
pub proof fn law_consecutive_frame_bytes(mode: AddressingMode, target: u8, sn: u8, chunk: Seq<u8>)
    requires
        sn < 16,
        chunk.len() <= (if mode == AddressingMode::Normal {
            7int
        } else {
            6int
        }),
    ensures
        ({
            let o = if mode == AddressingMode::Normal {
                0int
            } else {
                1int
            };
            let frame = consecutive_frame_bytes(mode, target, sn, chunk);
            &&& frame.len() == 8
            &&& o == 1 ==> frame[0] == target
            &&& frame[o] == 0x20 + sn
            &&& forall|i: int| 0 <= i < chunk.len() ==> frame[o + 1 + i] == #[trigger] chunk[i]
            &&& forall|i: int| o + 1 + chunk.len() <= i < 8 ==> #[trigger] frame[i] == 0xCC
        }),
{
}

/// A Flow Control byte by byte: the target address in Extended mode, 3 and the status, the block
/// size, the separation time, and 0xCC up to the eighth byte.
pub proof fn law_flow_control_bytes(
    mode: AddressingMode,
    target: u8,
    status: FlowStatus,
    bs: u8,
    st_min: u8,
)
    ensures
        ({
            let o = if mode == AddressingMode::Normal {
                0int
            } else {
                1int
            };
            let frame = flow_control_bytes(mode, target, status, bs, st_min);
            &&& frame.len() == 8
            &&& o == 1 ==> frame[0] == target
            &&& frame[o] == (match status {
                FlowStatus::ContinueToSend => 0x30u8,
                FlowStatus::Wait => 0x31u8,
                FlowStatus::Overflow => 0x32u8,
            })
            &&& frame[o + 1] == bs
            &&& frame[o + 2] == st_min
            &&& forall|i: int| o + 3 <= i < 8 ==> #[trigger] frame[i] == 0xCC
        }),
{
}

/// The frames of a message in several frames: a First Frame, then as many Consecutive Frames as it
/// takes, numbered from 1 on modulo 16. Every byte of the message stands in exactly the frame and
/// place that the room in the frames gives it, and only the last frame is padded.
pub proof fn law_frames_of_a_message(mode: AddressingMode, target: u8, data: Seq<u8>, k: int)
    requires
        single_capacity(mode) < data.len() <= 0xFFF,
        1 <= k < segments(mode, target, data).len(),
    ensures
        ({
            let o = if mode == AddressingMode::Normal {
                0int
            } else {
                1int
            };
            let frames = segments(mode, target, data);
            let start = (6 - o) + (k - 1) * (7 - o);
            &&& frames[0] == first_frame_bytes(mode, target, data)
            &&& (6 - o) + (frames.len() - 2) * (7 - o) < data.len()
            &&& data.len() <= (6 - o) + (frames.len() - 1) * (7 - o)
            &&& frames[k].len() == 8
            &&& o == 1 ==> frames[k][0] == target
            &&& frames[k][o] == 0x20 + k % 16
            &&& forall|j: int|
                start <= j < start + 7 - o && j < data.len() ==> frames[k][o + 1 + j - start]
                    == #[trigger] data[j]
            &&& forall|i: int|
                o + 1 + data.len() - start <= i < 8 ==> #[trigger] frames[k][i] == 0xCC
        }),
{
    let o = mode.pci_index();
    let frames = segments(mode, target, data);
    let frame = segment(mode, target, data, k);
    assert(frames[k] == frame);
    match mode {
        AddressingMode::Normal => {
            assert((k - 1) * 7 == 7 * (k - 1));
        },
        AddressingMode::Extended => {
            assert((k - 1) * 6 == 6 * (k - 1));
        },
    }
    assert(0 <= k % 16 < 16);
}

/// The separation time in microseconds for every STmin byte: 0 to 127 ms, 100 to 900 us in steps
/// of 100, and 127 ms for what is reserved.
pub proof fn law_separation_times(st_min: u8)
    ensures
        st_min <= 127 ==> separation_time(st_min) == 1000 * st_min,
        128 <= st_min <= 240 ==> separation_time(st_min) == 127_000,
        241 <= st_min <= 249 ==> separation_time(st_min) == 100 * (st_min - 240),
        250 <= st_min ==> separation_time(st_min) == 127_000,
{
}

} // verus!
