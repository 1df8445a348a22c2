//! What the bridge tells its client.
pub mod offline_service;
pub mod protocol;

use vstd::prelude::*;

use crate::bounded::{raw_bytes, raw_extend, raw_new, raw_push};
use crate::can::id::{can_id_to_u32, CanId};
use crate::can::iso_tp::types::IsoTpError;
use protocol::{DebugMsg, Response, Status};

verus! {

/// Bytes that the report of one frame may take: identifier, length and data.
pub const RAW_FRAME_LEN: usize = 13;

/// A frame that was seen on the bus.
#[derive(Clone, Copy, Debug)]
pub struct SniffedFrame<'a> {
    pub id: CanId,
    /// The frame's length code.
    pub dlc: usize,
    pub data: &'a [u8],
}

/// A number in four bytes, the lowest first.
pub open spec fn le_bytes(n: u32) -> Seq<u8> {
    seq![
        (n % 0x100) as u8,
        (n / 0x100 % 0x100) as u8,
        (n / 0x1_0000 % 0x100) as u8,
        (n / 0x100_0000) as u8,
    ]
}

/// The number in four bytes, the lowest first.
pub open spec fn from_le_bytes(s: Seq<u8>) -> int {
    s[0] + s[1] * 0x100 + s[2] * 0x1_0000 + s[3] * 0x100_0000
}

/// Writing a number to four bytes and reading it back gives the number.
pub proof fn law_le_bytes_round_trip(n: u32)
    ensures
        le_bytes(n).len() == 4,
        from_le_bytes(le_bytes(n)) == n,
{
}

/// The report of a frame: identifier, length code and data. Data that does not fit is left out.
pub open spec fn raw_report(id: CanId, dlc: usize, data: Seq<u8>) -> Seq<u8> {
    let head = le_bytes(id.number()).push((dlc % 0x100) as u8);
    if head.len() + data.len() <= RAW_FRAME_LEN {
        head + data
    } else {
        head
    }
}

/// The reason that the client is given for an ISO-TP error.
pub open spec fn debug_reason(e: IsoTpError) -> DebugMsg {
    match e {
        IsoTpError::TimeoutA => DebugMsg::IsoTpTimeoutA,
        IsoTpError::TimeoutBs => DebugMsg::IsoTpTimeoutBs,
        IsoTpError::TimeoutCr => DebugMsg::IsoTpTimeoutCr,
        IsoTpError::WrongSn => DebugMsg::IsoTpWrongSn,
        IsoTpError::InvalidFs => DebugMsg::IsoTpInvalidFs,
        IsoTpError::WftOverrun => DebugMsg::IsoTpWftOverrun,
        IsoTpError::BufferOverflow => DebugMsg::IsoTpBufferOverflow,
        IsoTpError::DriverError => DebugMsg::IsoTpDriverError,
        IsoTpError::InvalidId => DebugMsg::IsoTpInvalidId,
    }
}

/// The reason that the client is given for an ISO-TP error.
pub fn iso_tp_to_debug(e: IsoTpError) -> (msg: DebugMsg)
    ensures
        msg == debug_reason(e),
{
    match e {
        IsoTpError::TimeoutA => DebugMsg::IsoTpTimeoutA,
        IsoTpError::TimeoutBs => DebugMsg::IsoTpTimeoutBs,
        IsoTpError::TimeoutCr => DebugMsg::IsoTpTimeoutCr,
        IsoTpError::WrongSn => DebugMsg::IsoTpWrongSn,
        IsoTpError::InvalidFs => DebugMsg::IsoTpInvalidFs,
        IsoTpError::WftOverrun => DebugMsg::IsoTpWftOverrun,
        IsoTpError::BufferOverflow => DebugMsg::IsoTpBufferOverflow,
        IsoTpError::DriverError => DebugMsg::IsoTpDriverError,
        IsoTpError::InvalidId => DebugMsg::IsoTpInvalidId,
    }
}

/// Different errors give different reasons.
pub proof fn law_reasons_are_distinct(a: IsoTpError, b: IsoTpError)
    requires
        debug_reason(a) == debug_reason(b),
    ensures
        a == b,
{
}

/// The bytes of a report.
fn frame_report(frame: SniffedFrame) -> (raw: heapless::Vec<u8, 13>)
    ensures
        raw_bytes(raw) == raw_report(frame.id, frame.dlc, frame.data@),
{
    let n: u32 = can_id_to_u32(frame.id);
    let id_bytes = [
        (n % 0x100) as u8,
        (n / 0x100 % 0x100) as u8,
        (n / 0x1_0000 % 0x100) as u8,
        (n / 0x100_0000) as u8,
    ];
    assert(id_bytes@ == le_bytes(n));
    let mut raw = raw_new();
    let _ = raw_extend(&mut raw, &id_bytes);
    assert(raw_bytes(raw) == le_bytes(n));
    let _ = raw_push(&mut raw, (frame.dlc % 0x100) as u8);
    let _ = raw_extend(&mut raw, frame.data);
    raw
}

/// Reports to the client what was seen on the bus: the frame, or why there was none. Every report
/// has the next number.
pub fn handle_client(id: &mut u32, sniffed: Result<SniffedFrame, IsoTpError>) -> (response: Response<
    heapless::Vec<u8, 13>,
>)
    requires
        *old(id) < u32::MAX,
    ensures
        *final(id) == *old(id) + 1,
        response.id == *old(id),
        match sniffed {
            Ok(frame) => {
                &&& response.status == Status::Success
                &&& response.data matches Some(raw) && raw_bytes(raw) == raw_report(
                    frame.id,
                    frame.dlc,
                    frame.data@,
                )
                &&& response.debug is None
            },
            Err(e) => {
                &&& response.status == Status::Error
                &&& response.data is None
                &&& response.debug == Some(debug_reason(e))
            },
        },
{
    let response = match sniffed {
        Ok(frame) => Response {
            id: *id,
            status: Status::Success,
            data: Some(frame_report(frame)),
            debug: None,
        },
        Err(e) => Response {
            id: *id,
            status: Status::Error,
            data: None,
            debug: Some(iso_tp_to_debug(e)),
        },
    };
    *id = *id + 1;
    response
}

/// The report of a frame of up to eight bytes holds all of it: the identifier's number, the
/// length code and the data can be read back.
pub proof fn law_report_holds_the_frame(id: CanId, dlc: usize, data: Seq<u8>)
    requires
        data.len() <= 8,
        dlc < 0x100,
    ensures
        from_le_bytes(raw_report(id, dlc, data)) == id.number(),
        raw_report(id, dlc, data)[4] == dlc,
        raw_report(id, dlc, data).skip(5) == data,
{
    law_le_bytes_round_trip(id.number());
}

/// A report byte by byte: the identifier's number, the lowest byte first, the length code, and the
/// data where there are at most eight bytes of it, otherwise none.
pub proof fn law_bytes_of_a_report(id: CanId, dlc: usize, data: Seq<u8>)
    ensures
        ({
            let report = raw_report(id, dlc, data);
            let n = id.number();
            &&& report[0] == n % 256
            &&& report[1] == n / 256 % 256
            &&& report[2] == n / 65_536 % 256
            &&& report[3] == n / 16_777_216
            &&& report[4] == dlc % 256
            &&& data.len() <= 8 ==> report.len() == 5 + data.len() && forall|i: int|
                0 <= i < data.len() ==> report[5 + i] == #[trigger] data[i]
            &&& data.len() > 8 ==> report.len() == 5
        }),
{
}

/// Every error is reported by its own name.
pub proof fn law_reasons()
    ensures
        debug_reason(IsoTpError::TimeoutA) == DebugMsg::IsoTpTimeoutA,
        debug_reason(IsoTpError::TimeoutBs) == DebugMsg::IsoTpTimeoutBs,
        debug_reason(IsoTpError::TimeoutCr) == DebugMsg::IsoTpTimeoutCr,
        debug_reason(IsoTpError::WrongSn) == DebugMsg::IsoTpWrongSn,
        debug_reason(IsoTpError::InvalidFs) == DebugMsg::IsoTpInvalidFs,
        debug_reason(IsoTpError::WftOverrun) == DebugMsg::IsoTpWftOverrun,
        debug_reason(IsoTpError::BufferOverflow) == DebugMsg::IsoTpBufferOverflow,
        debug_reason(IsoTpError::DriverError) == DebugMsg::IsoTpDriverError,
        debug_reason(IsoTpError::InvalidId) == DebugMsg::IsoTpInvalidId,
{
}

} // verus!
