//! The messages that are exchanged with the client.
use vstd::prelude::*;

verus! {

/// What the client can ask for.
#[derive(Clone, Copy, Debug, PartialEq, Eq, Structural)]
pub enum Command {
    GetVin,
    ClearDtcs,
    GetLiveData { pid: u8 },
    GetStoredDtcs,
}

/// What the client is answered.
#[derive(Debug)]
pub struct Response<T> {
    pub id: u32,
    pub status: Status,
    pub data: Option<T>,
    pub debug: Option<DebugMsg>,
}

/// Why a request failed.
#[derive(Clone, Copy, Debug, PartialEq, Eq, Structural)]
pub enum DebugMsg {
    ObdTimeout,
    LiveDataFailed,
    InvalidFormat,
    GetStoredDtcsFailed,
    /// N_As / N_Ar: a frame was not sent in time.
    IsoTpTimeoutA,
    /// N_Bs: no Flow Control came after a First Frame.
    IsoTpTimeoutBs,
    /// N_Cr: no Consecutive Frame came in time.
    IsoTpTimeoutCr,
    /// A Consecutive Frame had an unexpected sequence number.
    IsoTpWrongSn,
    /// A Flow Control carried a reserved status.
    IsoTpInvalidFs,
    /// Too many Flow Control WAIT frames came.
    IsoTpWftOverrun,
    IsoTpBufferOverflow,
    IsoTpDriverError,
    IsoTpInvalidId,
}

/// A numbered command.
#[derive(Clone, Copy, Debug, PartialEq, Eq, Structural)]
pub struct Request {
    pub id: u32,
    pub cmd: Command,
}

/// Whether a request went well.
#[derive(Clone, Copy, Debug, PartialEq, Eq, Structural)]
pub enum Status {
    Success,
    Error,
}

} // verus!
