//! Why the stream over BLE failed.
use vstd::prelude::*;

verus! {

/// Why the stream over BLE failed.
#[derive(Clone, Copy, Debug, PartialEq, Eq, Structural)]
pub enum BleError {
    AdvertisingError,
    ConnectionFailed,
    L2capError,
    MtuExceeded,
    ChannelClosed,
    Timeout,
    GattError,
    Other,
}

/// The kinds of errors that a byte stream tells apart.
#[derive(Clone, Copy, Debug, PartialEq, Eq, Structural)]
pub enum BleErrorKind {
    OutOfMemory,
    BrokenPipe,
    TimedOut,
    NotConnected,
    Other,
}

impl BleError {
    /// The kind of the error to the user of a byte stream.
    pub fn kind(&self) -> (kind: BleErrorKind)
        ensures
            kind == (match *self {
                BleError::MtuExceeded => BleErrorKind::OutOfMemory,
                BleError::ChannelClosed => BleErrorKind::BrokenPipe,
                BleError::Timeout => BleErrorKind::TimedOut,
                BleError::ConnectionFailed => BleErrorKind::NotConnected,
                _ => BleErrorKind::Other,
            }),
    {
        match self {
            BleError::MtuExceeded => BleErrorKind::OutOfMemory,
            BleError::ChannelClosed => BleErrorKind::BrokenPipe,
            BleError::Timeout => BleErrorKind::TimedOut,
            BleError::ConnectionFailed => BleErrorKind::NotConnected,
            _ => BleErrorKind::Other,
        }
    }

    /// The error in words.
    pub fn message(&self) -> (text: &'static str)
        ensures
            text@ == (match *self {
                BleError::AdvertisingError => "Advertising failed"@,
                BleError::ConnectionFailed => "Connection failed"@,
                BleError::L2capError => "L2CAP error"@,
                BleError::MtuExceeded => "MTU exceeded"@,
                BleError::ChannelClosed => "Channel closed"@,
                BleError::Timeout => "Timeout"@,
                BleError::GattError => "GATT error"@,
                BleError::Other => "Other error"@,
            }),
    {
        match self {
            BleError::AdvertisingError => "Advertising failed",
            BleError::ConnectionFailed => "Connection failed",
            BleError::L2capError => "L2CAP error",
            BleError::MtuExceeded => "MTU exceeded",
            BleError::ChannelClosed => "Channel closed",
            BleError::Timeout => "Timeout",
            BleError::GattError => "GATT error",
            BleError::Other => "Other error",
        }
    }
}

} // verus!
