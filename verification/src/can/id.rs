//! CAN identifiers as plain values.
use vstd::prelude::*;

verus! {

/// Largest 11-bit identifier.
pub const STANDARD_ID_MAX: u16 = 0x7FF;

/// Largest 29-bit identifier.
pub const EXTENDED_ID_MAX: u32 = 0x1FFF_FFFF;

/// A CAN identifier. An 11-bit and a 29-bit identifier are never equal, whatever their numbers.
#[derive(Clone, Copy, Debug, PartialEq, Eq, Structural)]
pub enum CanId {
    Standard(u16),
    Extended(u32),
}

/// The checked constructor `embedded_can::StandardId::new`, read back with `as_raw`: a number of
/// at most 11 bits is kept as it is, any other is refused.
#[verifier::external_body]
fn checked_standard(raw: u16) -> (id: Option<u16>)
    ensures
        id == (if raw <= STANDARD_ID_MAX {
            Some(raw)
        } else {
            None
        }),
{
    embedded_can::StandardId::new(raw).map(|id| id.as_raw())
}

/// The checked constructor `embedded_can::ExtendedId::new`, read back with `as_raw`: a number of
/// at most 29 bits is kept as it is, any other is refused.
#[verifier::external_body]
fn checked_extended(raw: u32) -> (id: Option<u32>)
    ensures
        id == (if raw <= EXTENDED_ID_MAX {
            Some(raw)
        } else {
            None
        }),
{
    embedded_can::ExtendedId::new(raw).map(|id| id.as_raw())
}

impl CanId {
    /// The identifier's number fits the width of its kind.
    pub open spec fn valid(self) -> bool {
        match self {
            CanId::Standard(raw) => raw <= STANDARD_ID_MAX,
            CanId::Extended(raw) => raw <= EXTENDED_ID_MAX,
        }
    }

    /// The identifier's number.
    pub open spec fn number(self) -> u32 {
        match self {
            CanId::Standard(raw) => raw as u32,
            CanId::Extended(raw) => raw,
        }
    }

    /// An 11-bit identifier, or `None` where `raw` does not fit.
    pub fn standard(raw: u16) -> (id: Option<CanId>)
        ensures
            id == (if raw <= STANDARD_ID_MAX {
                Some(CanId::Standard(raw))
            } else {
                None
            }),
    {
        match checked_standard(raw) {
            Some(raw) => Some(CanId::Standard(raw)),
            None => None,
        }
    }

    /// A 29-bit identifier, or `None` where `raw` does not fit.
    pub fn extended(raw: u32) -> (id: Option<CanId>)
        ensures
            id == (if raw <= EXTENDED_ID_MAX {
                Some(CanId::Extended(raw))
            } else {
                None
            }),
    {
        match checked_extended(raw) {
            Some(raw) => Some(CanId::Extended(raw)),
            None => None,
        }
    }
}

/// The identifier's number, whatever its kind.
pub fn can_id_to_u32(id: CanId) -> (raw: u32)
    ensures
        raw == id.number(),
{
    match id {
        CanId::Standard(raw) => raw as u32,
        CanId::Extended(raw) => raw,
    }
}

/// An identifier is valid where its number has at most 11 or 29 bits, and its number is kept
/// whatever its kind.
pub proof fn law_numbers_of_identifiers(standard: u16, extended: u32)
    ensures
        CanId::Standard(standard).valid() <==> standard <= 0x7FF,
        CanId::Extended(extended).valid() <==> extended <= 0x1FFF_FFFF,
        CanId::Standard(standard).number() == standard,
        CanId::Extended(extended).number() == extended,
{
}

} // verus!
