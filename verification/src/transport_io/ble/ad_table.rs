//! What the device advertises.
use vstd::prelude::*;

use super::error::BleError;
use super::types::{device_name, name_bytes};

verus! {

/// The flags that are advertised: "general discoverable" and "no classic Bluetooth".
pub const ADVERTISED_FLAGS: u8 = 0x06;

/// Flags, then a complete name, as they are advertised.
pub open spec fn flags_and_name(flags: u8, name: Seq<u8>) -> Seq<u8> {
    seq![0x02u8, 0x01u8, flags, (name.len() + 1) as u8, 0x09u8] + name
}

/// The advertisement of a device named `name`.
pub open spec fn advertised_name(name: Seq<u8>) -> Seq<u8> {
    flags_and_name(ADVERTISED_FLAGS, name)
}

/// How much of an advertisement is written to `room` bytes: all of it, or the parts that fit.
pub open spec fn name_fit(name: Seq<u8>, room: int) -> int {
    if room >= advertised_name(name).len() {
        advertised_name(name).len() as int
    } else if room >= 5 {
        5
    } else if room >= 3 {
        3
    } else {
        0
    }
}

/// `trouble_host::advertise::AdStructure::encode_slice` of `flags` and of the complete local name
/// `name`: writes both to the front of `buf` where they fit, and fails otherwise. A failure leaves
/// the parts that fit: the flags, and the length and the kind of the name.
#[verifier::external_body]
fn encode_name(flags: u8, name: &[u8], buf: &mut [u8]) -> (r: Result<usize, ()>)
    requires
        name@.len() < 255,
    ensures
        r is Ok <==> flags_and_name(flags, name@).len() <= old(buf)@.len(),
        r matches Ok(n) ==> n == flags_and_name(flags, name@).len(),
        final(buf)@ == flags_and_name(flags, name@).take(name_fit(name@, old(buf)@.len() as int))
            + old(buf)@.skip(name_fit(name@, old(buf)@.len() as int)),
{
    let structures = [
        trouble_host::advertise::AdStructure::Flags(flags),
        trouble_host::advertise::AdStructure::CompleteLocalName(name),
    ];
    trouble_host::advertise::AdStructure::encode_slice(&structures, buf).map_err(|_| ())
}

/// Writes the advertisement to the front of `buf`, which should hold 31 bytes. Returns its length.
pub fn create_advertisement(buf: &mut [u8]) -> (r: Result<usize, BleError>)
    ensures
        match r {
            Ok(n) => {
                &&& n == advertised_name(name_bytes()).len() <= old(buf)@.len()
                &&& final(buf)@ == advertised_name(name_bytes()) + old(buf)@.skip(n as int)
            },
            Err(e) => {
                &&& advertised_name(name_bytes()).len() > old(buf)@.len()
                &&& e == BleError::AdvertisingError
            },
        },
        final(buf)@ == advertised_name(name_bytes()).take(
            name_fit(name_bytes(), old(buf)@.len() as int),
        ) + old(buf)@.skip(name_fit(name_bytes(), old(buf)@.len() as int)),
{
    match encode_name(ADVERTISED_FLAGS, device_name(), buf) {
        Ok(n) => {
            assert(advertised_name(name_bytes()).take(n as int) == advertised_name(name_bytes()));
            Ok(n)
        },
        Err(()) => Err(BleError::AdvertisingError),
    }
}

/// The advertisement takes 14 bytes, and so fits the 31 that one may have.
pub proof fn law_advertisement_fits()
    ensures
        advertised_name(name_bytes()).len() == 14,
{
}

/// The advertisement byte by byte: the flags "general discoverable" and "no classic Bluetooth",
/// then the length, the kind and the bytes of the complete name.
pub proof fn law_bytes_of_the_advertisement(name: Seq<u8>)
    requires
        name.len() < 255,
    ensures
        ({
            let bytes = advertised_name(name);
            &&& bytes.len() == 5 + name.len()
            &&& bytes[0] == 2 && bytes[1] == 1 && bytes[2] == 6
            &&& bytes[3] == name.len() + 1
            &&& bytes[4] == 9
            &&& forall|i: int| 0 <= i < name.len() ==> bytes[5 + i] == #[trigger] name[i]
        }),
{
}

/// Of an advertisement that does not fit, the whole parts in front that do are written: the flags
/// with three bytes, the length and the kind of the name with five.
pub proof fn law_parts_of_the_advertisement(name: Seq<u8>, room: int)
    requires
        0 <= room,
    ensures
        room >= 5 + name.len() ==> name_fit(name, room) == 5 + name.len(),
        5 <= room < 5 + name.len() ==> name_fit(name, room) == 5,
        3 <= room < 5 ==> name_fit(name, room) == 3,
        room < 3 ==> name_fit(name, room) == 0,
{
}

} // verus!
