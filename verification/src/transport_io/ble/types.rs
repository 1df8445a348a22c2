//! The device's name and the size of its packets.
use vstd::prelude::*;

verus! {

/// The name that the device advertises.
pub const DEVICE_NAME: &'static str = "WROOM-OBD";

/// Bytes in a packet: the default MTU of the packet pool of `trouble_host`.
pub const MTU_SIZE: usize = 251;

/// The identifier of the Nordic UART Service, 6e400001-b5b3-f393-e0a9-e50e24dcca9e, the lowest
/// byte first.
pub const NUS_SERVICE_UUID: [u8; 16] = [
    0x9E,
    0xCA,
    0xDC,
    0x24,
    0x0E,
    0xE5,
    0xA9,
    0xE0,
    0x93,
    0xF3,
    0xB3,
    0xB5,
    0x01,
    0x00,
    0x40,
    0x6E,
];

/// The bytes of the device's name.
pub open spec fn name_bytes() -> Seq<u8> {
    seq![0x57u8, 0x52u8, 0x4Fu8, 0x4Fu8, 0x4Du8, 0x2Du8, 0x4Fu8, 0x42u8, 0x44u8]
}

/// The bytes of the device's name.
pub fn device_name() -> (name: &'static [u8])
    ensures
        name@ == name_bytes(),
{
    let name = DEVICE_NAME.as_bytes();
    proof {
        reveal_strlit("WROOM-OBD");
        vstd::string::is_ascii_spec_bytes("WROOM-OBD");
    }
    assert(name@ == name_bytes());
    name
}

/// The device is named "WROOM-OBD": every byte of the name is the character at its place.
pub proof fn law_name_of_the_device(i: int)
    requires
        0 <= i < 9,
    ensures
        name_bytes().len() == 9,
        name_bytes()[i] == "WROOM-OBD"@[i] as u8,
{
    reveal_strlit("WROOM-OBD");
}

/// The service's identifier from its highest byte on: 6e400001-b5b3-f393-e0a9-e50e24dcca9e. A
/// packet holds 251 bytes.
pub proof fn law_identifier_of_the_service()
    ensures
        NUS_SERVICE_UUID@.reverse() == seq![
            0x6eu8,
            0x40u8,
            0x00u8,
            0x01u8,
            0xb5u8,
            0xb3u8,
            0xf3u8,
            0x93u8,
            0xe0u8,
            0xa9u8,
            0xe5u8,
            0x0eu8,
            0x24u8,
            0xdcu8,
            0xcau8,
            0x9eu8,
        ],
        MTU_SIZE == 251,
{
}

} // verus!
