//! The byte layout of the four kinds of frame.
use vstd::prelude::*;

use super::types::{AddressingMode, FlowStatus, PADDING_BYTE};

verus! {

/// What stands before the PCI byte: the target address in Extended mode, nothing in Normal mode.
pub open spec fn address_prefix(mode: AddressingMode, target: u8) -> Seq<u8> {
    match mode {
        AddressingMode::Normal => Seq::empty(),
        AddressingMode::Extended => seq![target],
    }
}

/// `s` followed by padding, eight bytes in all.
pub open spec fn padded(s: Seq<u8>) -> Seq<u8> {
    s + Seq::new((8 - s.len()) as nat, |i: int| PADDING_BYTE)
}

/// Bytes that a Single Frame holds.
pub open spec fn single_capacity(mode: AddressingMode) -> int {
    7 - mode.pci_index()
}

/// Bytes that a First Frame holds.
pub open spec fn first_capacity(mode: AddressingMode) -> int {
    6 - mode.pci_index()
}

/// A Single Frame: length, then the message.
pub open spec fn single_frame_bytes(mode: AddressingMode, target: u8, data: Seq<u8>) -> Seq<u8> {
    padded(address_prefix(mode, target) + seq![data.len() as u8] + data)
}

/// A First Frame: the message's length in 12 bits, then the start of the message.
pub open spec fn first_frame_bytes(mode: AddressingMode, target: u8, data: Seq<u8>) -> Seq<u8> {
    address_prefix(mode, target) + seq![
        (0x10 + data.len() / 256) as u8,
        (data.len() % 256) as u8,
    ] + data.take(first_capacity(mode))
}

/// A Consecutive Frame: sequence number, then the next piece of the message.
pub open spec fn consecutive_frame_bytes(
    mode: AddressingMode,
    target: u8,
    sn: u8,
    chunk: Seq<u8>,
) -> Seq<u8> {
    padded(address_prefix(mode, target) + seq![(0x20 + sn) as u8] + chunk)
}

/// A Flow Control: status, block size, separation time.
pub open spec fn flow_control_bytes(
    mode: AddressingMode,
    target: u8,
    status: FlowStatus,
    bs: u8,
    st_min: u8,
) -> Seq<u8> {
    padded(address_prefix(mode, target) + seq![(0x30 + status.number()) as u8, bs, st_min])
}

/// Writes `part` into `frame` from index `at` on.
fn write_part(frame: &mut [u8; 8], at: usize, part: &[u8])
    requires
        at + part@.len() <= 8,
    ensures
        final(frame)@ == old(frame)@.take(at as int) + part@ + old(frame)@.skip(at + part@.len()),
{
    let mut i: usize = 0;
    while i < part.len()
        invariant
            i <= part@.len(),
            at + part@.len() <= 8,
            frame@ == old(frame)@.take(at as int) + part@.take(i as int) + old(frame)@.skip(
                at + i,
            ),
        decreases part@.len() - i,
    {
        frame[at + i] = part[i];
        i = i + 1;
        assert(frame@ == old(frame)@.take(at as int) + part@.take(i as int) + old(frame)@.skip(
            at + i,
        ));
    }
    assert(part@.take(i as int) == part@);
}

/// The frame that holds the address prefix, `head` and `body`, padded.
fn build(mode: AddressingMode, target: u8, head: &[u8], body: &[u8]) -> (frame: [u8; 8])
    requires
        mode.pci_index() + head@.len() + body@.len() <= 8,
    ensures
        frame@ == padded(address_prefix(mode, target) + head@ + body@),
{
    let mut frame: [u8; 8] = [0xCCu8; 8];
    let o: usize = mode.pci_byte_offset();
    if o == 1 {
        frame[0] = target;
    }
    write_part(&mut frame, o, head);
    write_part(&mut frame, o + head.len(), body);
    assert(frame@ == padded(address_prefix(mode, target) + head@ + body@));
    frame
}

/// Builds a Single Frame.
pub fn single_frame(mode: AddressingMode, target: u8, data: &[u8]) -> (frame: [u8; 8])
    requires
        data@.len() <= single_capacity(mode),
    ensures
        frame@ == single_frame_bytes(mode, target, data@),
{
    let head: [u8; 1] = [data.len() as u8];
    assert(head@ == seq![data@.len() as u8]);
    build(mode, target, &head, data)
}

/// Builds a First Frame.
pub fn first_frame(mode: AddressingMode, target: u8, data: &[u8]) -> (frame: [u8; 8])
    requires
        first_capacity(mode) <= data@.len() <= 0xFFF,
    ensures
        frame@ == first_frame_bytes(mode, target, data@),
{
    let len: usize = data.len();
    let take: usize = 6 - mode.pci_byte_offset();
    let head: [u8; 2] = [0x10 + (len / 256) as u8, (len % 256) as u8];
    assert(head@ == seq![(0x10 + data@.len() / 256) as u8, (data@.len() % 256) as u8]);
    let frame = build(mode, target, &head, &data[0..take]);
    assert(frame@ == first_frame_bytes(mode, target, data@));
    frame
}

/// Builds a Consecutive Frame.
pub fn consecutive_frame(mode: AddressingMode, target: u8, sn: u8, chunk: &[u8]) -> (frame: [u8; 8])
    requires
        sn < 16,
        chunk@.len() <= single_capacity(mode),
    ensures
        frame@ == consecutive_frame_bytes(mode, target, sn, chunk@),
{
    let head: [u8; 1] = [0x20 + sn];
    assert(head@ == seq![(0x20 + sn) as u8]);
    build(mode, target, &head, chunk)
}

/// Builds a Flow Control.
pub fn flow_control_frame(
    mode: AddressingMode,
    target: u8,
    status: FlowStatus,
    bs: u8,
    st_min: u8,
) -> (frame: [u8; 8])
    ensures
        frame@ == flow_control_bytes(mode, target, status, bs, st_min),
{
    let head: [u8; 3] = [0x30 + status.to_u8(), bs, st_min];
    let body: [u8; 0] = [];
    assert(head@ == seq![(0x30 + status.number()) as u8, bs, st_min]);
    assert(address_prefix(mode, target) + head@ + body@ == address_prefix(mode, target) + head@);
    build(mode, target, &head, &body)
}

} // verus!
