//! The byte stream over packets.
use vstd::prelude::*;

use super::error::BleError;
use super::types::MTU_SIZE;
use crate::bounded::{packet_bytes, packet_clear, packet_extend, packet_new, packet_slice};
use crate::transport::copy_to_front;

verus! {

/// A byte stream over packets. Bytes of a packet that were not asked for yet are kept.
#[derive(Debug)]
pub struct BleStream {
    store: heapless::Vec<u8, 251>,
    store_offset: usize,
}

/// What a read came to.
#[derive(Clone, Copy, Debug, PartialEq, Eq, Structural)]
pub enum ReadStep {
    /// Wait for a packet and hand it to [`BleStream::read_packet`].
    NeedPacket,
    /// So many bytes were read.
    Done(usize),
}

/// What a write came to.
#[derive(Debug)]
pub enum WriteStep {
    /// Send the packet and go on behind its bytes.
    Send(heapless::Vec<u8, 251>),
    /// All bytes were sent.
    Done(usize),
}

/// The smaller of two numbers.
pub open spec fn lesser(a: int, b: int) -> int {
    if a < b {
        a
    } else {
        b
    }
}

/// The packet that the bytes of `buf` from `offset` on start with.
pub open spec fn packet_at(buf: Seq<u8>, offset: int) -> Seq<u8> {
    buf.subrange(offset, lesser(offset + MTU_SIZE, buf.len() as int))
}

impl View for BleStream {
    type V = Seq<u8>;

    /// The bytes that were received and not read yet.
    closed spec fn view(&self) -> Seq<u8> {
        packet_bytes(self.store).skip(self.store_offset as int)
    }
}

impl BleStream {
    /// The offset lies within the packet.
    pub closed spec fn well_formed(&self) -> bool {
        self.store_offset <= packet_bytes(self.store).len()
    }

    /// A stream that has received nothing.
    pub fn new() -> (s: BleStream)
        ensures
            s.well_formed(),
            s@ == Seq::<u8>::empty(),
    {
        let s = BleStream { store: packet_new(), store_offset: 0 };
        assert(s@ == Seq::<u8>::empty());
        s
    }

    /// Reads into `buf` what is kept of the last packet. Asks for a packet where nothing is, unless
    /// nothing is to be read.
    pub fn read(&mut self, buf: &mut [u8]) -> (step: ReadStep)
        requires
            old(self).well_formed(),
        ensures
            final(self).well_formed(),
            old(buf)@.len() == 0 ==> step == ReadStep::Done(0),
            step == ReadStep::NeedPacket <==> old(buf)@.len() > 0 && old(self)@.len() == 0,
            match step {
                ReadStep::NeedPacket => final(self)@ == old(self)@ && final(buf)@ == old(buf)@,
                ReadStep::Done(n) => {
                    let (out, kept, _) = read_once(old(self)@, Seq::empty(), old(buf)@.len());
                    &&& n == out.len()
                    &&& final(buf)@ == out + old(buf)@.skip(n as int)
                    &&& final(self)@ == kept
                },
            },
    {
        if buf.len() == 0 {
            assert(old(self)@.take(0) + old(buf)@.skip(0) == old(buf)@);
            assert(old(self)@.skip(0) == old(self)@);
            return ReadStep::Done(0);
        }
        let held: usize = packet_slice(&self.store).len();
        if held == 0 || self.store_offset >= held {
            return ReadStep::NeedPacket;
        }
        ReadStep::Done(self.take_kept(buf))
    }

    /// Reads into `buf` from a packet that has come. What does not fit is kept.
    pub fn read_packet(&mut self, packet: heapless::Vec<u8, 251>, buf: &mut [u8]) -> (n: usize)
        requires
            old(self).well_formed(),
            old(self)@.len() == 0,
            old(buf)@.len() > 0,
        ensures
            final(self).well_formed(),
            ({
                let (out, kept, _) = read_once(
                    old(self)@,
                    seq![packet_bytes(packet)],
                    old(buf)@.len(),
                );
                &&& n == out.len()
                &&& final(buf)@ == out + old(buf)@.skip(n as int)
                &&& final(self)@ == kept
            }),
    {
        let ghost whole = packet_bytes(packet);
        self.store = packet;
        self.store_offset = 0;
        assert(whole.skip(0) == whole);
        self.take_kept(buf)
    }

    /// Moves kept bytes to the front of `buf`, as many as fit.
    fn take_kept(&mut self, buf: &mut [u8]) -> (n: usize)
        requires
            old(self).well_formed(),
        ensures
            final(self).well_formed(),
            n == lesser(old(self)@.len() as int, old(buf)@.len() as int),
            final(buf)@ == old(self)@.take(n as int) + old(buf)@.skip(n as int),
            final(self)@ == old(self)@.skip(n as int),
    {
        let ghost pending = self@;
        let bytes = packet_slice(&self.store);
        let held: usize = bytes.len();
        let ghost start = self.store_offset as int;
        let to_copy: usize = copy_to_front(bytes, self.store_offset, buf);
        assert(bytes@.subrange(start, start + to_copy) == pending.take(to_copy as int));
        self.store_offset = self.store_offset + to_copy;
        assert(self@ == pending.skip(to_copy as int));
        if self.store_offset >= held {
            packet_clear(&mut self.store);
            self.store_offset = 0;
            assert(self@ == pending.skip(to_copy as int));
        }
        to_copy
    }

    /// Cuts the next packet off `buf`, of which `offset` bytes were sent. A packet holds as much as
    /// the radio's MTU allows.
    pub fn write(&self, buf: &[u8], offset: usize) -> (r: Result<WriteStep, BleError>)
        requires
            offset <= buf@.len(),
        ensures
            match r {
                Ok(WriteStep::Send(packet)) => {
                    &&& offset < buf@.len()
                    &&& packet_bytes(packet) == packet_at(buf@, offset as int)
                },
                Ok(WriteStep::Done(n)) => offset == buf@.len() && n == buf@.len(),
                Err(_) => false,
            },
    {
        if offset >= buf.len() {
            return Ok(WriteStep::Done(buf.len()));
        }
        let chunk_size: usize = if buf.len() - offset < MTU_SIZE {
            buf.len() - offset
        } else {
            MTU_SIZE
        };
        let mut packet = packet_new();
        match packet_extend(&mut packet, &buf[offset..offset + chunk_size]) {
            Ok(()) => {
                assert(packet_bytes(packet) == packet_at(buf@, offset as int));
                Ok(WriteStep::Send(packet))
            },
            Err(()) => Err(BleError::MtuExceeded),
        }
    }

    /// Nothing is held back: every packet is sent at once.
    pub fn flush(&mut self) -> (r: Result<(), BleError>)
        ensures
            r is Ok,
            *final(self) == *old(self),
    {
        Ok(())
    }
}

/// The packets that a write of `buf` sends, once `offset` of its bytes were sent.
pub open spec fn packets_from(buf: Seq<u8>, offset: int) -> Seq<Seq<u8>>
    decreases buf.len() - offset,
{
    if offset < 0 || offset >= buf.len() {
        Seq::empty()
    } else {
        let packet = packet_at(buf, offset);
        seq![packet] + packets_from(buf, offset + packet.len())
    }
}

/// A write sends its bytes in their order, each once.
pub proof fn law_packets_make_up_the_message(buf: Seq<u8>)
    ensures
        packets_from(buf, 0).flatten() == buf,
{
    lemma_packets_from(buf, 0);
    assert(buf.skip(0) == buf);
}

/// Every packet of a write holds something, and no more than the MTU. Only the last one may hold
/// less.
pub proof fn law_packets_fit_the_mtu(buf: Seq<u8>, i: int)
    requires
        0 <= i < packets_from(buf, 0).len(),
    ensures
        1 <= packets_from(buf, 0)[i].len() <= MTU_SIZE,
        i < packets_from(buf, 0).len() - 1 ==> packets_from(buf, 0)[i].len() == MTU_SIZE,
{
    lemma_packet_sizes(buf, 0, i);
}

proof fn lemma_packets_from(buf: Seq<u8>, offset: int)
    requires
        0 <= offset <= buf.len(),
    ensures
        packets_from(buf, offset).flatten() == buf.skip(offset),
    decreases buf.len() - offset,
{
    if offset < buf.len() {
        let packet = packet_at(buf, offset);
        let rest = packets_from(buf, offset + packet.len());
        lemma_packets_from(buf, (offset + packet.len()) as int);
        let all = packets_from(buf, offset);
        assert(all.drop_first() == rest);
        assert(all.first() == packet);
        assert(packet + buf.skip((offset + packet.len()) as int) == buf.skip(offset));
    } else {
        assert(buf.skip(offset) == Seq::<u8>::empty());
    }
}

proof fn lemma_packet_sizes(buf: Seq<u8>, offset: int, i: int)
    requires
        0 <= offset,
        0 <= i < packets_from(buf, offset).len(),
    ensures
        1 <= packets_from(buf, offset)[i].len() <= MTU_SIZE,
        i < packets_from(buf, offset).len() - 1 ==> packets_from(buf, offset)[i].len() == MTU_SIZE,
    decreases buf.len() - offset,
{
    let packet = packet_at(buf, offset);
    let rest = packets_from(buf, offset + packet.len());
    if i > 0 {
        lemma_packet_sizes(buf, (offset + packet.len()) as int, i - 1);
        assert(packets_from(buf, offset)[i] == rest[i - 1]);
    } else if rest.len() > 0 {
        assert(offset + packet.len() < buf.len());
    }
}

/// One read with room for `room` bytes, where `pending` are kept and `packets` are still to come:
/// the bytes read, and what is left of both. A read that waits for a packet that does not come
/// reads nothing.
pub open spec fn read_once(pending: Seq<u8>, packets: Seq<Seq<u8>>, room: nat) -> (
    Seq<u8>,
    Seq<u8>,
    Seq<Seq<u8>>,
) {
    if room > 0 && pending.len() == 0 && packets.len() > 0 {
        let n = lesser(packets[0].len() as int, room as int);
        (packets[0].take(n), packets[0].skip(n), packets.drop_first())
    } else {
        let n = lesser(pending.len() as int, room as int);
        (pending.take(n), pending.skip(n), packets)
    }
}

/// The bytes that reads with the rooms `rooms` get, one after the other, and what is left.
pub open spec fn read_all(pending: Seq<u8>, packets: Seq<Seq<u8>>, rooms: Seq<nat>) -> (
    Seq<u8>,
    Seq<u8>,
    Seq<Seq<u8>>,
)
    decreases rooms.len(),
{
    if rooms.len() == 0 {
        (Seq::empty(), pending, packets)
    } else {
        let (out, kept, left) = read_once(pending, packets, rooms[0]);
        let (more, kept, left) = read_all(kept, left, rooms.drop_first());
        (out + more, kept, left)
    }
}

/// Reads get the bytes of the packets in their order, each once, however the reads cut them.
pub proof fn law_reads_keep_the_order(
    pending: Seq<u8>,
    packets: Seq<Seq<u8>>,
    rooms: Seq<nat>,
)
    ensures
        ({
            let (out, kept, left) = read_all(pending, packets, rooms);
            out + kept + left.flatten() == pending + packets.flatten()
        }),
    decreases rooms.len(),
{
    if rooms.len() == 0 {
        assert(Seq::<u8>::empty() + pending == pending);
    } else {
        let (out, kept, left) = read_once(pending, packets, rooms[0]);
        assert(out + kept + left.flatten() == pending + packets.flatten()) by {
            if rooms[0] > 0 && pending.len() == 0 && packets.len() > 0 {
                assert(out + kept == packets[0]);
                assert(packets.flatten() == packets.first() + packets.drop_first().flatten());
                assert(pending + packets.flatten() == packets.flatten());
            } else {
                assert(out + kept == pending);
            }
        }
        law_reads_keep_the_order(kept, left, rooms.drop_first());
        let (more, kept_at_last, left_at_last) = read_all(kept, left, rooms.drop_first());
        assert(out + more + kept_at_last + left_at_last.flatten() == out + (more + kept_at_last
            + left_at_last.flatten()));
        assert(out + (kept + left.flatten()) == out + kept + left.flatten());
    }
}

/// A packet holds the next bytes of what is written: 251 of them, or all that are left.
pub proof fn law_bytes_of_a_packet(buf: Seq<u8>, offset: int, i: int)
    requires
        0 <= offset < buf.len(),
    ensures
        buf.len() - offset >= 251 ==> packet_at(buf, offset).len() == 251,
        buf.len() - offset < 251 ==> packet_at(buf, offset).len() == buf.len() - offset,
        0 <= i < packet_at(buf, offset).len() ==> packet_at(buf, offset)[i] == buf[offset + i],
{
}

/// A read gets as much as there is room for and is there: of the kept bytes where there are any,
/// of the next packet otherwise. What it does not get is kept for the next one.
pub proof fn law_reads_get_what_is_there(pending: Seq<u8>, packets: Seq<Seq<u8>>, room: nat)
    ensures
        ({
            let (out, kept, left) = read_once(pending, packets, room);
            let waits = room > 0 && pending.len() == 0 && packets.len() > 0;
            let source = if waits {
                packets[0]
            } else {
                pending
            };
            &&& source.len() <= room ==> out.len() == source.len()
            &&& source.len() > room ==> out.len() == room
            &&& out + kept == source
            &&& waits ==> left.len() == packets.len() - 1 && forall|i: int|
                0 <= i < left.len() ==> #[trigger] left[i] == packets[i + 1]
            &&& !waits ==> left == packets
        }),
{
}

} // verus!
