//! The transport towards the client, apart from what carries it.
pub mod ble;
pub mod link;

use vstd::prelude::*;

verus! {

/// The decisions of a transport. What carries the bytes performs the waiting and the sending; a
/// transport says when, what and where to.
pub trait TransportAdapter {
    /// Why a transport cannot send.
    type Error;

    /// A client is connected.
    spec fn connected(&self) -> bool;

    /// The address on which data goes to the client, or why it cannot be sent.
    spec fn destination(&self) -> Result<u16, Self::Error>;

    /// Whether to go on waiting for a client: the pause to make before the next look, in
    /// microseconds, or `None` once one is connected.
    fn wait_for_connection(&self) -> (pause: Option<u64>)
        ensures
            pause is None <==> self.connected(),
    ;

    /// Copies a packet from the client to the front of `buffer`, as far as it fits, and drops the
    /// rest. Returns how many bytes were copied.
    fn read(&self, packet: &[u8], buffer: &mut [u8]) -> (n: usize)
        ensures
            n == (if packet@.len() < old(buffer)@.len() {
                packet@.len()
            } else {
                old(buffer)@.len()
            }),
            final(buffer)@ == packet@.take(n as int) + old(buffer)@.skip(n as int),
    ;

    /// Where data for the client goes.
    fn write(&self) -> (r: Result<u16, Self::Error>)
        ensures
            r == self.destination(),
    ;

    /// Whether a client is connected.
    fn is_connected(&self) -> (r: bool)
        ensures
            r == self.connected(),
    ;
}

/// Copies the bytes of `source` from `from` on to the front of `buffer`, as far as they fit.
/// Returns how many were copied.
pub fn copy_to_front(source: &[u8], from: usize, buffer: &mut [u8]) -> (n: usize)
    requires
        from <= source@.len(),
    ensures
        n == (if source@.len() - from < old(buffer)@.len() {
            source@.len() - from
        } else {
            old(buffer)@.len() as int
        }),
        final(buffer)@ == source@.subrange(from as int, from + n) + old(buffer)@.skip(n as int),
{
    let n: usize = if source.len() - from < buffer.len() {
        source.len() - from
    } else {
        buffer.len()
    };
    let ghost before = buffer@;
    let mut i: usize = 0;
    assert(buffer@ == source@.subrange(from as int, from as int) + before.skip(0));
    while i < n
        invariant
            i <= n <= before.len(),
            from + n <= source@.len() <= usize::MAX,
            buffer@ == source@.subrange(from as int, from + i) + before.skip(i as int),
        decreases n - i,
    {
        buffer[i] = source[from + i];
        i = i + 1;
        assert(buffer@ == source@.subrange(from as int, from + i) + before.skip(i as int));
    }
    n
}

} // verus!
