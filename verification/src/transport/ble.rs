//! The transport over a BLE service with one characteristic for each direction.
use vstd::prelude::*;

use super::link::{LinkAction, LinkEvent, LinkPhase};
use super::{copy_to_front, TransportAdapter};
use crate::bounded::{payload_bytes, payload_from_slice};

verus! {

/// Pause between two looks whether a client is connected, in microseconds.
pub const CONNECTION_POLL: u64 = 100_000;

/// Longest packet from the client that is kept.
pub const MAX_PACKET: usize = 256;

/// The transport over BLE.
#[derive(Debug)]
pub struct BleTransport {
    phase: LinkPhase,
    connection: bool,
    rx_handle: u16,
    tx_handle: Option<u16>,
}

impl BleTransport {
    /// Where the link stands.
    pub closed spec fn link(&self) -> LinkPhase {
        self.phase
    }

    /// The handle that the client writes to.
    pub closed spec fn receives_on(&self) -> u16 {
        self.rx_handle
    }

    /// The handle that the client is notified on, once the service is set up.
    pub closed spec fn sends_on(&self) -> Option<u16> {
        self.tx_handle
    }

    /// A connection is held exactly while a client is served.
    pub open spec fn well_formed(&self) -> bool {
        self.connected() <==> self.link() == LinkPhase::Serving
    }

    /// A transport without a service: no client is connected, nothing can be sent, and the client
    /// writes to handle 0, which no attribute has.
    pub fn new() -> (t: BleTransport)
        ensures
            t.well_formed(),
            t.link() == LinkPhase::Advertising,
            !t.connected(),
            t.receives_on() == 0,
            t.sends_on() is None,
            t.destination() == Err::<u16, ()>(()),
    {
        BleTransport {
            phase: LinkPhase::Advertising,
            connection: false,
            rx_handle: 0,
            tx_handle: None,
        }
    }

    /// Sets the service up: the client writes to `rx_handle` and is notified on `tx_handle`.
    pub fn register(&mut self, rx_handle: u16, tx_handle: u16)
        ensures
            final(self).link() == old(self).link(),
            final(self).connected() == old(self).connected(),
            final(self).receives_on() == rx_handle,
            final(self).sends_on() == Some(tx_handle),
    {
        self.rx_handle = rx_handle;
        self.tx_handle = Some(tx_handle);
    }

    /// Carries the link on with what happened to its last action. The connection is held from the
    /// moment a client is accepted until it is gone.
    pub fn run(&mut self, event: LinkEvent) -> (action: LinkAction)
        requires
            old(self).well_formed(),
            old(self).link().expects(event),
        ensures
            final(self).well_formed(),
            (final(self).link(), action) == old(self).link().next(event),
            final(self).receives_on() == old(self).receives_on(),
            final(self).sends_on() == old(self).sends_on(),
    {
        let action = self.phase.advance(event);
        match event {
            LinkEvent::Accepted { ok } => {
                if ok {
                    self.connection = true;
                }
            },
            LinkEvent::Closed => {
                self.connection = false;
            },
            _ => {},
        }
        action
    }

    /// The packet to queue when the client writes `data` to `handle`. Writes to other handles and
    /// packets that are too long are dropped.
    pub fn on_write(&self, handle: u16, data: &[u8]) -> (packet: Option<heapless::Vec<u8, 256>>)
        ensures
            packet is Some <==> handle == self.receives_on() && data@.len() <= MAX_PACKET,
            packet matches Some(p) ==> payload_bytes(p) == data@,
    {
        if handle != self.rx_handle {
            return None;
        }
        match payload_from_slice(data) {
            Ok(packet) => Some(packet),
            Err(()) => None,
        }
    }
}

impl TransportAdapter for BleTransport {
    type Error = ();

    closed spec fn connected(&self) -> bool {
        self.connection
    }

    open spec fn destination(&self) -> Result<u16, ()> {
        if self.connected() && self.sends_on() is Some {
            Ok(self.sends_on()->Some_0)
        } else {
            Err(())
        }
    }

    fn wait_for_connection(&self) -> (pause: Option<u64>)
        ensures
            pause matches Some(us) ==> us == CONNECTION_POLL,
    {
        if self.connection {
            None
        } else {
            Some(CONNECTION_POLL)
        }
    }

    fn read(&self, packet: &[u8], buffer: &mut [u8]) -> (n: usize) {
        let n: usize = copy_to_front(packet, 0, buffer);
        assert(packet@.subrange(0, n as int) == packet@.take(n as int));
        n
    }

    fn write(&self) -> (r: Result<u16, ()>) {
        if self.connection {
            match self.tx_handle {
                Some(handle) => Ok(handle),
                None => Err(()),
            }
        } else {
            Err(())
        }
    }

    fn is_connected(&self) -> (r: bool) {
        self.connection
    }
}

/// A client that is served can be sent to once the service is set up, and nobody else can.
pub proof fn law_only_a_served_client_is_sent_to(t: BleTransport)
    requires
        t.well_formed(),
    ensures
        t.destination() is Ok <==> t.link() == LinkPhase::Serving && t.sends_on() is Some,
{
}

/// What is sent to a connected client goes out on the handle that was set up for it.
pub proof fn law_handle_of_the_client(t: BleTransport, handle: u16)
    ensures
        t.destination() == Ok::<u16, ()>(handle) <==> t.connected() && t.sends_on() == Some(handle),
        !t.connected() ==> t.destination() == Err::<u16, ()>(()),
{
}

/// The limits of the transport: a client is looked for every 100 ms, and a packet holds up to 256
/// bytes.
pub proof fn law_limits_of_the_transport()
    ensures
        CONNECTION_POLL == 100_000,
        MAX_PACKET == 256,
{
}

} // verus!
