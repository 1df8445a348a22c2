//! The link over an L2CAP channel.
use vstd::prelude::*;

use super::error::BleError;
use super::types::MTU_SIZE;
use crate::bounded::{packet_bytes, packet_extend, packet_new};
use crate::transport::link::{LinkAction, LinkEvent, LinkPhase};

verus! {

/// The channel number on which a client may open its L2CAP channel.
pub const L2CAP_PSM: u16 = 0x0080;

/// The link over an L2CAP channel. Unlike a served transport it gives up when it cannot advertise
/// or accept.
#[derive(Debug)]
pub struct BleOrchestrator {
    phase: LinkPhase,
}

/// What the link came to.
#[derive(Clone, Copy, Debug, PartialEq, Eq, Structural)]
pub enum OrchestratorStep {
    Next(LinkAction),
    Failed(BleError),
}

impl BleOrchestrator {
    /// Where the link stands.
    pub closed spec fn link(&self) -> LinkPhase {
        self.phase
    }

    pub fn new() -> (o: BleOrchestrator)
        ensures
            o.link() == LinkPhase::Advertising,
    {
        BleOrchestrator { phase: LinkPhase::Advertising }
    }

    /// Carries the link on with what happened to its last action. However serving a client ends,
    /// the next one is waited for; an advertisement or a connection that fails ends it all.
    pub fn run(&mut self, event: LinkEvent) -> (step: OrchestratorStep)
        requires
            old(self).link() != LinkPhase::Resting,
            old(self).link().expects(event),
        ensures
            match event {
                LinkEvent::Advertised { ok: false } => {
                    &&& step == OrchestratorStep::Failed(BleError::AdvertisingError)
                    &&& *final(self) == *old(self)
                },
                LinkEvent::Accepted { ok: false } => {
                    &&& step == OrchestratorStep::Failed(BleError::ConnectionFailed)
                    &&& *final(self) == *old(self)
                },
                _ => {
                    &&& final(self).link() == old(self).link().next(event).0
                    &&& final(self).link() != LinkPhase::Resting
                    &&& step == OrchestratorStep::Next(old(self).link().next(event).1)
                },
            },
    {
        match event {
            LinkEvent::Advertised { ok } => {
                if !ok {
                    return OrchestratorStep::Failed(BleError::AdvertisingError);
                }
            },
            LinkEvent::Accepted { ok } => {
                if !ok {
                    return OrchestratorStep::Failed(BleError::ConnectionFailed);
                }
            },
            _ => {},
        }
        OrchestratorStep::Next(self.phase.advance(event))
    }

    /// What serving a client came to: the channel could not be opened, or both directions have
    /// ended. An error of the receiving direction comes first.
    pub fn run_l2cap(
        &self,
        opened: bool,
        pump_in: Result<(), BleError>,
        pump_out: Result<(), BleError>,
    ) -> (r: Result<(), BleError>)
        ensures
            r == (if !opened {
                Err(BleError::L2capError)
            } else if pump_in is Err {
                pump_in
            } else {
                pump_out
            }),
    {
        if !opened {
            return Err(BleError::L2capError);
        }
        match pump_in {
            Err(e) => Err(e),
            Ok(()) => pump_out,
        }
    }

    /// The packet to queue for the stream when the channel has received something: `None` stands
    /// for a failure of the channel. Receiving nothing means that the client has closed it.
    pub fn pump_in(&self, received: Option<&[u8]>) -> (r: Result<heapless::Vec<u8, 251>, BleError>)
        ensures
            match received {
                None => r matches Err(e) && e == BleError::L2capError,
                Some(data) => if data@.len() == 0 {
                    r matches Err(e) && e == BleError::ChannelClosed
                } else if data@.len() > MTU_SIZE {
                    r matches Err(e) && e == BleError::MtuExceeded
                } else {
                    r matches Ok(packet) && packet_bytes(packet) == data@
                },
            },
    {
        let data = match received {
            Some(data) => data,
            None => {
                return Err(BleError::L2capError);
            },
        };
        if data.len() == 0 {
            return Err(BleError::ChannelClosed);
        }
        let mut packet = packet_new();
        match packet_extend(&mut packet, data) {
            Ok(()) => {
                assert(Seq::<u8>::empty() + data@ == data@);
                Ok(packet)
            },
            Err(()) => Err(BleError::MtuExceeded),
        }
    }

    /// What sending a packet on the channel came to.
    pub fn pump_out(&self, sent: bool) -> (r: Result<(), BleError>)
        ensures
            r == (if sent {
                Ok(())
            } else {
                Err(BleError::L2capError)
            }),
    {
        if sent {
            Ok(())
        } else {
            Err(BleError::L2capError)
        }
    }
}

} // verus!
