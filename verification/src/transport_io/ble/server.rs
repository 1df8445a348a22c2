//! The GATT server: its advertisement, and what it does with the client's writes.
use vstd::prelude::*;

use super::ad_table;
use super::ad_table::{advertised_name, name_fit};
use super::error::BleError;
use super::types::{name_bytes, MTU_SIZE, NUS_SERVICE_UUID};
use crate::bounded::{packet_bytes, packet_extend, packet_new};

verus! {

/// A list of one 128-bit service identifier, as it is advertised.
pub open spec fn advertised_service(uuid: Seq<u8>) -> Seq<u8> {
    seq![0x11u8, 0x07u8] + uuid
}

/// How much of a list of one service identifier is written to `room` bytes: all of it, or the
/// parts that fit.
pub open spec fn service_fit(room: int) -> int {
    if room >= 18 {
        18
    } else if room >= 2 {
        2
    } else {
        0
    }
}

/// `trouble_host::advertise::AdStructure::encode_slice` of a list of the one 128-bit service
/// identifier `uuid`: writes it to the front of `buf` where it fits, and fails otherwise. A failure
/// leaves the length and the kind of the list, where they fit.
#[verifier::external_body]
fn encode_service(uuid: [u8; 16], buf: &mut [u8]) -> (r: Result<usize, ()>)
    ensures
        r is Ok <==> advertised_service(uuid@).len() <= old(buf)@.len(),
        r matches Ok(n) ==> n == advertised_service(uuid@).len(),
        final(buf)@ == advertised_service(uuid@).take(service_fit(old(buf)@.len() as int))
            + old(buf)@.skip(service_fit(old(buf)@.len() as int)),
{
    let structures = [trouble_host::advertise::AdStructure::ServiceUuids128(&[uuid])];
    trouble_host::advertise::AdStructure::encode_slice(&structures, buf).map_err(|_| ())
}

/// Writes the advertisement, flags and complete name, to the front of `adv_buf`, and the scan
/// response, the identifier of the Nordic UART Service, to the front of `scan_buf`. Returns both
/// lengths.
pub fn create_advertisement(adv_buf: &mut [u8], scan_buf: &mut [u8]) -> (r: Result<
    (usize, usize),
    BleError,
>)
    ensures
        match r {
            Ok((adv_len, scan_len)) => {
                &&& adv_len == advertised_name(name_bytes()).len() <= old(adv_buf)@.len()
                &&& final(adv_buf)@ == advertised_name(name_bytes()) + old(adv_buf)@.skip(
                    adv_len as int,
                )
                &&& scan_len == advertised_service(NUS_SERVICE_UUID@).len()
                    <= old(scan_buf)@.len()
                &&& final(scan_buf)@ == advertised_service(NUS_SERVICE_UUID@) + old(scan_buf)@.skip(
                    scan_len as int,
                )
            },
            Err(e) => {
                &&& e == BleError::AdvertisingError
                &&& advertised_name(name_bytes()).len() > old(adv_buf)@.len()
                    || advertised_service(NUS_SERVICE_UUID@).len() > old(scan_buf)@.len()
            },
        },
        final(adv_buf)@ == advertised_name(name_bytes()).take(
            name_fit(name_bytes(), old(adv_buf)@.len() as int),
        ) + old(adv_buf)@.skip(name_fit(name_bytes(), old(adv_buf)@.len() as int)),
        final(scan_buf)@ == (if advertised_name(name_bytes()).len() > old(adv_buf)@.len() {
            old(scan_buf)@
        } else {
            advertised_service(NUS_SERVICE_UUID@).take(service_fit(old(scan_buf)@.len() as int))
                + old(scan_buf)@.skip(service_fit(old(scan_buf)@.len() as int))
        }),
{
    let adv_len: usize = match ad_table::create_advertisement(adv_buf) {
        Ok(n) => n,
        Err(e) => {
            return Err(e);
        },
    };
    match encode_service(NUS_SERVICE_UUID, scan_buf) {
        Ok(scan_len) => {
            assert(advertised_service(NUS_SERVICE_UUID@).take(18) == advertised_service(
                NUS_SERVICE_UUID@,
            ));
            Ok((adv_len, scan_len))
        },
        Err(()) => Err(BleError::AdvertisingError),
    }
}

/// The scan response takes 18 bytes, and so fits the 31 that one may have.
pub proof fn law_scan_response_fits()
    ensures
        advertised_service(NUS_SERVICE_UUID@).len() == 18,
{
}

/// What happened on a GATT connection.
#[derive(Clone, Copy, Debug)]
pub enum GattEvent<'a> {
    /// The attribute server could not be attached to the connection.
    NotAttached,
    /// The client is gone.
    Disconnected,
    /// The client wrote `data` to `handle`.
    Write { handle: u16, data: &'a [u8] },
    /// Anything else.
    Other,
}

/// What follows from an event on a GATT connection.
#[derive(Debug)]
pub enum GattStep {
    /// Queue the packet for the stream and go on.
    Forward(heapless::Vec<u8, 251>),
    /// Go on.
    Continue,
    /// The connection is over.
    Closed(BleError),
}

/// What follows from an event on a GATT connection, with the packet as a sequence.
#[verifier::ext_equal]
pub enum GattStepView {
    Forward(Seq<u8>),
    Continue,
    Closed(BleError),
}

impl View for GattStep {
    type V = GattStepView;

    open spec fn view(&self) -> GattStepView {
        match self {
            GattStep::Forward(packet) => GattStepView::Forward(packet_bytes(*packet)),
            GattStep::Continue => GattStepView::Continue,
            GattStep::Closed(e) => GattStepView::Closed(*e),
        }
    }
}

/// What follows from `event` where the client writes its data to `rx_handle`. Of a write that is
/// longer than the MTU the front is kept.
pub open spec fn gatt_step(rx_handle: u16, event: GattEvent) -> GattStepView {
    match event {
        GattEvent::NotAttached => GattStepView::Closed(BleError::GattError),
        GattEvent::Disconnected => GattStepView::Closed(BleError::ChannelClosed),
        GattEvent::Write { handle, data } => if handle == rx_handle {
            GattStepView::Forward(
                if data@.len() <= MTU_SIZE {
                    data@
                } else {
                    data@.take(MTU_SIZE as int)
                },
            )
        } else {
            GattStepView::Continue
        },
        GattEvent::Other => GattStepView::Continue,
    }
}

/// Handles an event on a GATT connection: data from the client is queued for the stream, writes
/// to other handles are left to the attribute table.
pub fn run_gatt_connection(rx_handle: u16, event: GattEvent) -> (step: GattStep)
    ensures
        step@ == gatt_step(rx_handle, event),
{
    match event {
        GattEvent::NotAttached => GattStep::Closed(BleError::GattError),
        GattEvent::Disconnected => GattStep::Closed(BleError::ChannelClosed),
        GattEvent::Write { handle, data } => {
            if handle != rx_handle {
                return GattStep::Continue;
            }
            let n: usize = if data.len() < MTU_SIZE {
                data.len()
            } else {
                MTU_SIZE
            };
            let mut packet = packet_new();
            let front = &data[0..n];
            assert(front@ == (if data@.len() <= MTU_SIZE {
                data@
            } else {
                data@.take(MTU_SIZE as int)
            }));
            let _ = packet_extend(&mut packet, front);
            assert(Seq::<u8>::empty() + front@ == front@);
            GattStep::Forward(packet)
        },
        GattEvent::Other => GattStep::Continue,
    }
}

/// The scan response byte by byte: 17 bytes follow, a complete list of 128-bit identifiers, and the
/// identifier. Where it does not fit, its first two bytes are written if they do.
pub proof fn law_bytes_of_the_scan_response(uuid: Seq<u8>, room: int)
    requires
        uuid.len() == 16,
        0 <= room,
    ensures
        advertised_service(uuid).len() == 18,
        advertised_service(uuid)[0] == 17,
        advertised_service(uuid)[1] == 7,
        forall|i: int| 0 <= i < 16 ==> advertised_service(uuid)[2 + i] == #[trigger] uuid[i],
        room >= 18 ==> service_fit(room) == 18,
        2 <= room < 18 ==> service_fit(room) == 2,
        room < 2 ==> service_fit(room) == 0,
{
}

/// What the client writes to its handle is forwarded byte for byte, up to 251 bytes of it; writes
/// to other handles are not. The end of the connection closes it.
pub proof fn law_writes_are_forwarded(rx_handle: u16, handle: u16, data: &[u8])
    ensures
        match gatt_step(rx_handle, GattEvent::Write { handle, data }) {
            GattStepView::Forward(packet) => {
                &&& handle == rx_handle
                &&& data@.len() <= 251 ==> packet.len() == data@.len()
                &&& data@.len() > 251 ==> packet.len() == 251
                &&& forall|i: int| 0 <= i < packet.len() ==> #[trigger] packet[i] == data@[i]
            },
            GattStepView::Continue => handle != rx_handle,
            GattStepView::Closed(_) => false,
        },
        gatt_step(rx_handle, GattEvent::NotAttached) == GattStepView::Closed(BleError::GattError),
        gatt_step(rx_handle, GattEvent::Disconnected) == GattStepView::Closed(
            BleError::ChannelClosed,
        ),
        gatt_step(rx_handle, GattEvent::Other) == GattStepView::Continue,
{
}

/// A forwarded packet is its bytes.
pub proof fn law_values_of_gatt_steps(packet: heapless::Vec<u8, 251>, e: BleError)
    ensures
        GattStep::Forward(packet)@ == GattStepView::Forward(packet_bytes(packet)),
        GattStep::Continue@ == GattStepView::Continue,
        GattStep::Closed(e)@ == GattStepView::Closed(e),
{
}

} // verus!
