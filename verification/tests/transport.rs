use obd_rust::transport::ble::BleTransport;
use obd_rust::transport::link::{LinkAction, LinkEvent, LinkPhase};
use obd_rust::transport::{copy_to_front, TransportAdapter};
use obd_rust::transport_io::ble::error::{BleError, BleErrorKind};
use obd_rust::transport_io::ble::orchestrator::{BleOrchestrator, OrchestratorStep};
use obd_rust::transport_io::ble::server::{run_gatt_connection, GattEvent, GattStep};
use obd_rust::transport_io::ble::stream::{BleStream, ReadStep, WriteStep};
use obd_rust::transport_io::ble::types::{
    device_name, DEVICE_NAME, MTU_SIZE, NUS_SERVICE_UUID,
};
use obd_rust::transport_io::ble::{ad_table, server};

fn packet(data: &[u8]) -> heapless::Vec<u8, 251> {
    heapless::Vec::from_slice(data).unwrap()
}

#[test]
fn packets_are_as_long_as_the_pool_allows() {
    assert_eq!(MTU_SIZE, trouble_host::config::DEFAULT_PACKET_POOL_MTU);
    assert_eq!(DEVICE_NAME, "WROOM-OBD");
    assert_eq!(device_name(), b"WROOM-OBD");
}

#[test]
fn service_identifier() {
    let mut bytes = NUS_SERVICE_UUID;
    bytes.reverse();
    let text: String = bytes.iter().map(|b| format!("{:02x}", b)).collect();
    assert_eq!(text, "6e400001b5b3f393e0a9e50e24dcca9e");
}

#[test]
fn advertised_flags() {
    assert_eq!(
        ad_table::ADVERTISED_FLAGS,
        trouble_host::advertise::LE_GENERAL_DISCOVERABLE
            | trouble_host::advertise::BR_EDR_NOT_SUPPORTED
    );
}

#[test]
fn link_goes_round() {
    let mut t = BleTransport::new();
    t.register(0x11, 0x22);
    assert!(!t.is_connected());
    assert_eq!(t.wait_for_connection(), Some(100_000));
    assert_eq!(t.write(), Err(()));
    assert_eq!(
        t.run(LinkEvent::Advertised { ok: false }),
        LinkAction::Pause { duration_us: 1_000_000 }
    );
    assert_eq!(t.run(LinkEvent::Elapsed), LinkAction::Advertise);
    assert_eq!(t.run(LinkEvent::Advertised { ok: true }), LinkAction::Accept);
    assert_eq!(t.run(LinkEvent::Accepted { ok: false }), LinkAction::Advertise);
    assert!(!t.is_connected());
    assert_eq!(t.run(LinkEvent::Advertised { ok: true }), LinkAction::Accept);
    assert_eq!(t.run(LinkEvent::Accepted { ok: true }), LinkAction::Serve);
    assert!(t.is_connected());
    assert_eq!(t.wait_for_connection(), None);
    assert_eq!(t.write(), Ok(0x22));
    assert_eq!(t.run(LinkEvent::Closed), LinkAction::Advertise);
    assert!(!t.is_connected());
    assert_eq!(t.write(), Err(()));
}

#[test]
fn nothing_is_sent_without_a_service() {
    let mut t = BleTransport::new();
    t.run(LinkEvent::Advertised { ok: true });
    t.run(LinkEvent::Accepted { ok: true });
    assert!(t.is_connected());
    assert_eq!(t.write(), Err(()));
}

#[test]
fn writes_are_queued() {
    let mut t = BleTransport::new();
    t.register(0x11, 0x22);
    assert_eq!(&t.on_write(0x11, &[1, 2, 3]).unwrap()[..], &[1, 2, 3]);
    assert!(t.on_write(0x12, &[1, 2, 3]).is_none());
    assert_eq!(t.on_write(0x11, &[9; 256]).unwrap().len(), 256);
    assert!(t.on_write(0x11, &[9; 257]).is_none());
}

#[test]
fn packets_are_cut_to_the_buffer() {
    let t = BleTransport::new();
    let mut buffer = [0xEE; 4];
    assert_eq!(t.read(&[1, 2], &mut buffer), 2);
    assert_eq!(buffer, [1, 2, 0xEE, 0xEE]);
    assert_eq!(t.read(&[5, 6, 7, 8, 9], &mut buffer), 4);
    assert_eq!(buffer, [5, 6, 7, 8]);
    assert_eq!(copy_to_front(&[1, 2, 3], 2, &mut buffer), 1);
    assert_eq!(buffer, [3, 6, 7, 8]);
}

#[test]
fn orchestrator_gives_up() {
    let mut o = BleOrchestrator::new();
    assert_eq!(
        o.run(LinkEvent::Advertised { ok: true }),
        OrchestratorStep::Next(LinkAction::Accept)
    );
    assert_eq!(
        o.run(LinkEvent::Accepted { ok: false }),
        OrchestratorStep::Failed(BleError::ConnectionFailed)
    );
    assert_eq!(
        o.run(LinkEvent::Accepted { ok: true }),
        OrchestratorStep::Next(LinkAction::Serve)
    );
    assert_eq!(o.run(LinkEvent::Closed), OrchestratorStep::Next(LinkAction::Advertise));
    assert_eq!(
        o.run(LinkEvent::Advertised { ok: false }),
        OrchestratorStep::Failed(BleError::AdvertisingError)
    );
    let mut phase = LinkPhase::Advertising;
    assert_eq!(phase.advance(LinkEvent::Advertised { ok: true }), LinkAction::Accept);
}

#[test]
fn pumps() {
    let o = BleOrchestrator::new();
    assert_eq!(o.pump_in(None), Err(BleError::L2capError));
    assert_eq!(o.pump_in(Some(&[])), Err(BleError::ChannelClosed));
    assert_eq!(o.pump_in(Some(&[1, 2])), Ok(packet(&[1, 2])));
    assert_eq!(o.pump_in(Some(&[3; 251])), Ok(packet(&[3; 251])));
    assert_eq!(o.pump_in(Some(&[3; 252])), Err(BleError::MtuExceeded));
    assert_eq!(o.pump_out(true), Ok(()));
    assert_eq!(o.pump_out(false), Err(BleError::L2capError));
    let closed = Err(BleError::ChannelClosed);
    let lost = Err(BleError::L2capError);
    assert_eq!(o.run_l2cap(false, Ok(()), Ok(())), lost);
    assert_eq!(o.run_l2cap(true, closed, lost), closed);
    assert_eq!(o.run_l2cap(true, Ok(()), lost), lost);
    assert_eq!(o.run_l2cap(true, Ok(()), Ok(())), Ok(()));
}

#[test]
fn gatt_events() {
    let step = run_gatt_connection(7, GattEvent::Write { handle: 7, data: &[1, 2] });
    assert!(matches!(step, GattStep::Forward(ref p) if p[..] == [1, 2]));
    let long = [5u8; 300];
    let step = run_gatt_connection(7, GattEvent::Write { handle: 7, data: &long });
    assert!(matches!(step, GattStep::Forward(ref p) if p[..] == long[..251]));
    let step = run_gatt_connection(7, GattEvent::Write { handle: 8, data: &[1, 2] });
    assert!(matches!(step, GattStep::Continue));
    assert!(matches!(run_gatt_connection(7, GattEvent::Other), GattStep::Continue));
    assert!(matches!(
        run_gatt_connection(7, GattEvent::Disconnected),
        GattStep::Closed(BleError::ChannelClosed)
    ));
    assert!(matches!(
        run_gatt_connection(7, GattEvent::NotAttached),
        GattStep::Closed(BleError::GattError)
    ));
}

#[test]
fn advertisement_bytes() {
    let mut buf = [0u8; 31];
    assert_eq!(ad_table::create_advertisement(&mut buf), Ok(14));
    assert_eq!(&buf[..14], b"\x02\x01\x06\x0a\x09WROOM-OBD");
    assert_eq!(buf[14..], [0; 17]);
    let mut short = [0u8; 13];
    assert_eq!(ad_table::create_advertisement(&mut short), Err(BleError::AdvertisingError));
    assert_eq!(short, *b"\x02\x01\x06\x0a\x09\0\0\0\0\0\0\0\0");
    let mut shorter = [7u8; 4];
    assert_eq!(ad_table::create_advertisement(&mut shorter), Err(BleError::AdvertisingError));
    assert_eq!(shorter, [2, 1, 6, 7]);
    let mut shortest = [7u8; 2];
    assert_eq!(ad_table::create_advertisement(&mut shortest), Err(BleError::AdvertisingError));
    assert_eq!(shortest, [7, 7]);
    let mut exact = [0u8; 14];
    assert_eq!(ad_table::create_advertisement(&mut exact), Ok(14));
}

#[test]
fn scan_response_bytes() {
    let mut adv = [0u8; 31];
    let mut scan = [0u8; 31];
    assert_eq!(server::create_advertisement(&mut adv, &mut scan), Ok((14, 18)));
    assert_eq!(&adv[..14], b"\x02\x01\x06\x0a\x09WROOM-OBD");
    assert_eq!(
        scan[..18],
        [
            0x11, 0x07, 0x9E, 0xCA, 0xDC, 0x24, 0x0E, 0xE5, 0xA9, 0xE0, 0x93, 0xF3, 0xB3, 0xB5,
            0x01, 0x00, 0x40, 0x6E
        ]
    );
    let failed = Err(BleError::AdvertisingError);
    let mut short = [3u8; 17];
    assert_eq!(server::create_advertisement(&mut adv, &mut short), failed);
    assert_eq!(short[..4], [0x11, 0x07, 3, 3]);
    let mut shortest = [3u8; 1];
    assert_eq!(server::create_advertisement(&mut adv, &mut shortest), failed);
    assert_eq!(shortest, [3]);
    assert_eq!(server::create_advertisement(&mut [0u8; 13], &mut scan), failed);
}

#[test]
fn errors_in_words() {
    let table = [
        (BleError::AdvertisingError, BleErrorKind::Other, "Advertising failed"),
        (BleError::ConnectionFailed, BleErrorKind::NotConnected, "Connection failed"),
        (BleError::L2capError, BleErrorKind::Other, "L2CAP error"),
        (BleError::MtuExceeded, BleErrorKind::OutOfMemory, "MTU exceeded"),
        (BleError::ChannelClosed, BleErrorKind::BrokenPipe, "Channel closed"),
        (BleError::Timeout, BleErrorKind::TimedOut, "Timeout"),
        (BleError::GattError, BleErrorKind::Other, "GATT error"),
        (BleError::Other, BleErrorKind::Other, "Other error"),
    ];
    for (e, kind, text) in table {
        assert_eq!(e.kind(), kind);
        assert_eq!(e.message(), text);
    }
}

#[test]
fn reads_keep_what_does_not_fit() {
    let mut s = BleStream::new();
    let mut buf = [0u8; 3];
    assert_eq!(s.read(&mut []), ReadStep::Done(0));
    assert_eq!(s.read(&mut buf), ReadStep::NeedPacket);
    assert_eq!(s.read_packet(packet(&[1, 2, 3, 4]), &mut buf), 3);
    assert_eq!(buf, [1, 2, 3]);
    assert_eq!(s.read(&mut []), ReadStep::Done(0));
    assert_eq!(s.read(&mut buf), ReadStep::Done(1));
    assert_eq!(buf, [4, 2, 3]);
    assert_eq!(s.read(&mut buf), ReadStep::NeedPacket);
    assert_eq!(s.read_packet(packet(&[]), &mut buf), 0);
    assert_eq!(s.read(&mut buf), ReadStep::NeedPacket);
    assert_eq!(s.flush(), Ok(()));
}

fn packets_of(data: &[u8]) -> Vec<Vec<u8>> {
    let s = BleStream::new();
    let mut offset = 0;
    let mut out = Vec::new();
    loop {
        match s.write(data, offset).unwrap() {
            WriteStep::Send(p) => {
                offset += p.len();
                out.push(p.to_vec());
            }
            WriteStep::Done(n) => {
                assert_eq!(n, data.len());
                return out;
            }
        }
    }
}

#[test]
fn writes_are_cut_to_the_mtu() {
    assert!(packets_of(&[]).is_empty());
    for len in [1usize, 250, 251, 252, 502, 503, 1000] {
        let data: Vec<u8> = (0..len).map(|i| (i * 13) as u8).collect();
        let packets = packets_of(&data);
        assert_eq!(packets.len(), (len + 250) / 251);
        for p in &packets[..packets.len() - 1] {
            assert_eq!(p.len(), 251);
        }
        assert_eq!(packets.concat(), data);
    }
}

#[test]
fn what_is_written_is_read() {
    let data: Vec<u8> = (0..700usize).map(|i| (i * 3) as u8).collect();
    let mut s = BleStream::new();
    let mut got = Vec::new();
    let mut waiting = packets_of(&data).into_iter();
    let mut room = 1;
    loop {
        let mut buf = vec![0u8; room];
        room = room % 97 + 5;
        match s.read(&mut buf) {
            ReadStep::Done(n) => got.extend_from_slice(&buf[..n]),
            ReadStep::NeedPacket => match waiting.next() {
                Some(p) => {
                    let n = s.read_packet(packet(&p), &mut buf);
                    got.extend_from_slice(&buf[..n]);
                }
                None => break,
            },
        }
    }
    assert_eq!(got, data);
}
