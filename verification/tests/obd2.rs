use obd_rust::can::config::{is_extended, reset_protocol, set_protocol, ProtocolConfig};
use obd_rust::can::discovery::{
    DiscoveryAction, DiscoveryEvent, DiscoveryPhase, DiscoveryService,
};
use obd_rust::can::dtc::{decode_payload, decode_responses, parse_bytes};
use obd_rust::can::id::CanId;
use obd_rust::can::iso_tp::functional::FunctionalStep;
use obd_rust::can::iso_tp::handler::IsoTpHandler;
use obd_rust::can::iso_tp::receive::ReceiveStep;
use obd_rust::can::iso_tp::transfer::EcuResponse;
use obd_rust::can::iso_tp::types::{Action, Event, IsoTpError, RxEvent, TxEvent};
use obd_rust::can::obd2::{
    parse_vin, ClearStep, Obd2Service, ECU_ENGINE_TX_ID, OBD_FUNC_REQ_EXT, OBD_FUNC_REQ_STD,
};

fn service() -> Obd2Service<()> {
    Obd2Service::new(IsoTpHandler::new(()))
}

fn sent(action: Action) -> (CanId, [u8; 8]) {
    match action {
        Action::Transmit { id, frame, timeout_us } => {
            assert_eq!(timeout_us, 5_000_000);
            (id, frame)
        }
        other => panic!("{:?}", other),
    }
}

fn rx(id: CanId, data: &[u8]) -> Event<'_> {
    Event::Rx(RxEvent::Frame { id, data })
}

fn bytes(data: &[u8]) -> heapless::Vec<u8, 256> {
    heapless::Vec::from_slice(data).unwrap()
}

fn response(id: CanId, data: &[u8]) -> EcuResponse {
    EcuResponse { id, data: bytes(data) }
}

#[test]
fn identifiers_follow_the_mode() {
    let mut s = service();
    assert_eq!(s.get_functional_id(), CanId::Standard(0x7DF));
    assert_eq!(s.to_id(0x7E0), CanId::Standard(0x7E0));
    assert_eq!(s.to_id(0x0001_07E1), CanId::Standard(0x7E1));
    s.to_extended_adr(0x10);
    assert_eq!(s.get_functional_id(), CanId::Extended(0x18DB_33F1));
    assert_eq!(s.to_id(0x18DA_10F1), CanId::Extended(0x18DA_10F1));
    assert_eq!(s.tp().target_addr(), 0x10);
    s.to_normal_addr();
    assert_eq!(s.get_functional_id(), CanId::Standard(0x7DF));
    assert_eq!(OBD_FUNC_REQ_STD, 0x7DF);
    assert_eq!(OBD_FUNC_REQ_EXT, 0x18DB_33F1);
    assert_eq!(ECU_ENGINE_TX_ID, 0x7E0);
}

#[test]
fn requests_on_the_wire() {
    let mut s = service();
    let all = CanId::Standard(0x7DF);
    let (_, a) = s.get_broadcast_livedata(0x0D).unwrap();
    assert_eq!(sent(a), (all, [0x02, 0x01, 0x0D, 0xCC, 0xCC, 0xCC, 0xCC, 0xCC]));
    let (_, a) = s.clear_dtcs().unwrap();
    assert_eq!(sent(a), (all, [0x01, 0x04, 0xCC, 0xCC, 0xCC, 0xCC, 0xCC, 0xCC]));
    let (_, a) = s.get_stored_dtcs().unwrap();
    assert_eq!(sent(a), (all, [0x01, 0x03, 0xCC, 0xCC, 0xCC, 0xCC, 0xCC, 0xCC]));
    let (_, a) = s.get_vin(ECU_ENGINE_TX_ID).unwrap();
    assert_eq!(
        sent(a),
        (CanId::Standard(0x7E0), [0x02, 0x09, 0x02, 0xCC, 0xCC, 0xCC, 0xCC, 0xCC])
    );
    s.to_extended_adr(0xF1);
    let (_, a) = s.get_broadcast_livedata(0x0D).unwrap();
    assert_eq!(
        sent(a),
        (CanId::Extended(0x18DB_33F1), [0xF1, 0x02, 0x01, 0x0D, 0xCC, 0xCC, 0xCC, 0xCC])
    );
}

#[test]
fn vin_is_read() {
    let s = service();
    let (mut e, _) = s.get_vin(0x7E0).unwrap();
    let from = CanId::Standard(0x7E8);
    s.continue_vin(&mut e, Event::Tx(TxEvent::Sent), 0);
    s.continue_vin(&mut e, rx(from, &[0x10, 20, 0x49, 0x02, 0x01, b'1', b'H', b'G']), 1);
    s.continue_vin(&mut e, Event::Tx(TxEvent::Sent), 2);
    s.continue_vin(&mut e, rx(from, b"\x21CM82633"), 3);
    match s.continue_vin(&mut e, rx(from, b"\x22A004352"), 4) {
        ReceiveStep::Complete(vin) => assert_eq!(&vin[..], b"1HGCM82633A004352"),
        other => panic!("{:?}", other),
    }
}

#[test]
fn vin_responses_of_other_kinds_fail() {
    assert_eq!(parse_vin(&bytes(&[0x49, 0x02, 0x01, b'X'])), Ok(bytes(b"X")));
    for raw in [
        &[][..],
        &[0x49, 0x02, 0x01],
        &[0x48, 0x02, 0x01, b'X'],
        &[0x49, 0x04, 0x01, b'X'],
    ] {
        assert_eq!(parse_vin(&bytes(raw)), Err(IsoTpError::DriverError));
    }
    let s = service();
    let (mut e, _) = s.get_vin(0x7E0).unwrap();
    s.continue_vin(&mut e, Event::Tx(TxEvent::Sent), 0);
    let step = s.continue_vin(&mut e, rx(CanId::Standard(0x7E8), &[3, 0x7F, 0x09, 0x12]), 1);
    assert!(matches!(step, ReceiveStep::Failed(IsoTpError::DriverError)));
}

#[test]
fn clearing_needs_one_answer() {
    let s = service();
    let (mut e, _) = s.clear_dtcs().unwrap();
    assert!(matches!(
        s.continue_clear(&mut e, Event::Tx(TxEvent::Sent), 0),
        ClearStep::Next(Action::Receive { timeout_us: 100_000 })
    ));
    s.continue_clear(&mut e, rx(CanId::Standard(0x7E8), &[1, 0x44]), 10);
    assert!(matches!(
        s.continue_clear(&mut e, Event::Rx(RxEvent::TimedOut), 20),
        ClearStep::Cleared
    ));
    let (mut e, _) = s.clear_dtcs().unwrap();
    s.continue_clear(&mut e, Event::Tx(TxEvent::Sent), 0);
    assert!(matches!(
        s.continue_clear(&mut e, Event::Rx(RxEvent::TimedOut), 20),
        ClearStep::Failed(IsoTpError::TimeoutCr)
    ));
}

#[test]
fn live_data_is_collected() {
    let s = service();
    let (mut e, _) = s.get_broadcast_livedata(0x0C).unwrap();
    s.continue_functional(&mut e, Event::Tx(TxEvent::Sent), 0);
    s.continue_functional(&mut e, rx(CanId::Standard(0x7EA), &[4, 0x41, 0x0C, 0x1A, 0xF8]), 5);
    match s.continue_functional(&mut e, Event::Rx(RxEvent::TimedOut), 100_005) {
        FunctionalStep::Complete(list) => {
            assert_eq!(list.len(), 1);
            assert_eq!(list[0].id, CanId::Standard(0x7EA));
            assert_eq!(&list[0].data[..], &[0x41, 0x0C, 0x1A, 0xF8]);
        }
        other => panic!("{:?}", other),
    }
}

#[test]
fn code_texts() {
    assert_eq!(parse_bytes(0x01, 0x33).as_str(), "P0133");
    assert_eq!(parse_bytes(0x43, 0x00).as_str(), "C0300");
    assert_eq!(parse_bytes(0x9A, 0xBC).as_str(), "B1ABC");
    assert_eq!(parse_bytes(0xC1, 0x5A).as_str(), "U015A");
    assert_eq!(parse_bytes(0xFF, 0xFF).as_str(), "U3FFF");
    assert_eq!(parse_bytes(0x00, 0x00).as_str(), "P0000");
}

#[test]
fn codes_are_unambiguous() {
    let mut seen = std::collections::HashSet::new();
    for b1 in 0..=255u8 {
        for b2 in 0..=255u8 {
            assert!(seen.insert(parse_bytes(b1, b2).as_str().to_string()));
        }
    }
    assert_eq!(seen.len(), 65536);
}

#[test]
fn payloads_are_decoded() {
    let id = CanId::Standard(0x7E8);
    let with_service = decode_payload(&response(id, &[0x43, 0x01, 0x33, 0x00, 0x00, 0xC1, 0x5A]));
    assert_eq!(with_service.ecu_id, 0x7E8);
    let texts: Vec<&str> = with_service.dtcs.iter().map(|d| d.as_str()).collect();
    assert_eq!(texts, ["P0133", "U015A"]);
    let bare = decode_payload(&response(id, &[0x01, 0x33, 0xC1, 0x5A, 0x07]));
    let texts: Vec<&str> = bare.dtcs.iter().map(|d| d.as_str()).collect();
    assert_eq!(texts, ["P0133", "U015A"]);
    assert_eq!(decode_payload(&response(id, &[])).dtcs.len(), 0);
    assert_eq!(decode_payload(&response(id, &[0x43])).dtcs.len(), 0);
    let padded = decode_payload(&response(id, &[0x43, 0x01, 0x33, 0x00, 0x00]));
    assert_eq!(padded.dtcs.len(), 1);
}

#[test]
fn codes_beyond_the_room_are_dropped() {
    let mut data = vec![0x43u8];
    for i in 0..40u8 {
        data.extend_from_slice(&[0x01, i + 1]);
    }
    let parsed = decode_payload(&response(CanId::Extended(0x18DA_F110), &data));
    assert_eq!(parsed.ecu_id, 0x18DA_F110);
    assert_eq!(parsed.dtcs.len(), 32);
    assert_eq!(parsed.dtcs[31].as_str(), "P0120");
}

#[test]
fn all_responses_are_decoded() {
    let list: Vec<EcuResponse> = (0..10u16)
        .map(|i| response(CanId::Standard(0x7E8 + i), &[0x43, 0x01, i as u8]))
        .collect();
    let parsed = decode_responses(&list);
    assert_eq!(parsed.len(), 8);
    assert_eq!(parsed[7].ecu_id, 0x7EF);
    assert_eq!(parsed[7].dtcs[0].as_str(), "P0107");
    assert_eq!(decode_responses(&[]).len(), 0);
}

#[test]
fn protocol_is_locked_once() {
    let mut config = ProtocolConfig::new();
    assert!(!is_extended(&config));
    assert_eq!(set_protocol(&mut config, true), Ok(()));
    assert!(is_extended(&config));
    assert_eq!(set_protocol(&mut config, false), Err("Protocol already locked"));
    assert!(is_extended(&config));
    reset_protocol(&mut config);
    assert!(is_extended(&config));
    assert_eq!(set_protocol(&mut config, false), Ok(()));
    assert!(!is_extended(&config));
}

#[test]
fn discovery_takes_turns() {
    let d = DiscoveryService::new(IsoTpHandler::new(()));
    let mut config = ProtocolConfig::new();
    let (mut phase, action) = d.start_discovery();
    assert!(matches!(
        action,
        DiscoveryAction::Ping {
            id: CanId::Standard(0x7E0),
            request: [0x01, 0x00],
            functional: false
        }
    ));
    let silent = DiscoveryEvent::Ping { answered: false };
    let action = d.run_discovery(&mut phase, silent, &mut config);
    assert!(matches!(
        action,
        DiscoveryAction::Ping {
            id: CanId::Extended(0x18DB_33F1),
            request: [0x01, 0x00],
            functional: true
        }
    ));
    let action = d.run_discovery(&mut phase, silent, &mut config);
    assert!(matches!(action, DiscoveryAction::Pause { duration_us: 2_000_000 }));
    let action = d.run_discovery(&mut phase, DiscoveryEvent::Elapsed, &mut config);
    assert!(matches!(action, DiscoveryAction::Ping { id: CanId::Standard(0x7E0), .. }));
    assert_eq!(phase, DiscoveryPhase::Standard);
    d.run_discovery(&mut phase, silent, &mut config);
    let answered = DiscoveryEvent::Ping { answered: true };
    let action = d.run_discovery(&mut phase, answered, &mut config);
    assert!(matches!(action, DiscoveryAction::Done));
    assert_eq!(config, ProtocolConfig { extended: true, locked: true });
}

#[test]
fn discovery_does_not_undo_a_lock() {
    let d = DiscoveryService::new(IsoTpHandler::new(()));
    let mut config = ProtocolConfig { extended: true, locked: true };
    let (mut phase, _) = d.start_discovery();
    let answered = DiscoveryEvent::Ping { answered: true };
    assert!(matches!(
        d.run_discovery(&mut phase, answered, &mut config),
        DiscoveryAction::Done
    ));
    assert_eq!(config, ProtocolConfig { extended: true, locked: true });
}
