use obd_rust::application::offline_service::{
    collect_snapshot, delivery_result, request_sample, run_offline_scanner, send_cached_snapshot,
    start_snapshot,
    Delivery, LoadEvent, LoadPhase, LoadStep, PidTelemetryStore, SaveEvent, SavePhase, SaveStep,
    ScanStep, ScannerAction, ScannerEvent, ScannerPhase, StoredEcuResponse, StoredPidSample,
    StoredPidSnapshot, TelemetryError,
    IMPORTANT_PIDS,
};
use obd_rust::application::protocol::{Command, DebugMsg, Request, Status};
use obd_rust::application::{handle_client, iso_tp_to_debug, SniffedFrame};
use obd_rust::can::id::CanId;
use obd_rust::can::iso_tp::handler::IsoTpHandler;
use obd_rust::can::iso_tp::types::{Action, Event, IsoTpError, RxEvent, TxEvent};
use obd_rust::can::obd2::Obd2Service;

#[test]
fn frames_are_reported() {
    let mut id = 41;
    let frame = SniffedFrame { id: CanId::Extended(0x18DA_F110), dlc: 3, data: &[1, 2, 3] };
    let r = handle_client(&mut id, Ok(frame));
    assert_eq!(id, 42);
    assert_eq!(r.id, 41);
    assert_eq!(r.status, Status::Success);
    assert_eq!(&r.data.unwrap()[..], &[0x10, 0xF1, 0xDA, 0x18, 3, 1, 2, 3]);
    assert_eq!(r.debug, None);
    let frame = SniffedFrame { id: CanId::Standard(0x7E8), dlc: 8, data: &[9; 8] };
    let r = handle_client(&mut id, Ok(frame));
    assert_eq!(&r.data.unwrap()[..], &[0xE8, 0x07, 0, 0, 8, 9, 9, 9, 9, 9, 9, 9, 9]);
}

#[test]
fn data_that_does_not_fit_is_left_out() {
    let mut id = 0;
    let frame = SniffedFrame { id: CanId::Standard(0x100), dlc: 9, data: &[7; 9] };
    let r = handle_client(&mut id, Ok(frame));
    assert_eq!(&r.data.unwrap()[..], &[0x00, 0x01, 0, 0, 9]);
}

#[test]
fn failures_are_reported() {
    let mut id = 0;
    let r = handle_client(&mut id, Err(IsoTpError::TimeoutCr));
    assert_eq!(r.id, 0);
    assert_eq!(id, 1);
    assert_eq!(r.status, Status::Error);
    assert!(r.data.is_none());
    assert_eq!(r.debug, Some(DebugMsg::IsoTpTimeoutCr));
}

#[test]
fn reasons() {
    let table = [
        (IsoTpError::TimeoutA, DebugMsg::IsoTpTimeoutA),
        (IsoTpError::TimeoutBs, DebugMsg::IsoTpTimeoutBs),
        (IsoTpError::TimeoutCr, DebugMsg::IsoTpTimeoutCr),
        (IsoTpError::WrongSn, DebugMsg::IsoTpWrongSn),
        (IsoTpError::InvalidFs, DebugMsg::IsoTpInvalidFs),
        (IsoTpError::WftOverrun, DebugMsg::IsoTpWftOverrun),
        (IsoTpError::BufferOverflow, DebugMsg::IsoTpBufferOverflow),
        (IsoTpError::DriverError, DebugMsg::IsoTpDriverError),
        (IsoTpError::InvalidId, DebugMsg::IsoTpInvalidId),
    ];
    for (e, msg) in table {
        assert_eq!(iso_tp_to_debug(e), msg);
    }
    let request = Request { id: 1, cmd: Command::GetLiveData { pid: 0x0C } };
    assert_ne!(request, Request { id: 1, cmd: Command::GetVin });
    assert_ne!(Command::ClearDtcs, Command::GetStoredDtcs);
}

fn header_of(step: SaveStep) -> [u8; 12] {
    match step {
        SaveStep::WriteHeader { header, .. } => header,
        other => panic!("{:?}", other),
    }
}

#[test]
fn saved_snapshot_is_found_again() {
    let mut store = PidTelemetryStore::new(0x9000, 4096);
    let (mut phase, numbered) = store.save_snapshot(StoredPidSnapshot::empty());
    assert_eq!(numbered.sequence, 1);
    assert_eq!(store.sequence, 1);
    let step = store.continue_save(&mut phase, SaveEvent::Serialized { len: 0x234 });
    assert!(matches!(step, SaveStep::WriteHeader { offset: 0x9000, .. }));
    let header = header_of(step);
    assert_eq!(&header, b"ODBC\x01\0\0\0\x34\x02\0\0");
    let step = store.continue_save(&mut phase, SaveEvent::Written);
    assert!(matches!(step, SaveStep::WritePayload { offset: 0x900C, len: 0x234 }));
    let step = store.continue_save(&mut phase, SaveEvent::Written);
    assert!(matches!(step, SaveStep::Saved));

    let mut fresh = PidTelemetryStore::new(0x9000, 4096);
    let (mut phase, step) = fresh.start_load();
    assert!(matches!(step, LoadStep::Read { offset: 0x9000, len: 12 }));
    let step = fresh.load_snapshot(&mut phase, LoadEvent::Header(header));
    assert!(matches!(step, LoadStep::Read { offset: 0x900C, len: 0x234 }));
    assert!(matches!(fresh.load_snapshot(&mut phase, LoadEvent::Payload), LoadStep::Parse));
    let step = fresh.load_snapshot(&mut phase, LoadEvent::Parsed(numbered));
    assert!(matches!(step, LoadStep::Loaded(ref s) if s.sequence == 1));
    assert_eq!(fresh.sequence, 1);
}

#[test]
fn saved_samples_are_loaded_under_the_new_number() {
    let mut store = PidTelemetryStore::new(0x100, 1000);
    store.sequence = 41;
    let mut taken = StoredPidSnapshot::empty();
    taken.sequence = 7;
    let data = heapless::Vec::from_slice(&[0x41, 0x0C, 0x1A]).unwrap();
    let mut responses = heapless::Vec::new();
    responses.push(StoredEcuResponse { ecu_id: 0x7E8, data }).unwrap();
    taken.samples.push(StoredPidSample { pid: 0x0C, responses }).unwrap();
    let (mut phase, numbered) = store.save_snapshot(taken);
    let header = header_of(store.continue_save(&mut phase, SaveEvent::Serialized { len: 90 }));
    store.continue_save(&mut phase, SaveEvent::Written);
    assert!(matches!(store.continue_save(&mut phase, SaveEvent::Written), SaveStep::Saved));

    let (mut phase, _) = store.start_load();
    store.load_snapshot(&mut phase, LoadEvent::Header(header));
    store.load_snapshot(&mut phase, LoadEvent::Payload);
    match store.load_snapshot(&mut phase, LoadEvent::Parsed(numbered)) {
        LoadStep::Loaded(s) => {
            assert_eq!(s.sequence, 42);
            assert_eq!(s.samples.len(), 1);
            assert_eq!(s.samples[0].pid, 0x0C);
            assert_eq!(s.samples[0].responses[0].ecu_id, 0x7E8);
            assert_eq!(&s.samples[0].responses[0].data[..], &[0x41, 0x0C, 0x1A]);
        }
        other => panic!("{:?}", other),
    }
    assert_eq!(store.sequence, 42);
}

#[test]
fn foreign_headers_load_empty() {
    let good = *b"ODBC\x01\0\0\0\x10\0\0\0";
    let load = |header: [u8; 12], size: usize| {
        let mut store = PidTelemetryStore::new(0, size);
        store.sequence = 5;
        let mut phase = LoadPhase::Header;
        let step = store.load_snapshot(&mut phase, LoadEvent::Header(header));
        assert_eq!(store.sequence, 5);
        step
    };
    assert!(matches!(load(good, 28), LoadStep::Read { offset: 12, len: 16 }));
    let empty = |step: LoadStep| match step {
        LoadStep::Loaded(s) => s.sequence == 0 && s.samples.is_empty(),
        _ => false,
    };
    assert!(empty(load(good, 27)));
    assert!(empty(load(good, 3)));
    assert!(empty(load([0xFF; 12], 4096)));
    assert!(empty(load(*b"ODBD\x01\0\0\0\x10\0\0\0", 4096)));
    assert!(empty(load(*b"ODBC\x02\0\0\0\x10\0\0\0", 4096)));
    assert!(empty(load(*b"ODBC\x01\0\0\0\0\0\0\0", 4096)));
    assert!(matches!(load(*b"ODBC\x01\0\0\0\0\x20\0\0", 16384), LoadStep::Read { len: 8192, .. }));
    assert!(empty(load(*b"ODBC\x01\0\0\0\x01\x20\0\0", 16384)));
    assert!(matches!(load(*b"ODBC\x01\x07\x07\x07\x10\0\0\0", 4096), LoadStep::Read { len: 16, .. }));
}

#[test]
fn storage_errors() {
    let mut store = PidTelemetryStore::new(0, 100);
    let mut phase = LoadPhase::Header;
    assert!(matches!(
        store.load_snapshot(&mut phase, LoadEvent::ReadFailed),
        LoadStep::Failed(TelemetryError::Storage)
    ));
    let mut phase = LoadPhase::Payload { len: 3 };
    assert!(matches!(
        store.load_snapshot(&mut phase, LoadEvent::ReadFailed),
        LoadStep::Failed(TelemetryError::Storage)
    ));
    let mut phase = LoadPhase::Parsing;
    assert!(matches!(
        store.load_snapshot(&mut phase, LoadEvent::ParseFailed),
        LoadStep::Failed(TelemetryError::Serialization)
    ));
    let mut phase = SavePhase::Serializing;
    assert!(matches!(
        store.continue_save(&mut phase, SaveEvent::NotSerialized),
        SaveStep::Failed(TelemetryError::Serialization)
    ));
    assert!(matches!(
        store.continue_save(&mut phase, SaveEvent::Serialized { len: 89 }),
        SaveStep::Failed(TelemetryError::TooLarge)
    ));
    assert!(matches!(
        store.continue_save(&mut phase, SaveEvent::Serialized { len: 88 }),
        SaveStep::WriteHeader { .. }
    ));
    assert!(matches!(
        store.continue_save(&mut phase, SaveEvent::WriteFailed),
        SaveStep::Failed(TelemetryError::Storage)
    ));
    let mut phase = SavePhase::Payload;
    assert!(matches!(
        store.continue_save(&mut phase, SaveEvent::WriteFailed),
        SaveStep::Failed(TelemetryError::Storage)
    ));
}

#[test]
fn numbers_wrap_around() {
    let mut store = PidTelemetryStore::new(0, 100);
    store.sequence = u32::MAX;
    let (_, numbered) = store.save_snapshot(StoredPidSnapshot::empty());
    assert_eq!(numbered.sequence, 0);
    assert_eq!(store.sequence, 0);
}

#[test]
fn scan_asks_for_every_parameter() {
    let service = Obd2Service::new(IsoTpHandler::new(()));
    let (mut c, mut action) = start_snapshot(&service);
    let mut asked = Vec::new();
    let mut now = 0;
    let snapshot = loop {
        now += 10;
        let event = match action {
            Action::Transmit { id, frame, .. } => {
                assert_eq!(id, CanId::Standard(0x7DF));
                assert_eq!(&frame[..2], &[0x02, 0x01]);
                asked.push(frame[2]);
                if frame[2] == 0x05 {
                    Event::Tx(TxEvent::TimedOut)
                } else {
                    Event::Tx(TxEvent::Sent)
                }
            }
            Action::Receive { .. } => {
                if c.exchange.responses.is_empty() {
                    Event::Rx(RxEvent::Frame { id: CanId::Standard(0x7E9), data: &[2, 0x41, 0x55] })
                } else {
                    Event::Rx(RxEvent::TimedOut)
                }
            }
            other => panic!("{:?}", other),
        };
        match collect_snapshot(&mut c, &service, event, now) {
            ScanStep::Next(next) => action = next,
            ScanStep::Sampled => action = request_sample(&mut c, &service),
            ScanStep::Complete(snapshot) => break snapshot,
        }
    };
    assert_eq!(asked, IMPORTANT_PIDS);
    assert_eq!(c.taken, 0);
    assert_eq!(snapshot.sequence, 0);
    assert_eq!(snapshot.samples.len(), 8);
    for (i, sample) in snapshot.samples.iter().enumerate() {
        assert_eq!(sample.pid, IMPORTANT_PIDS[i]);
        if sample.pid == 0x05 {
            assert!(sample.responses.is_empty());
        } else {
            assert_eq!(sample.responses.len(), 1);
            assert_eq!(sample.responses[0].ecu_id, 0x7E9);
            assert_eq!(&sample.responses[0].data[..], &[0x41, 0x55]);
        }
    }
}

#[test]
fn scan_follows_a_mode_switch() {
    let mut service = Obd2Service::new(IsoTpHandler::new(()));
    let (mut c, _) = start_snapshot(&service);
    let step = collect_snapshot(&mut c, &service, Event::Tx(TxEvent::Failed), 0);
    assert!(matches!(step, ScanStep::Sampled));
    service.to_extended_adr(0xF1);
    match request_sample(&mut c, &service) {
        Action::Transmit { id, frame, .. } => {
            assert_eq!(id, CanId::Extended(0x18DB_33F1));
            assert_eq!(frame, [0xF1, 0x02, 0x01, 0x0D, 0xCC, 0xCC, 0xCC, 0xCC]);
        }
        other => panic!("{:?}", other),
    }
}

#[test]
fn headers_are_checked() {
    let store = PidTelemetryStore::new(0, 28);
    assert_eq!(store.check_header(b"ODBC\x01\0\0\0\x10\0\0\0"), Some(16));
    assert_eq!(store.check_header(b"ODBC\x01\0\0\0\x11\0\0\0"), None);
    assert_eq!(store.check_header(&[0; 12]), None);
}

#[test]
fn scanner_waits_for_the_client_to_leave() {
    let mut phase = ScannerPhase::Checking;
    let action = run_offline_scanner(&mut phase, ScannerEvent::Client { connected: true });
    assert_eq!(action, ScannerAction::Pause { duration_us: 1_000_000 });
    let action = run_offline_scanner(&mut phase, ScannerEvent::Elapsed);
    assert_eq!(action, ScannerAction::CheckClient);
    let action = run_offline_scanner(&mut phase, ScannerEvent::Client { connected: false });
    assert_eq!(action, ScannerAction::Collect);
    assert_eq!(run_offline_scanner(&mut phase, ScannerEvent::Collected), ScannerAction::Save);
    let action = run_offline_scanner(&mut phase, ScannerEvent::Saved);
    assert_eq!(action, ScannerAction::Pause { duration_us: 15_000_000 });
    assert_eq!(run_offline_scanner(&mut phase, ScannerEvent::Elapsed), ScannerAction::CheckClient);
    assert_eq!(phase, ScannerPhase::Checking);
}

#[test]
fn cached_snapshot_is_sent() {
    let mut cached = StoredPidSnapshot::empty();
    cached.sequence = 9;
    let r = send_cached_snapshot(Ok(cached));
    assert_eq!((r.id, r.status, r.debug), (0, Status::Success, None));
    assert_eq!(r.data.unwrap().sequence, 9);
    let r = send_cached_snapshot(Err(TelemetryError::Storage));
    assert_eq!(r.status, Status::Success);
    assert_eq!(r.data.unwrap().sequence, 0);
    assert_eq!(delivery_result(Delivery::Written), Ok(()));
    assert_eq!(delivery_result(Delivery::NotWritten), Err(TelemetryError::Storage));
    assert_eq!(delivery_result(Delivery::NotSerialized), Err(TelemetryError::Serialization));
}
