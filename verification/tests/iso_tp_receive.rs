use obd_rust::can::id::CanId;
use obd_rust::can::iso_tp::frame::single_frame;
use obd_rust::can::iso_tp::functional::{FunctionalExchange, FunctionalStep};
use obd_rust::can::iso_tp::handler::IsoTpHandler;
use obd_rust::can::iso_tp::mapper::{IdMapper, Obd2IdMapper};
use obd_rust::can::iso_tp::physical::PhysicalExchange;
use obd_rust::can::iso_tp::receive::ReceiveStep;
use obd_rust::can::iso_tp::send::SendStep;
use obd_rust::can::iso_tp::transfer::TransferState;
use obd_rust::can::iso_tp::types::{
    Action, AddressingMode, Event, IsoTpError, RxEvent, TxEvent,
};

const ENGINE: CanId = CanId::Standard(0x7E0);
const ANSWER: CanId = CanId::Standard(0x7E8);
const ALL: CanId = CanId::Standard(0x7DF);

fn frame(id: CanId, data: &[u8]) -> Event<'_> {
    Event::Rx(RxEvent::Frame { id, data })
}

fn asked(h: &IsoTpHandler<()>, now: u64) -> PhysicalExchange {
    let (mut exchange, action) = h.send_physical_request(ENGINE, &[0x09, 0x02]).unwrap();
    assert!(matches!(action, Action::Transmit { id: ENGINE, .. }));
    let step = h.continue_physical(&mut exchange, Event::Tx(TxEvent::Sent), now);
    assert!(matches!(step, ReceiveStep::Next(Action::Receive { timeout_us: 1_000_000 })));
    exchange
}

fn failure(step: ReceiveStep) -> IsoTpError {
    match step {
        ReceiveStep::Failed(e) => e,
        other => panic!("no failure: {:?}", other),
    }
}

#[test]
fn single_frame_answer() {
    let h = IsoTpHandler::new(());
    let mut e = asked(&h, 0);
    match h.continue_physical(&mut e, frame(ANSWER, &[3, 0x41, 0x0C, 0x1A, 0, 0, 0, 0]), 10) {
        ReceiveStep::Complete(data) => assert_eq!(&data[..], &[0x41, 0x0C, 0x1A]),
        other => panic!("{:?}", other),
    }
}

#[test]
fn multi_frame_answer() {
    let h = IsoTpHandler::new(());
    let mut e = asked(&h, 0);
    match h.continue_physical(&mut e, frame(ANSWER, &[0x10, 10, 1, 2, 3, 4, 5, 6]), 10) {
        ReceiveStep::Next(Action::Transmit { id, frame, timeout_us }) => {
            assert_eq!(id, ENGINE);
            assert_eq!(frame, [0x30, 0, 25, 0xCC, 0xCC, 0xCC, 0xCC, 0xCC]);
            assert_eq!(timeout_us, 5_000_000);
        }
        other => panic!("{:?}", other),
    }
    let step = h.continue_physical(&mut e, Event::Tx(TxEvent::Sent), 20);
    assert!(matches!(step, ReceiveStep::Next(Action::Receive { timeout_us: 1_000_000 })));
    match h.continue_physical(&mut e, frame(ANSWER, &[0x21, 7, 8, 9, 10, 0xAA, 0xAA, 0xAA]), 30) {
        ReceiveStep::Complete(data) => assert_eq!(&data[..], &[1, 2, 3, 4, 5, 6, 7, 8, 9, 10]),
        other => panic!("{:?}", other),
    }
}

#[test]
fn oversized_answer_is_refused() {
    let h = IsoTpHandler::new(());
    let mut e = asked(&h, 0);
    match h.continue_physical(&mut e, frame(ANSWER, &[0x11, 0x01, 1, 2, 3, 4, 5, 6]), 10) {
        ReceiveStep::Next(Action::Transmit { id, frame, .. }) => {
            assert_eq!(id, ENGINE);
            assert_eq!(frame, [0x32, 0, 0, 0xCC, 0xCC, 0xCC, 0xCC, 0xCC]);
        }
        other => panic!("{:?}", other),
    }
    let step = h.continue_physical(&mut e, Event::Tx(TxEvent::Sent), 20);
    assert_eq!(failure(step), IsoTpError::BufferOverflow);
}

#[test]
fn receiver_errors() {
    let h = IsoTpHandler::new(());
    let step = h.continue_physical(&mut asked(&h, 0), Event::Rx(RxEvent::TimedOut), 0);
    assert_eq!(failure(step), IsoTpError::TimeoutCr);
    let step = h.continue_physical(&mut asked(&h, 0), Event::Rx(RxEvent::Failed), 0);
    assert_eq!(failure(step), IsoTpError::DriverError);
    let mut e = asked(&h, 0);
    h.continue_physical(&mut e, frame(ANSWER, &[0x10, 20, 1, 2, 3, 4, 5, 6]), 0);
    h.continue_physical(&mut e, Event::Tx(TxEvent::Sent), 0);
    let step = h.continue_physical(&mut e, frame(ANSWER, &[0x22, 7, 8, 9]), 0);
    assert_eq!(failure(step), IsoTpError::WrongSn);
    let mut e = asked(&h, 0);
    h.continue_physical(&mut e, frame(ANSWER, &[0x10, 20, 1, 2, 3, 4, 5, 6]), 0);
    let step = h.continue_physical(&mut e, Event::Tx(TxEvent::TimedOut), 0);
    assert_eq!(failure(step), IsoTpError::TimeoutA);
    let (mut e, _) = h.send_physical_request(ENGINE, &[1]).unwrap();
    let step = h.continue_physical(&mut e, Event::Tx(TxEvent::Failed), 0);
    assert_eq!(failure(step), IsoTpError::DriverError);
}

#[test]
fn first_frame_from_low_identifier_is_refused() {
    let mapper = Obd2IdMapper::new(AddressingMode::Normal);
    assert_eq!(mapper.derive_fc_sender_id(CanId::Standard(7)), Err(IsoTpError::InvalidId));
    assert_eq!(mapper.derive_fc_sender_id(CanId::Standard(8)), Ok(CanId::Standard(0)));
}

#[test]
fn foreign_frames_do_not_extend_reception() {
    let h = IsoTpHandler::new(());
    let mut e = asked(&h, 5_000);
    let other = CanId::Standard(0x7E9);
    match h.continue_physical(&mut e, frame(other, &[1, 2]), 705_000) {
        ReceiveStep::Next(Action::Receive { timeout_us }) => assert_eq!(timeout_us, 300_000),
        other => panic!("{:?}", other),
    }
    let step = h.continue_physical(&mut e, frame(other, &[1, 2]), 1_005_000);
    assert_eq!(failure(step), IsoTpError::TimeoutCr);
}

fn wait_of(step: ReceiveStep) -> u64 {
    match step {
        ReceiveStep::Next(Action::Receive { timeout_us }) => timeout_us,
        other => panic!("no wait: {:?}", other),
    }
}

#[test]
fn reception_waits_for_single_or_first() {
    let h = IsoTpHandler::new(());
    let others = [
        &[][..],
        &[0x00],
        &[0x08, 1],
        &[0x07, 1, 2],
        &[0x10, 7, 1],
        &[0x10, 20],
        &[0x20, 1, 2, 3],
        &[0x21, 1, 2, 3],
        &[0x22, 1, 2, 3],
        &[0x30, 0, 0],
        &[0x50],
    ];
    let mut e = asked(&h, 0);
    for data in others {
        assert_eq!(wait_of(h.continue_physical(&mut e, frame(ANSWER, data), 500_000)), 500_000);
    }
    for data in others {
        let step = h.continue_physical(&mut e, frame(ANSWER, data), 1_000_000);
        assert_eq!(failure(step), IsoTpError::TimeoutCr);
    }
    match h.continue_physical(&mut e, frame(ANSWER, &[2, 0x41, 0x0C]), 999_999) {
        ReceiveStep::Complete(data) => assert_eq!(&data[..], &[0x41, 0x0C]),
        other => panic!("{:?}", other),
    }
}

#[test]
fn only_frames_that_are_taken_start_the_time_over() {
    let h = IsoTpHandler::new(());
    let mut e = asked(&h, 0);
    h.continue_physical(&mut e, frame(ANSWER, &[0x10, 20, 1, 2, 3, 4, 5, 6]), 900_000);
    let step = h.continue_physical(&mut e, Event::Tx(TxEvent::Sent), 1_000_000);
    assert_eq!(wait_of(step), 1_000_000);
    for data in [&[][..], &[0x00], &[0x21], &[0x10, 7, 1], &[0x30, 0, 0], &[0x50]] {
        let step = h.continue_physical(&mut e, frame(ANSWER, data), 1_400_000);
        assert_eq!(wait_of(step), 600_000);
    }
    let taken = frame(ANSWER, &[0x21, 7, 8, 9, 10, 11, 12, 13]);
    assert_eq!(wait_of(h.continue_physical(&mut e, taken, 1_400_000)), 1_000_000);
    let step = h.continue_physical(&mut e, frame(ANSWER, &[0x30, 0, 0]), 2_399_999);
    assert_eq!(wait_of(step), 1);
    let step = h.continue_physical(&mut e, frame(ANSWER, &[0x30, 0, 0]), 2_400_000);
    assert_eq!(failure(step), IsoTpError::TimeoutCr);
}

#[test]
fn mapper_identifiers() {
    let mut mapper = Obd2IdMapper::new(AddressingMode::Normal);
    assert_eq!(mapper.response_id_for_request(ENGINE), Ok(ANSWER));
    assert_eq!(
        mapper.response_id_for_request(CanId::Extended(0x18DA_10F1)),
        Ok(CanId::Extended(0x18DA_F110))
    );
    assert_eq!(
        mapper.derive_fc_sender_id(CanId::Extended(0x18DA_F110)),
        Ok(CanId::Extended(0x18DA_10F1))
    );
    assert!(!mapper.is_valid_response_id(CanId::Standard(0x7E7)));
    assert!(mapper.is_valid_response_id(CanId::Standard(0x7E8)));
    assert!(mapper.is_valid_response_id(CanId::Standard(0x7EF)));
    assert!(!mapper.is_valid_response_id(CanId::Standard(0x7F0)));
    assert!(!mapper.is_valid_response_id(CanId::Extended(0x18DA_F110)));
    mapper.to_extended_adr();
    assert_eq!(mapper.addressing_mode(), AddressingMode::Extended);
    assert!(!mapper.is_valid_response_id(CanId::Standard(0x7E8)));
    assert!(mapper.is_valid_response_id(CanId::Extended(0x18DA_F110)));
    assert!(!mapper.is_valid_response_id(CanId::Extended(0x18DB_F110)));
    mapper.to_normal_addr();
    assert_eq!(mapper.addressing_mode(), AddressingMode::Normal);
    assert_eq!(Obd2IdMapper::swap_uds_sa_ta(0x18DA_10F1), 0x18DA_F110);
    for id in [0, 0xFF, 0xFF00, 0x18DA_10F1, 0x1FFF_FFFF, u32::MAX] {
        assert_eq!(Obd2IdMapper::swap_uds_sa_ta(Obd2IdMapper::swap_uds_sa_ta(id)), id);
    }
    for raw in 0x7E0..=0x7E7 {
        let answer = mapper.response_id_for_request(CanId::Standard(raw)).unwrap();
        assert!(mapper.is_valid_response_id(answer));
        assert_eq!(mapper.derive_fc_sender_id(answer), Ok(CanId::Standard(raw)));
    }
    assert!(!mapper.is_valid_response_id(ALL));
}

#[test]
fn handler_modes() {
    let mut h = IsoTpHandler::new(());
    assert!(!h.is_extended_addressing());
    assert_eq!(h.pci_byte_offset(), 0);
    h.to_extended_adr(0x33);
    assert!(h.is_extended_addressing());
    assert_eq!(h.target_addr(), 0x33);
    assert_eq!(h.mapper().addressing_mode(), AddressingMode::Extended);
    h.to_normal_addr();
    assert!(!h.is_extended_addressing());
    assert_eq!(h.target_addr(), 0x33);
    assert_eq!(h.mapper().addressing_mode(), AddressingMode::Normal);
    let h = IsoTpHandler::with_target_addr((), 0x44);
    assert_eq!(h.addressing_mode(), AddressingMode::Extended);
    assert_eq!(h.target_addr(), 0x44);
}

/// Sends `data` from one endpoint to another and returns what arrives.
fn carried(mode: AddressingMode, data: &[u8], bs: u8) -> Vec<u8> {
    let sender = IsoTpHandler::with_mapper((), mode, 0x77, Obd2IdMapper::new(mode));
    let receiver = IsoTpHandler::with_mapper((), mode, 0x88, Obd2IdMapper::new(mode));
    let (mut s, first) = sender.send_multi_frame(ANSWER, ENGINE, data).unwrap();
    let (mut r, _) = receiver.receive_response(ANSWER, 0);
    let mut action = first;
    loop {
        let event = match action {
            Action::Transmit { id, frame: bytes, .. } => {
                assert_eq!(id, ANSWER);
                match receiver.continue_response(&mut r, frame(id, &bytes), 0) {
                    ReceiveStep::Complete(got) => return got.to_vec(),
                    ReceiveStep::Next(Action::Transmit { id, frame: answer, .. }) => {
                        assert_eq!(id, ENGINE);
                        assert_eq!(answer[mode.pci_byte_offset()], 0x30);
                        receiver.continue_response(&mut r, Event::Tx(TxEvent::Sent), 0);
                    }
                    ReceiveStep::Next(_) => {}
                    ReceiveStep::Failed(e) => panic!("{:?}", e),
                }
                Event::Tx(TxEvent::Sent)
            }
            Action::Receive { .. } => {
                let grant: &'static [u8] = match (mode, bs) {
                    (AddressingMode::Normal, 0) => &[0x30, 0, 25],
                    (AddressingMode::Normal, _) => &[0x30, 3, 25],
                    (AddressingMode::Extended, 0) => &[0x01, 0x30, 0, 25],
                    (AddressingMode::Extended, _) => &[0x01, 0x30, 3, 25],
                };
                frame(ENGINE, grant)
            }
            Action::Pause { duration_us } => {
                assert_eq!(duration_us, 25_000);
                Event::Elapsed
            }
        };
        match sender.continue_multi_frame(&mut s, event, 0) {
            SendStep::Next(next) => action = next,
            other => panic!("{:?}", other),
        }
    }
}

#[test]
fn what_is_sent_arrives() {
    for mode in [AddressingMode::Normal, AddressingMode::Extended] {
        for bs in [0, 3] {
            for len in 8..=256usize {
                let data: Vec<u8> = (0..len).map(|i| (i * 31 + len) as u8).collect();
                assert_eq!(carried(mode, &data, bs), data);
            }
        }
    }
}

#[test]
fn what_is_sent_in_one_frame_arrives() {
    for mode in [AddressingMode::Normal, AddressingMode::Extended] {
        let h = IsoTpHandler::with_mapper((), mode, 9, Obd2IdMapper::new(mode));
        for len in 1..=(7 - mode.pci_byte_offset()) {
            let data: Vec<u8> = (0..len).map(|i| 0xF0 + i as u8).collect();
            let (mut r, _) = h.receive_response(ANSWER, 0);
            let bytes = single_frame(mode, 9, &data);
            match h.continue_response(&mut r, frame(ANSWER, &bytes), 0) {
                ReceiveStep::Complete(got) => assert_eq!(&got[..], &data[..]),
                other => panic!("{:?}", other),
            }
        }
    }
}

fn broadcast(h: &IsoTpHandler<()>, now: u64) -> FunctionalExchange {
    let (mut e, action) = h.send_functional_request(ALL, &[0x01, 0x0C]).unwrap();
    match action {
        Action::Transmit { id, frame, .. } => {
            assert_eq!(id, ALL);
            assert_eq!(frame, [0x02, 0x01, 0x0C, 0xCC, 0xCC, 0xCC, 0xCC, 0xCC]);
        }
        other => panic!("{:?}", other),
    }
    let step = h.run_collection_loop(&mut e, Event::Tx(TxEvent::Sent), now);
    assert!(matches!(step, FunctionalStep::Next(Action::Receive { timeout_us: 100_000 })));
    e
}

#[test]
fn functional_request_takes_one_frame() {
    let h = IsoTpHandler::new(());
    assert!(matches!(h.send_functional_request(ALL, &[0; 8]), Err(IsoTpError::BufferOverflow)));
}

#[test]
fn interleaved_answers_are_kept_apart() {
    let h = IsoTpHandler::new(());
    let mut e = broadcast(&h, 0);
    let other = CanId::Standard(0x7E9);
    let step = h.run_collection_loop(&mut e, frame(ANSWER, &[0x10, 9, 1, 2, 3, 4, 5, 6]), 10);
    assert!(matches!(
        step,
        FunctionalStep::Next(Action::Transmit { id: ENGINE, timeout_us: 499_990, .. })
    ));
    h.run_collection_loop(&mut e, Event::Tx(TxEvent::Sent), 20);
    h.run_collection_loop(&mut e, frame(other, &[2, 0x41, 0x0C]), 30);
    h.run_collection_loop(&mut e, frame(CanId::Standard(0x123), &[2, 9, 9]), 35);
    h.run_collection_loop(&mut e, frame(ANSWER, &[0x21, 7, 8, 9]), 40);
    match h.run_collection_loop(&mut e, Event::Rx(RxEvent::TimedOut), 100_040) {
        FunctionalStep::Complete(list) => {
            assert_eq!(list.len(), 2);
            assert_eq!(list[0].id, other);
            assert_eq!(&list[0].data[..], &[0x41, 0x0C]);
            assert_eq!(list[1].id, ANSWER);
            assert_eq!(&list[1].data[..], &[1, 2, 3, 4, 5, 6, 7, 8, 9]);
            let copy = list[1].clone();
            assert_eq!(copy.id, ANSWER);
            assert_eq!(copy.data, list[1].data);
        }
        other => panic!("{:?}", other),
    }
}

#[test]
fn stray_consecutive_frame_with_number_one_is_an_empty_answer() {
    let h = IsoTpHandler::new(());
    let mut e = broadcast(&h, 0);
    h.run_collection_loop(&mut e, frame(ANSWER, &[0x21, 1, 2, 3]), 10);
    match h.run_collection_loop(&mut e, Event::Rx(RxEvent::TimedOut), 100_010) {
        FunctionalStep::Complete(list) => {
            assert_eq!(list.len(), 1);
            assert_eq!(list[0].id, ANSWER);
            assert!(list[0].data.is_empty());
        }
        other => panic!("{:?}", other),
    }
}

#[test]
fn stray_consecutive_frame_with_wrong_number_leaves_no_transfer() {
    let h = IsoTpHandler::new(());
    let mut e = broadcast(&h, 0);
    h.run_collection_loop(&mut e, frame(ANSWER, &[0x25, 1, 2, 3]), 10);
    assert!(e.states.is_empty());
    h.run_collection_loop(&mut e, frame(ANSWER, &[0x25]), 20);
    assert_eq!(e.states.len(), 1);
    let step = h.run_collection_loop(&mut e, Event::Rx(RxEvent::TimedOut), 100_020);
    assert!(matches!(step, FunctionalStep::Failed(IsoTpError::TimeoutCr)));
}

#[test]
fn strays_of_eight_senders_leave_room_for_a_ninth() {
    let h = IsoTpHandler::with_target_addr((), 0x10);
    let (mut e, _) = h
        .send_functional_request(CanId::Extended(0x18DB_33F1), &[0x01, 0x0C])
        .unwrap();
    h.run_collection_loop(&mut e, Event::Tx(TxEvent::Sent), 0);
    for sender in 0..8u32 {
        let id = CanId::Extended(0x18DA_F100 + sender);
        h.run_collection_loop(&mut e, frame(id, &[0x10, 0x27, 1, 2]), 10);
    }
    let ninth = CanId::Extended(0x18DA_F108);
    h.run_collection_loop(&mut e, frame(ninth, &[0x10, 2, 0x41, 0x0C]), 20);
    match h.run_collection_loop(&mut e, Event::Rx(RxEvent::TimedOut), 100_020) {
        FunctionalStep::Complete(list) => {
            assert_eq!(list.len(), 1);
            assert_eq!(list[0].id, ninth);
            assert_eq!(&list[0].data[..], &[0x41, 0x0C]);
        }
        other => panic!("{:?}", other),
    }
}

#[test]
fn consecutive_frames_of_a_fresh_transfer() {
    let mut t = TransferState::new(ANSWER);
    assert_eq!(t.apply_consecutive_frame(&[0x22, 9]), Err(IsoTpError::WrongSn));
    assert_eq!(t.apply_consecutive_frame(&[0x22]), Ok(false));
    assert_eq!((t.rx_dl, t.next_sn, t.buffer.len()), (0, 1, 0));
    assert_eq!(t.apply_consecutive_frame(&[0x21, 9]), Ok(true));
    assert_eq!((t.rx_dl, t.next_sn, t.buffer.len()), (0, 2, 0));
}

#[test]
fn silence_is_a_timeout() {
    let h = IsoTpHandler::new(());
    let mut e = broadcast(&h, 0);
    let step = h.run_collection_loop(&mut e, Event::Rx(RxEvent::TimedOut), 100_000);
    assert!(matches!(step, FunctionalStep::Failed(IsoTpError::TimeoutCr)));
}

#[test]
fn collection_ends_in_time() {
    let h = IsoTpHandler::new(());
    let mut e = broadcast(&h, 0);
    h.run_collection_loop(&mut e, frame(ANSWER, &[1, 0x41]), 420_000);
    let step = h.run_collection_loop(&mut e, frame(CanId::Standard(0x100), &[1, 1]), 450_000);
    assert!(matches!(step, FunctionalStep::Next(Action::Receive { timeout_us: 50_000 })));
    match h.run_collection_loop(&mut e, frame(CanId::Standard(0x100), &[1, 1]), 500_000) {
        FunctionalStep::Complete(list) => assert_eq!(list.len(), 1),
        other => panic!("{:?}", other),
    }
}

#[test]
fn unfinished_answers_keep_the_collection_open() {
    let h = IsoTpHandler::new(());
    let mut e = broadcast(&h, 0);
    h.run_collection_loop(&mut e, frame(ANSWER, &[0x10, 9, 1, 2, 3, 4, 5, 6]), 10);
    h.run_collection_loop(&mut e, Event::Tx(TxEvent::Sent), 20);
    let step = h.run_collection_loop(&mut e, Event::Rx(RxEvent::Failed), 100_020);
    assert!(matches!(step, FunctionalStep::Next(Action::Receive { timeout_us: 100_000 })));
    let step = h.run_collection_loop(&mut e, Event::Rx(RxEvent::TimedOut), 500_000);
    assert!(matches!(step, FunctionalStep::Failed(IsoTpError::TimeoutCr)));
}

#[test]
fn failed_transfer_is_given_up() {
    let h = IsoTpHandler::new(());
    let mut e = broadcast(&h, 0);
    h.run_collection_loop(&mut e, frame(ANSWER, &[0x10, 9, 1, 2, 3, 4, 5, 6]), 10);
    h.run_collection_loop(&mut e, Event::Tx(TxEvent::Sent), 20);
    h.run_collection_loop(&mut e, frame(ANSWER, &[0x23, 7, 8, 9]), 30);
    assert_eq!(e.states.len(), 0);
    assert!(!e.any_active());
    h.run_collection_loop(&mut e, frame(ANSWER, &[0x11, 9, 1, 2, 3, 4, 5, 6]), 40);
    assert_eq!(e.states.len(), 1);
    h.run_collection_loop(&mut e, Event::Tx(TxEvent::Sent), 50);
    assert_eq!(e.states.len(), 0);
}

#[test]
fn ninth_answer_is_dropped() {
    let h = IsoTpHandler::new(());
    let mut e = broadcast(&h, 0);
    for i in 0..8u16 {
        let id = CanId::Standard(0x7E8 + i);
        h.run_collection_loop(&mut e, frame(id, &[1, i as u8]), 10);
    }
    h.run_collection_loop(&mut e, frame(ANSWER, &[1, 0xEE]), 20);
    match h.run_collection_loop(&mut e, Event::Rx(RxEvent::TimedOut), 30) {
        FunctionalStep::Complete(list) => {
            assert_eq!(list.len(), 8);
            for (i, r) in list.iter().enumerate() {
                assert_eq!(&r.data[..], &[i as u8]);
            }
        }
        other => panic!("{:?}", other),
    }
}

#[test]
fn stale_transfer_is_given_up() {
    let h = IsoTpHandler::new(());
    let mut e = broadcast(&h, 0);
    h.run_collection_loop(&mut e, frame(ANSWER, &[0x10, 9, 1, 2, 3, 4, 5, 6]), 10);
    h.run_collection_loop(&mut e, Event::Tx(TxEvent::Sent), 20);
    assert_eq!(e.states.len(), 1);
    h.process_collection_frame(&mut e, CanId::Standard(0x7EA), &[0x00], 1_000_009);
    assert_eq!(e.states.len(), 2);
    h.process_collection_frame(&mut e, CanId::Standard(0x7EA), &[0x00], 1_000_010);
    assert_eq!(e.states.len(), 1);
    assert_eq!(e.states[0].id, CanId::Standard(0x7EA));
}
