use obd_rust::can::id::{can_id_to_u32, CanId};
use obd_rust::can::iso_tp::frame::{consecutive_frame, first_frame, flow_control_frame, single_frame};
use obd_rust::can::iso_tp::handler::IsoTpHandler;
use obd_rust::can::iso_tp::send::{decode_stmin, MultiFrameSender, SendStep};
use obd_rust::can::iso_tp::types::{
    Action, AddressingMode, Event, FlowStatus, IsoTpError, PciType, RxEvent, TxEvent,
};

const TX: CanId = CanId::Standard(0x7E0);
const FC: CanId = CanId::Standard(0x7E8);

fn frame_of(step: &SendStep) -> (CanId, [u8; 8], u64) {
    match step {
        SendStep::Next(Action::Transmit { id, frame, timeout_us }) => (*id, *frame, *timeout_us),
        other => panic!("no frame: {:?}", other),
    }
}

fn error_of(step: SendStep) -> IsoTpError {
    match step {
        SendStep::Failed(e) => e,
        other => panic!("no failure: {:?}", other),
    }
}

fn wait_of(step: &SendStep) -> u64 {
    match step {
        SendStep::Next(Action::Receive { timeout_us }) => *timeout_us,
        other => panic!("no wait: {:?}", other),
    }
}

fn pause_of(step: &SendStep) -> u64 {
    match step {
        SendStep::Next(Action::Pause { duration_us }) => *duration_us,
        other => panic!("no pause: {:?}", other),
    }
}

fn fc(data: &[u8]) -> Event<'_> {
    Event::Rx(RxEvent::Frame { id: FC, data })
}

fn message(len: usize) -> Vec<u8> {
    (0..len).map(|i| (i * 7 + 3) as u8).collect()
}

fn started(h: &IsoTpHandler<()>, len: usize) -> MultiFrameSender {
    let (sender, _) = h.send_multi_frame(TX, FC, &message(len)).unwrap();
    sender
}

#[test]
fn single_frame_layout() {
    assert_eq!(
        single_frame(AddressingMode::Normal, 0x55, &[0x01, 0x0C]),
        [0x02, 0x01, 0x0C, 0xCC, 0xCC, 0xCC, 0xCC, 0xCC]
    );
    assert_eq!(
        single_frame(AddressingMode::Extended, 0x55, &[0x01, 0x0C]),
        [0x55, 0x02, 0x01, 0x0C, 0xCC, 0xCC, 0xCC, 0xCC]
    );
    assert_eq!(
        single_frame(AddressingMode::Normal, 0, &[1, 2, 3, 4, 5, 6, 7]),
        [7, 1, 2, 3, 4, 5, 6, 7]
    );
}

#[test]
fn multi_frame_layouts() {
    let data = message(300);
    assert_eq!(
        first_frame(AddressingMode::Normal, 0, &data),
        [0x11, 0x2C, 3, 10, 17, 24, 31, 38]
    );
    assert_eq!(
        first_frame(AddressingMode::Extended, 0xF1, &data),
        [0xF1, 0x11, 0x2C, 3, 10, 17, 24, 31]
    );
    assert_eq!(
        consecutive_frame(AddressingMode::Normal, 0, 15, &[9, 8]),
        [0x2F, 9, 8, 0xCC, 0xCC, 0xCC, 0xCC, 0xCC]
    );
    assert_eq!(
        flow_control_frame(AddressingMode::Extended, 0x10, FlowStatus::Wait, 4, 5),
        [0x10, 0x31, 4, 5, 0xCC, 0xCC, 0xCC, 0xCC]
    );
}

#[test]
fn single_frame_capacity() {
    let normal = IsoTpHandler::new(());
    assert!(normal.send_single_frame(&[0; 7]).is_ok());
    assert_eq!(normal.send_single_frame(&[0; 8]), Err(IsoTpError::BufferOverflow));
    let extended = IsoTpHandler::with_target_addr((), 0x11);
    assert!(extended.send_single_frame(&[0; 6]).is_ok());
    assert_eq!(extended.send_single_frame(&[0; 7]), Err(IsoTpError::BufferOverflow));
    assert_eq!(
        normal.send_single_frame(&[]),
        Ok([0x00, 0xCC, 0xCC, 0xCC, 0xCC, 0xCC, 0xCC, 0xCC])
    );
}

#[test]
fn stmin_table() {
    assert_eq!(decode_stmin(0x00), 0);
    assert_eq!(decode_stmin(0x01), 1_000);
    assert_eq!(decode_stmin(0x7F), 127_000);
    assert_eq!(decode_stmin(0x80), 127_000);
    assert_eq!(decode_stmin(0xF0), 127_000);
    assert_eq!(decode_stmin(0xF1), 100);
    assert_eq!(decode_stmin(0xF9), 900);
    assert_eq!(decode_stmin(0xFA), 127_000);
    assert_eq!(decode_stmin(0xFF), 127_000);
}

#[test]
fn pci_bytes_are_read() {
    assert_eq!(PciType::from_pci_byte(0x07), Some(PciType::SingleFrame));
    assert_eq!(PciType::from_pci_byte(0x10), Some(PciType::FirstFrame));
    assert_eq!(PciType::from_pci_byte(0x2F), Some(PciType::ConsecutiveFrame));
    assert_eq!(PciType::from_pci_byte(0x30), Some(PciType::FlowControl));
    assert_eq!(PciType::from_pci_byte(0x40), None);
    assert_eq!(FlowStatus::from_pci_byte(0x30), Ok(FlowStatus::ContinueToSend));
    assert_eq!(FlowStatus::from_pci_byte(0x31), Ok(FlowStatus::Wait));
    assert_eq!(FlowStatus::from_pci_byte(0x32), Ok(FlowStatus::Overflow));
    assert_eq!(FlowStatus::from_pci_byte(0x33), Err(IsoTpError::InvalidFs));
    assert_eq!(AddressingMode::from_u8(0), AddressingMode::Normal);
    assert_eq!(AddressingMode::from_u8(1), AddressingMode::Extended);
    assert_eq!(AddressingMode::from_u8(200), AddressingMode::Extended);
}

#[test]
fn twenty_bytes_in_three_frames() {
    let h = IsoTpHandler::new(());
    let data = message(20);
    let (mut s, first) = h.send_multi_frame(TX, FC, &data).unwrap();
    match first {
        Action::Transmit { id, frame, timeout_us } => {
            assert_eq!(id, TX);
            assert_eq!(frame, [0x10, 20, 3, 10, 17, 24, 31, 38]);
            assert_eq!(timeout_us, 5_000_000);
        }
        other => panic!("{:?}", other),
    }
    let step = h.continue_multi_frame(&mut s, Event::Tx(TxEvent::Sent), 100);
    assert_eq!(wait_of(&step), 1_000_000);
    let step = h.continue_multi_frame(&mut s, fc(&[0x30, 0, 5]), 200);
    assert_eq!(
        frame_of(&step),
        (TX, [0x21, data[6], data[7], data[8], data[9], data[10], data[11], data[12]], 5_000_000)
    );
    let step = h.continue_multi_frame(&mut s, Event::Tx(TxEvent::Sent), 300);
    assert_eq!(pause_of(&step), 5_000);
    let step = h.continue_multi_frame(&mut s, Event::Elapsed, 5_300);
    assert_eq!(
        frame_of(&step).1,
        [0x22, data[13], data[14], data[15], data[16], data[17], data[18], data[19]]
    );
    assert!(matches!(
        h.continue_multi_frame(&mut s, Event::Tx(TxEvent::Sent), 6_000),
        SendStep::Sent
    ));
}

#[test]
fn block_size_asks_for_new_grant() {
    let h = IsoTpHandler::new(());
    let mut s = started(&h, 30);
    h.continue_multi_frame(&mut s, Event::Tx(TxEvent::Sent), 0);
    let step = h.continue_multi_frame(&mut s, fc(&[0x30, 2, 0]), 0);
    assert_eq!(frame_of(&step).1[0], 0x21);
    let step = h.continue_multi_frame(&mut s, Event::Tx(TxEvent::Sent), 0);
    assert_eq!(pause_of(&step), 0);
    let step = h.continue_multi_frame(&mut s, Event::Elapsed, 0);
    assert_eq!(frame_of(&step).1[0], 0x22);
    let step = h.continue_multi_frame(&mut s, Event::Tx(TxEvent::Sent), 0);
    assert_eq!(wait_of(&step), 1_000_000);
    let step = h.continue_multi_frame(&mut s, fc(&[0x30, 0, 0xF3]), 0);
    assert_eq!(pause_of(&step), 300);
    let step = h.continue_multi_frame(&mut s, Event::Elapsed, 0);
    assert_eq!(frame_of(&step).1[0], 0x23);
    let step = h.continue_multi_frame(&mut s, Event::Tx(TxEvent::Sent), 0);
    assert_eq!(pause_of(&step), 300);
    let step = h.continue_multi_frame(&mut s, Event::Elapsed, 0);
    assert_eq!(frame_of(&step).1[0], 0x24);
    assert!(matches!(
        h.continue_multi_frame(&mut s, Event::Tx(TxEvent::Sent), 0),
        SendStep::Sent
    ));
}

#[test]
fn ten_waits_are_too_many() {
    let h = IsoTpHandler::new(());
    let mut s = started(&h, 30);
    h.continue_multi_frame(&mut s, Event::Tx(TxEvent::Sent), 0);
    for i in 0..9u64 {
        let step = h.continue_multi_frame(&mut s, fc(&[0x31, 0, 0]), i * 900_000);
        assert_eq!(wait_of(&step), 1_000_000);
    }
    let step = h.continue_multi_frame(&mut s, fc(&[0x31, 0, 0]), 9_000_000);
    assert_eq!(error_of(step), IsoTpError::WftOverrun);
}

#[test]
fn foreign_frames_do_not_extend_flow_control_wait() {
    let h = IsoTpHandler::new(());
    let mut s = started(&h, 30);
    h.continue_multi_frame(&mut s, Event::Tx(TxEvent::Sent), 1_000);
    let foreign = Event::Rx(RxEvent::Frame { id: CanId::Standard(0x7E9), data: &[0x30, 0, 0] });
    let step = h.continue_multi_frame(&mut s, foreign, 401_000);
    assert_eq!(wait_of(&step), 600_000);
    let step = h.continue_multi_frame(&mut s, fc(&[0x02, 0x41, 0x00]), 501_000);
    assert_eq!(wait_of(&step), 500_000);
    let step = h.continue_multi_frame(&mut s, fc(&[0x30, 0]), 601_000);
    assert_eq!(wait_of(&step), 400_000);
    let step = h.continue_multi_frame(&mut s, fc(&[0x30, 0]), 1_001_000);
    assert_eq!(error_of(step), IsoTpError::TimeoutBs);
}

#[test]
fn sender_errors() {
    let h = IsoTpHandler::new(());
    let mut s = started(&h, 30);
    let step = h.continue_multi_frame(&mut s, Event::Tx(TxEvent::TimedOut), 0);
    assert_eq!(error_of(step), IsoTpError::TimeoutA);
    let mut s = started(&h, 30);
    let step = h.continue_multi_frame(&mut s, Event::Tx(TxEvent::Failed), 0);
    assert_eq!(error_of(step), IsoTpError::DriverError);
    let waiting = || {
        let mut s = started(&h, 30);
        h.continue_multi_frame(&mut s, Event::Tx(TxEvent::Sent), 0);
        s
    };
    let step = h.continue_multi_frame(&mut waiting(), Event::Rx(RxEvent::TimedOut), 0);
    assert_eq!(error_of(step), IsoTpError::TimeoutBs);
    let step = h.continue_multi_frame(&mut waiting(), Event::Rx(RxEvent::Failed), 0);
    assert_eq!(error_of(step), IsoTpError::DriverError);
    let step = h.continue_multi_frame(&mut waiting(), fc(&[0x32, 0, 0]), 0);
    assert_eq!(error_of(step), IsoTpError::BufferOverflow);
    let step = h.continue_multi_frame(&mut waiting(), fc(&[0x3F, 0, 0]), 0);
    assert_eq!(error_of(step), IsoTpError::InvalidFs);
}

#[test]
fn longest_message_that_can_be_announced() {
    let h = IsoTpHandler::new(());
    assert!(h.send_multi_frame(TX, FC, &message(4095)).is_ok());
    assert!(matches!(
        h.send_multi_frame(TX, FC, &message(4096)),
        Err(IsoTpError::BufferOverflow)
    ));
    let mut s = started(&h, 4095);
    h.continue_multi_frame(&mut s, Event::Tx(TxEvent::Sent), 0);
    let mut step = h.continue_multi_frame(&mut s, fc(&[0x30, 0, 0]), 0);
    let mut frames = 0;
    loop {
        match step {
            SendStep::Next(Action::Transmit { frame, .. }) => {
                frames += 1;
                assert_eq!(frame[0], 0x20 + (frames % 16) as u8);
                step = h.continue_multi_frame(&mut s, Event::Tx(TxEvent::Sent), 0);
            }
            SendStep::Next(Action::Pause { .. }) => {
                step = h.continue_multi_frame(&mut s, Event::Elapsed, 0);
            }
            SendStep::Sent => break,
            other => panic!("{:?}", other),
        }
    }
    assert_eq!(frames, 585);
}

#[test]
fn identifiers_are_checked() {
    assert_eq!(CanId::standard(0x7FF), Some(CanId::Standard(0x7FF)));
    assert_eq!(CanId::standard(0x800), None);
    assert_eq!(CanId::extended(0x1FFF_FFFF), Some(CanId::Extended(0x1FFF_FFFF)));
    assert_eq!(CanId::extended(0x2000_0000), None);
    assert_eq!(can_id_to_u32(CanId::Standard(0x7E8)), 0x7E8);
    assert_eq!(can_id_to_u32(CanId::Extended(0x18DA_F110)), 0x18DA_F110);
}
