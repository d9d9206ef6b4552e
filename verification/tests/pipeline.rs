use wifi_qr::mailbox::{MailboxSlot, Taken};
use wifi_qr::pipeline::{
    inspect, is_wifi_payload, CapturePump, Frame, PumpStep, ScanStep, WARMUP_CAPTURES,
};

#[test]
fn three_captures_warm_the_camera_up() {
    assert_eq!(WARMUP_CAPTURES, 3);
}

#[test]
fn frame_needs_four_bytes_for_each_pixel() {
    let frame = Frame::new(7, 2, 3, vec![9; 24]).unwrap();
    assert_eq!(frame.sequence(), 7);
    assert_eq!(frame.width(), 2);
    assert_eq!(frame.height(), 3);
    assert_eq!(frame.pixels(), &vec![9u8; 24]);
    assert_eq!(Frame::new(7, 2, 3, vec![9; 23]), None);
    assert_eq!(Frame::new(7, 2, 3, vec![9; 25]), None);
    assert_eq!(Frame::new(7, 2, 3, vec![]), None);
    assert!(Frame::new(1, 0, 5, vec![]).is_some());
    assert!(Frame::new(1, 65536, 65536, vec![]).is_none());
}

#[test]
fn pump_numbers_frames_from_one() {
    let mut pump = CapturePump::new();
    let mut slot: MailboxSlot<Frame> = MailboxSlot::new();
    assert_eq!(pump.frames_published(), 0);
    assert_eq!(pump.next_step(false), PumpStep::Capture { sequence: 1 });
    assert_eq!(pump.publish(&mut slot, 1, 1, vec![1, 2, 3, 4]), Some(None));
    assert_eq!(pump.frames_published(), 1);
    assert_eq!(pump.next_step(false), PumpStep::Capture { sequence: 2 });
    let displaced = pump.publish(&mut slot, 1, 1, vec![5, 6, 7, 8]).unwrap().unwrap();
    assert_eq!(displaced.sequence(), 1);
    assert_eq!(displaced.pixels(), &vec![1u8, 2, 3, 4]);
    assert_eq!(pump.next_step(false), PumpStep::Capture { sequence: 3 });
    match slot.take_latest() {
        Taken::Ready { value, version } => {
            assert_eq!(version, 2);
            assert_eq!(value.sequence(), 2);
            assert_eq!(value.width(), 1);
            assert_eq!(value.height(), 1);
            assert_eq!(value.pixels(), &vec![5u8, 6, 7, 8]);
        }
        other => panic!("no frame: {other:?}"),
    }
}

#[test]
fn pump_stops_once_the_worker_has_finished() {
    let mut pump = CapturePump::new();
    let mut slot: MailboxSlot<Frame> = MailboxSlot::new();
    assert_eq!(pump.next_step(true), PumpStep::Stop);
    pump.publish(&mut slot, 1, 1, vec![0; 4]);
    assert_eq!(pump.next_step(true), PumpStep::Stop);
    assert_eq!(pump.next_step(false), PumpStep::Capture { sequence: 2 });
}

#[test]
fn pump_publishes_nothing_of_a_wrong_size() {
    let mut pump = CapturePump::new();
    let mut slot: MailboxSlot<Frame> = MailboxSlot::new();
    assert_eq!(pump.publish(&mut slot, 2, 2, vec![0; 15]), None);
    assert_eq!(pump.frames_published(), 0);
    assert_eq!(slot.version(), 0);
    assert_eq!(slot.take_latest(), Taken::Wait);
}

#[test]
fn payload_is_accepted_by_its_prefix() {
    assert!(is_wifi_payload("WIFI:S:MyHome;;"));
    assert!(is_wifi_payload("WIFI:"));
    assert!(!is_wifi_payload("WIFI"));
    assert!(!is_wifi_payload("wifi:S:MyHome;;"));
    assert!(!is_wifi_payload(" WIFI:S:MyHome;;"));
    assert!(!is_wifi_payload("https://example.org/WIFI:"));
    assert!(!is_wifi_payload(""));
}

#[test]
fn worker_accepts_only_wifi_payloads() {
    assert_eq!(
        inspect(Some("WIFI:S:Not a real network;T:SAE;P:password;H:false;;".to_string())),
        ScanStep::Accept {
            payload: "WIFI:S:Not a real network;T:SAE;P:password;H:false;;".to_string()
        }
    );
    assert_eq!(inspect(Some("https://example.org".to_string())), ScanStep::Skip);
    assert_eq!(inspect(Some(String::new())), ScanStep::Skip);
    assert_eq!(inspect(None), ScanStep::Skip);
}
