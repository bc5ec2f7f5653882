use can_tracer::frame::CanFrame;

#[test]
fn frame_keeps_address_payload_and_flag() {
    let frame = CanFrame::new(0x201, &[1, 2], false);
    assert_eq!(frame.get_address(), 0x201);
    assert_eq!(frame.get_data(), vec![1u8, 2u8]);
    assert!(!frame.is_extended());
}

#[test]
fn frame_keeps_extended_flag() {
    let frame = CanFrame::new(0x18DA_F110, &[0xAA], true);
    assert_eq!(frame.get_address(), 0x18DA_F110);
    assert!(frame.is_extended());
}

#[test]
fn frame_with_empty_payload() {
    let frame = CanFrame::new(7, &[], false);
    assert_eq!(frame.get_data(), Vec::<u8>::new());
}

#[test]
fn frame_with_full_payload() {
    let frame = CanFrame::new(7, &[1, 2, 3, 4, 5, 6, 7, 8], false);
    assert_eq!(frame.get_data(), vec![1u8, 2, 3, 4, 5, 6, 7, 8]);
}

#[test]
fn frame_cuts_payload_to_eight_bytes() {
    let frame = CanFrame::new(7, &[1, 2, 3, 4, 5, 6, 7, 8, 9, 10], false);
    assert_eq!(frame.get_data(), vec![1u8, 2, 3, 4, 5, 6, 7, 8]);
    assert_eq!(frame, CanFrame::new(7, &[1, 2, 3, 4, 5, 6, 7, 8], false));
}

#[test]
fn frames_compare_by_content() {
    assert_eq!(CanFrame::new(1, &[9], false), CanFrame::new(1, &[9], false));
    assert_ne!(CanFrame::new(1, &[9], false), CanFrame::new(2, &[9], false));
    assert_ne!(CanFrame::new(1, &[9], false), CanFrame::new(1, &[9, 0], false));
    assert_ne!(CanFrame::new(1, &[9], false), CanFrame::new(1, &[9], true));
}
