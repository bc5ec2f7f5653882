use can_tracer::frame::CanFrame;
use can_tracer::transmit::{TxDecision, TxSpec};

fn spec(payload: Vec<u8>, interval_ms: u32, enabled: bool, last_sent: u64) -> TxSpec {
    TxSpec { address: 0x7DF, payload, interval_ms, enabled, last_sent }
}

#[test]
fn disabled_spec_sends_nothing() {
    let tx = spec(vec![1, 2], 50, false, 0);
    assert_eq!(tx.decide(1_000_000), TxDecision::Disabled);
}

#[test]
fn payload_of_length_zero_is_rejected() {
    let tx = spec(vec![], 50, true, 0);
    assert!(!tx.is_valid());
    assert_eq!(tx.decide(1_000_000), TxDecision::InvalidPayload);
}

#[test]
fn payload_of_length_nine_is_rejected() {
    let tx = spec(vec![1, 2, 3, 4, 5, 6, 7, 8, 9], 50, true, 0);
    assert!(!tx.is_valid());
    assert_eq!(tx.decide(1_000_000), TxDecision::InvalidPayload);
}

#[test]
fn payloads_of_one_to_eight_bytes_are_valid() {
    let mut payload: Vec<u8> = Vec::new();
    let mut n: u8 = 1;
    while n <= 8 {
        payload.push(n);
        assert!(spec(payload.clone(), 50, true, 0).is_valid());
        n += 1;
    }
}

#[test]
fn nothing_is_sent_before_the_interval_has_passed() {
    let tx = spec(vec![1], 50, true, 1000);
    assert_eq!(tx.decide(1000), TxDecision::NotDue);
    assert_eq!(tx.decide(1001), TxDecision::NotDue);
    assert_eq!(tx.decide(1049), TxDecision::NotDue);
}

#[test]
fn frame_is_sent_once_the_interval_has_passed() {
    let tx = spec(vec![0xDE, 0xAD], 50, true, 1000);
    let frame = CanFrame::new(0x7DF, &[0xDE, 0xAD], false);
    assert_eq!(tx.decide(1050), TxDecision::Send(frame));
    assert_eq!(tx.decide(1051), TxDecision::Send(frame));
    assert_eq!(tx.decide(u64::MAX), TxDecision::Send(frame));
}

#[test]
fn clock_before_last_transmission_counts_as_no_time_passed() {
    let tx = spec(vec![1], 50, true, 1000);
    assert_eq!(tx.decide(999), TxDecision::NotDue);
    assert_eq!(tx.decide(0), TxDecision::NotDue);
    let immediate = spec(vec![1], 0, true, 1000);
    assert_eq!(immediate.decide(0), TxDecision::Send(CanFrame::new(0x7DF, &[1], false)));
}

#[test]
fn sent_frame_uses_standard_addressing() {
    let tx = spec(vec![1, 2, 3, 4, 5, 6, 7, 8], 0, true, 0);
    match tx.decide(0) {
        TxDecision::Send(frame) => {
            assert!(!frame.is_extended());
            assert_eq!(frame.get_address(), 0x7DF);
            assert_eq!(frame.get_data(), vec![1u8, 2, 3, 4, 5, 6, 7, 8]);
        },
        other => panic!("expected a frame, got {:?}", other),
    }
}
