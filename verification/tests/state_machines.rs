use rdt::rdt::{Checksum, CodecError, Number, RDT};
use rdt::receiver::Receiver;
use rdt::sender::{Sender, SenderState};

#[test]
fn sender_starts_idle_at_zero() {
    let s = Sender::new();
    assert_eq!(s.number, Number::Zero);
    assert!(matches!(s.state, SenderState::Idle));
}

#[test]
fn submit_frames_and_waits() {
    let mut s = Sender::new();
    let wire = s.submit(vec![0x63, 0x69, 0x61, 0x6F]).unwrap();
    assert_eq!(wire, vec![0x84, 0x63, 0x69, 0x61, 0x6F, 0x00]);
    assert_eq!(s.number, Number::Zero);
    assert!(matches!(s.state, SenderState::AwaitingAck { .. }));
}

#[test]
fn submit_refuses_long_payload() {
    let mut s = Sender::new();
    assert_eq!(s.submit(vec![0u8; 64]), Err(CodecError::PayloadTooLong));
    assert!(matches!(s.state, SenderState::Idle));
}

#[test]
fn timeout_retransmits_identical_bytes() {
    // The channel drops the first transmission; after the timeout the
    // sender puts byte for byte the same frame on the wire again.
    let mut s = Sender::new();
    let first = s.submit(vec![0x63, 0x69, 0x61, 0x6F]).unwrap();
    let again = s.on_timeout().unwrap();
    assert_eq!(again, first);
    assert_eq!(s.number, Number::Zero);
}

#[test]
fn timeout_while_idle_sends_nothing() {
    let s = Sender::new();
    assert!(s.on_timeout().is_none());
}

#[test]
fn sender_accepts_only_matching_valid_ack() {
    let mut s = Sender::new();
    s.submit(vec![1, 2, 3]).unwrap();

    // Wrong sequence bit: ignored, nothing toggles.
    let wrong = RDT::Ack { number: Number::One, checksum: Checksum::Valid };
    assert!(!s.on_frame(&wrong));
    assert_eq!(s.number, Number::Zero);
    assert!(matches!(s.state, SenderState::AwaitingAck { .. }));

    // Failing integrity marker: ignored.
    let corrupt = RDT::Ack { number: Number::Zero, checksum: Checksum::Invalid };
    assert!(!s.on_frame(&corrupt));
    assert_eq!(s.number, Number::Zero);

    // A data unit is no acknowledgment: ignored.
    let data = RDT::Message { number: Number::Zero, payload: vec![9], checksum: Checksum::Valid };
    assert!(!s.on_frame(&data));
    assert_eq!(s.number, Number::Zero);

    // The matching, valid acknowledgment is accepted and toggles the bit.
    let good = RDT::Ack { number: Number::Zero, checksum: Checksum::Valid };
    assert!(s.on_frame(&good));
    assert_eq!(s.number, Number::One);
    assert!(matches!(s.state, SenderState::Idle));
}

#[test]
fn sender_ignores_ack_while_idle() {
    let mut s = Sender::new();
    let ack = RDT::Ack { number: Number::Zero, checksum: Checksum::Valid };
    assert!(!s.on_frame(&ack));
    assert_eq!(s.number, Number::Zero);
}

#[test]
fn receiver_delivers_new_unit_once() {
    let mut r = Receiver::new();
    let frame = RDT::Message {
        number: Number::Zero,
        payload: vec![0x63, 0x69, 0x61, 0x6F],
        checksum: Checksum::Valid,
    };

    let first = r.on_frame(&frame);
    assert_eq!(first.payload, Some(vec![0x63, 0x69, 0x61, 0x6F]));
    assert_eq!(first.reply, Some(vec![0x00, 0x00]));
    assert_eq!(r.expected, Number::One);

    // The identical unit again: acknowledged once more, delivered never.
    let second = r.on_frame(&frame);
    assert_eq!(second.payload, None);
    assert_eq!(second.reply, Some(vec![0x00, 0x00]));
    assert_eq!(r.expected, Number::One);
}

#[test]
fn receiver_reacknowledges_duplicate_of_zero() {
    // Sequence Zero was already delivered and acknowledged; its duplicate
    // gets the same acknowledgment and never reaches the application again.
    let mut r = Receiver::new();
    let frame = RDT::Message { number: Number::Zero, payload: vec![5], checksum: Checksum::Valid };
    let first = r.on_frame(&frame);
    assert!(first.payload.is_some());

    let duplicate = r.on_frame(&frame);
    assert_eq!(duplicate.payload, None);
    assert_eq!(duplicate.reply, Some(vec![0x00, 0x00]));
}

#[test]
fn receiver_drops_corrupt_unit_silently() {
    let mut r = Receiver::new();
    let frame = RDT::Message { number: Number::Zero, payload: vec![5], checksum: Checksum::Invalid };
    let d = r.on_frame(&frame);
    assert_eq!(d.payload, None);
    assert_eq!(d.reply, None);
    assert_eq!(r.expected, Number::Zero);
}

#[test]
fn receiver_ignores_acknowledgments() {
    let mut r = Receiver::new();
    let ack = RDT::Ack { number: Number::Zero, checksum: Checksum::Valid };
    let d = r.on_frame(&ack);
    assert_eq!(d.payload, None);
    assert_eq!(d.reply, None);
}

#[test]
fn two_units_travel_in_order() {
    let mut s = Sender::new();
    let mut r = Receiver::new();

    for (round, text) in [b"ciao".to_vec(), b"mond".to_vec()].into_iter().enumerate() {
        let wire = s.submit(text.clone()).unwrap();
        let frame = RDT::decode(&wire).unwrap();
        let d = r.on_frame(&frame);
        assert_eq!(d.payload, Some(text));
        let ack = RDT::decode(&d.reply.unwrap()).unwrap();
        assert!(s.on_frame(&ack));
        let expected_bit = if round == 0 { Number::One } else { Number::Zero };
        assert_eq!(s.number, expected_bit);
        assert_eq!(r.expected, expected_bit);
    }
}
