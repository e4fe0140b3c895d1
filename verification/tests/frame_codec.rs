use rdt::rdt::{Checksum, CodecError, Number, RDT};

#[test]
fn round_trip_message() {
    let frame = RDT::Message {
        number: Number::Zero,
        payload: vec![0x63, 0x69, 0x61, 0x6F],
        checksum: Checksum::Valid,
    };
    let bytes = frame.encode().unwrap();
    let back = RDT::decode(&bytes).unwrap();
    assert_eq!(back, frame);
}

#[test]
fn round_trip_ack() {
    let frame = RDT::Ack { number: Number::One, checksum: Checksum::Valid };
    let bytes = frame.encode().unwrap();
    let back = RDT::decode(&bytes).unwrap();
    assert_eq!(back, frame);
}

#[test]
fn round_trip_empty_payload() {
    let frame = RDT::Message {
        number: Number::One,
        payload: vec![],
        checksum: Checksum::Valid,
    };
    let bytes = frame.encode().unwrap();
    assert_eq!(bytes, vec![0xC0, 0x00]);
    let back = RDT::decode(&bytes).unwrap();
    assert_eq!(back, frame);
}

#[test]
fn round_trip_longest_payload() {
    let frame = RDT::Message {
        number: Number::Zero,
        payload: vec![7u8; 63],
        checksum: Checksum::Valid,
    };
    let bytes = frame.encode().unwrap();
    assert_eq!(bytes.len(), 65);
    assert_eq!(bytes[0], 0x80 | 63);
    let back = RDT::decode(&bytes).unwrap();
    assert_eq!(back, frame);
}

#[test]
fn encode_refuses_long_payload() {
    let frame = RDT::Message {
        number: Number::Zero,
        payload: vec![0u8; 64],
        checksum: Checksum::Valid,
    };
    assert_eq!(frame.encode(), Err(CodecError::PayloadTooLong));
}

#[test]
fn decode_refuses_empty_buffer() {
    assert_eq!(RDT::decode(&[]), Err(CodecError::FrameTruncated));
}

#[test]
fn decode_refuses_truncated_ack() {
    assert_eq!(RDT::decode(&[0x40]), Err(CodecError::FrameTruncated));
}

#[test]
fn decode_refuses_truncated_message() {
    // Header claims four payload bytes; only two follow and no marker.
    assert_eq!(RDT::decode(&[0x84, 0x63, 0x69]), Err(CodecError::FrameTruncated));
}

#[test]
fn data_unit_wire_image() {
    // Payload "ciao" under sequence bit Zero: header packs discriminator 1,
    // sequence 0 and length 4, then the payload, then a passing marker.
    let frame = RDT::Message {
        number: Number::Zero,
        payload: vec![0x63, 0x69, 0x61, 0x6F],
        checksum: Checksum::Valid,
    };
    let bytes = frame.encode().unwrap();
    assert_eq!(bytes, vec![0x84, 0x63, 0x69, 0x61, 0x6F, 0x00]);
    let back = RDT::decode(&bytes).unwrap();
    assert_eq!(back, frame);
}

#[test]
fn acknowledgment_wire_image() {
    let frame = RDT::Ack { number: Number::One, checksum: Checksum::Valid };
    assert_eq!(frame.encode().unwrap(), vec![0x40, 0x00]);
}

#[test]
fn decode_reads_failing_marker() {
    let back = RDT::decode(&[0x40, 0x01]).unwrap();
    assert_eq!(back, RDT::Ack { number: Number::One, checksum: Checksum::Invalid });
}

#[test]
fn toggle_alternates() {
    assert_eq!(Number::Zero.toggle(), Number::One);
    assert_eq!(Number::One.toggle(), Number::Zero);
}

#[test]
fn integrity_marker_checks() {
    let content = [1u8, 2, 3];
    assert_eq!(rdt::rdt::compute(&content), Checksum::Valid);
    assert!(rdt::rdt::verify(&content, Checksum::Valid));
    assert!(!rdt::rdt::verify(&content, Checksum::Invalid));
}
