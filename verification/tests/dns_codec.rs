use rdt::dns::{
    a_record_reply, DNSMessage, DNSRecordType, DnsError, OpCode, QueryReply, ResourceRecord,
    ResponseCode,
};

fn sample_query() -> Vec<u8> {
    let mut buf = vec![
        0xAB, 0xCD, // identification
        0x01, 0x00, // flags: a query asking for recursion
        0x00, 0x01, // one question
        0x00, 0x00, 0x00, 0x00, 0x00, 0x00, // empty record sections
    ];
    buf.extend_from_slice(&[2, b'a', b'b', 1, b'c', 0]); // name "ab.c"
    buf.extend_from_slice(&[0x00, 0x01]); // type A
    buf.extend_from_slice(&[0x00, 0x01]); // class IN
    buf
}

#[test]
fn decode_reads_a_query() {
    let msg = DNSMessage::decode(&sample_query()).unwrap();
    assert_eq!(msg.identification, 0xABCD);
    assert_eq!(msg.query_reply, QueryReply::Query);
    assert_eq!(msg.opcode, OpCode::Query);
    assert!(!msg.authoritative_answer);
    assert!(!msg.truncation);
    assert!(msg.recursion_desired);
    assert!(!msg.recursion_available);
    assert_eq!(msg.response_code, ResponseCode::NoError);
    assert_eq!(msg.questions.len(), 1);
    assert_eq!(msg.questions[0].name, vec![b"ab".to_vec(), b"c".to_vec()]);
    assert_eq!(msg.questions[0].dns_type, DNSRecordType::A);
    assert_eq!(msg.questions[0].class_code, 1);
    assert!(msg.answers.is_empty());
}

#[test]
fn decode_refuses_short_header() {
    assert!(matches!(DNSMessage::decode(&[0xAB, 0xCD, 0x01]), Err(DnsError::Truncated)));
}

#[test]
fn decode_refuses_missing_question() {
    // The header promises one question; the buffer ends right after it.
    let buf = sample_query()[..12].to_vec();
    assert!(matches!(DNSMessage::decode(&buf), Err(DnsError::Truncated)));
}

#[test]
fn decode_refuses_overrunning_label() {
    let mut buf = sample_query()[..12].to_vec();
    buf.extend_from_slice(&[9, b'a']); // label claims nine bytes, one follows
    assert!(matches!(DNSMessage::decode(&buf), Err(DnsError::Truncated)));
}

#[test]
fn decode_refuses_unassigned_opcode() {
    let mut buf = sample_query();
    let flags: u16 = 3 << 11;
    buf[2] = (flags >> 8) as u8;
    buf[3] = (flags & 0xff) as u8;
    assert!(matches!(DNSMessage::decode(&buf), Err(DnsError::UnsupportedOpCode)));
}

#[test]
fn default_message_encodes_to_empty_header() {
    let msg = DNSMessage::default();
    assert!(msg.check_wf());
    assert_eq!(msg.encode(), vec![0u8; 12]);
}

#[test]
fn reply_wire_image() {
    let mut msg = DNSMessage::default();
    msg.identification = 0x0102;
    msg.query_reply = QueryReply::Reply;
    msg.answers.push(ResourceRecord {
        name: vec![b"x".to_vec()],
        dns_record_type: DNSRecordType::A,
        class_code: 1,
        ttl: 300,
        rd_length: 4,
        r_data: vec![0, 0, 10, 8, 123, 5],
    });
    assert!(msg.check_wf());
    let bytes = msg.encode();
    let expected = vec![
        0x01, 0x02, // identification
        0x80, 0x00, // flags: a reply
        0x00, 0x00, // no questions
        0x00, 0x01, // one answer
        0x00, 0x00, // no authority records
        0x00, 0x00, // no additional records
        1, b'x', // the name's one label
        0x01, // record type code, low byte
        0x00, 0x01, // class
        0x00, 0x00, 0x01, 0x2C, // time to live
        0x00, 0x04, // record data length field
        0x00, 0x00, 0x0A, 0x08, 0x7B, 0x05, // record data
    ];
    assert_eq!(bytes, expected);
}

#[test]
fn oversized_label_fails_the_wire_check() {
    let mut msg = DNSMessage::default();
    msg.answers.push(ResourceRecord {
        name: vec![vec![b'a'; 256]],
        dns_record_type: DNSRecordType::A,
        class_code: 1,
        ttl: 0,
        rd_length: 0,
        r_data: vec![],
    });
    assert!(!msg.check_wf());
}

#[test]
fn reply_answers_the_first_question() {
    let query = DNSMessage::decode(&sample_query()).unwrap();
    let reply = a_record_reply(&query).unwrap();
    assert_eq!(reply.identification, 0xABCD);
    assert_eq!(reply.query_reply, QueryReply::Reply);
    assert_eq!(reply.response_code, ResponseCode::NoError);
    assert!(reply.questions.is_empty());
    assert_eq!(reply.answers.len(), 1);
    assert_eq!(reply.answers[0].name, query.questions[0].name);
    assert_eq!(reply.answers[0].dns_record_type, DNSRecordType::A);
    assert_eq!(reply.answers[0].class_code, 1);
    assert_eq!(reply.answers[0].ttl, 300);
    assert_eq!(reply.answers[0].rd_length, 4);
    assert_eq!(reply.answers[0].r_data, vec![0, 0, 10, 8, 123, 5]);
}

#[test]
fn no_question_no_reply() {
    let query = DNSMessage::default();
    assert!(a_record_reply(&query).is_none());
}

#[test]
fn flag_conversions_round_trip() {
    assert_eq!(QueryReply::Reply.to_flags(), 0x8000);
    assert_eq!(QueryReply::from_flags(0x8000), QueryReply::Reply);
    assert_eq!(QueryReply::from_flags(0x0000), QueryReply::Query);

    assert_eq!(OpCode::Status.to_flags(), 2 << 11);
    assert_eq!(OpCode::from_flags(2 << 11), Some(OpCode::Status));
    assert_eq!(OpCode::from_flags(OpCode::DSO.to_flags()), Some(OpCode::DSO));
    assert_eq!(OpCode::from_flags(3 << 11), None);
    assert_eq!(OpCode::from_flags(7 << 11), None);

    assert_eq!(ResponseCode::NXDomain.to_code(), 3);
    assert_eq!(ResponseCode::from_code(3), ResponseCode::NXDomain);
    assert_eq!(ResponseCode::from_code(9), ResponseCode::ServFail);

    assert_eq!(DNSRecordType::AAAA.to_code(), 28);
    assert_eq!(DNSRecordType::from_code(28), DNSRecordType::AAAA);
    assert_eq!(DNSRecordType::from_code(99), DNSRecordType::A);
    assert_eq!(DNSRecordType::ALL.to_code(), 255);
}
