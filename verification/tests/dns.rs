use crabby_dns::buffer::{BufferError, BytePacketBuffer, BUF_SIZE};
use crabby_dns::dns::{
    DomainName, Header, Ipv4Address, Message, MessageType, OpCode, Question, QueryClass,
    QueryType, RRClass, RRData, RRType, ResourceRecord, ResponseCode,
};

#[test]
fn new_domain_name_keeps_raw_bytes() {
    let dn = DomainName::new(String::from("Example.COM"));
    assert_eq!(b"Example.COM"[..], dn.name[..]);
}

#[test]
fn domain_name_round_trip() {
    let dn = DomainName::new(String::from("example.com"));
    let mut buf = BytePacketBuffer::new();
    dn.serialize(&mut buf).unwrap();
    assert_eq!(13, buf.pos());
    assert_eq!(
        [7, b'e', b'x', b'a', b'm', b'p', b'l', b'e', 3, b'c', b'o', b'm', 0][..],
        buf.buf[..13]
    );
    buf.seek(0);
    let back = DomainName::deserialize(&mut buf).unwrap();
    assert_eq!(b"example.com"[..], back.name[..]);
    assert_eq!(13, buf.pos());
}

#[test]
fn domain_name_pointer_round_trip() {
    let dn = DomainName::new(String::from("example.com"));
    let mut buf = BytePacketBuffer::new();
    dn.serialize(&mut buf).unwrap();
    buf.seek(20);
    buf.push(0xC0).unwrap();
    buf.push(0x00).unwrap();
    buf.seek(20);
    let back = DomainName::deserialize(&mut buf).unwrap();
    assert_eq!(b"example.com"[..], back.name[..]);
    assert_eq!(22, buf.pos());
}

#[test]
fn domain_name_decode_folds_case() {
    let bin = [7u8, b'E', b'X', b'a', b'M', b'p', b'L', b'e', 3, b'C', b'o', b'M', 0];
    let mut buf = BytePacketBuffer::new();
    buf.fill_from_slice(&bin[..]);
    let dn = DomainName::deserialize(&mut buf).unwrap();
    assert_eq!(b"example.com"[..], dn.name[..]);
}

#[test]
fn pointer_to_self_fails_too_many_jumps() {
    let mut buf = BytePacketBuffer::new();
    buf.fill_from_slice(&[0xC0, 0x00]);
    let r = DomainName::deserialize(&mut buf);
    assert_eq!(BufferError::TooManyJumps, r.unwrap_err());
}

#[test]
fn pointer_chain_of_five_jumps_succeeds() {
    let bin = [0xC0u8, 2, 0xC0, 4, 0xC0, 6, 0xC0, 8, 0xC0, 10, 0];
    let mut buf = BytePacketBuffer::new();
    buf.fill_from_slice(&bin[..]);
    let dn = DomainName::deserialize(&mut buf).unwrap();
    assert_eq!(0, dn.name.len());
    assert_eq!(2, buf.pos());
}

#[test]
fn pointer_chain_of_six_jumps_fails() {
    let bin = [0xC0u8, 2, 0xC0, 4, 0xC0, 6, 0xC0, 8, 0xC0, 10, 0xC0, 12, 0];
    let mut buf = BytePacketBuffer::new();
    buf.fill_from_slice(&bin[..]);
    let r = DomainName::deserialize(&mut buf);
    assert_eq!(BufferError::TooManyJumps, r.unwrap_err());
}

#[test]
fn encode_oversized_label_fails() {
    let dn = DomainName::new("a".repeat(64));
    let mut buf = BytePacketBuffer::new();
    assert_eq!(BufferError::EncodeTooLong, dn.serialize(&mut buf).unwrap_err());
    assert_eq!(0, buf.pos());
}

#[test]
fn encode_oversized_name_fails() {
    let name = vec!["a".repeat(60); 5].join(".");
    let dn = DomainName::new(name);
    let mut buf = BytePacketBuffer::new();
    assert_eq!(BufferError::EncodeTooLong, dn.serialize(&mut buf).unwrap_err());
}

#[test]
fn encode_name_write_overrun_leaves_buffer_alone() {
    let dn = DomainName::new(String::from("example.com"));
    let mut buf = BytePacketBuffer::new();
    buf.seek(505);
    assert_eq!(BufferError::WriteOverrun, dn.serialize(&mut buf).unwrap_err());
    assert_eq!(505, buf.pos());
    assert!(buf.buf.iter().all(|b| *b == 0));
}

#[test]
fn header_round_trip() {
    let mut h = Header::new();
    h.id = 0x1234;
    h.message_type = MessageType::Response;
    h.op_code = OpCode::Unknown(2);
    h.authoritative_answer = true;
    h.recursion_desired = true;
    h.response_code = ResponseCode::NameError;
    h.question_count = 1;
    h.answer_count = 2;
    h.authority_count = 3;
    h.additional_count = 4;
    let mut buf = BytePacketBuffer::new();
    h.serialize(&mut buf).unwrap();
    assert_eq!(12, buf.pos());
    buf.seek(0);
    let back = Header::deserialize(&mut buf).unwrap();
    assert_eq!(h, back);
    assert_eq!(12, buf.pos());
}

#[test]
fn header_wire_layout() {
    let mut h = Header::new();
    h.id = 0x1234;
    h.message_type = MessageType::Response;
    h.recursion_desired = true;
    h.question_count = 1;
    let mut buf = BytePacketBuffer::new();
    h.serialize(&mut buf).unwrap();
    assert_eq!([0x12, 0x34, 0x81, 0x00, 0, 1, 0, 0, 0, 0, 0, 0][..], buf.buf[..12]);
}

#[test]
fn header_deserialize_flag_bits() {
    let bin = [0xAB_u8, 0xCD, 0x81, 0x80, 0, 1, 0, 2, 0, 3, 0, 4];
    let mut buf = BytePacketBuffer::new();
    buf.fill_from_slice(&bin[..]);
    let h = Header::deserialize(&mut buf).unwrap();
    assert_eq!(0xABCD, h.id);
    assert_eq!(MessageType::Response, h.message_type);
    assert_eq!(OpCode::Query, h.op_code);
    assert!(!h.authoritative_answer);
    assert!(!h.truncation);
    assert!(h.recursion_desired);
    assert!(h.recursion_available);
    assert!(!h.authentic_data);
    assert!(!h.checking_disabled);
    assert_eq!(ResponseCode::NoError, h.response_code);
    assert_eq!(1, h.question_count);
    assert_eq!(2, h.answer_count);
    assert_eq!(3, h.authority_count);
    assert_eq!(4, h.additional_count);
}

#[test]
fn header_deserialize_open_codes() {
    // opcode 5 in bits 11..15, response code 9 in bits 0..4
    let flags: u16 = (5 << 11) | 9;
    let bin = [0u8, 0, (flags >> 8) as u8, (flags & 0xFF) as u8, 0, 0, 0, 0, 0, 0, 0, 0];
    let mut buf = BytePacketBuffer::new();
    buf.fill_from_slice(&bin[..]);
    let h = Header::deserialize(&mut buf).unwrap();
    assert_eq!(OpCode::Unknown(5), h.op_code);
    assert_eq!(ResponseCode::Unknown(9), h.response_code);
}

#[test]
fn header_read_overrun() {
    let mut buf = BytePacketBuffer::new();
    buf.seek(BUF_SIZE - 11);
    assert_eq!(BufferError::ReadOverrun, Header::deserialize(&mut buf).unwrap_err());
}

#[test]
fn code_conversions() {
    assert_eq!(OpCode::Query, OpCode::from_u8(0));
    assert_eq!(OpCode::Unknown(7), OpCode::from_u8(7));
    assert_eq!(7, OpCode::Unknown(7).as_u8());
    assert_eq!(ResponseCode::ServFail, ResponseCode::from_u8(2));
    assert_eq!(ResponseCode::Refused, ResponseCode::from_u8(5));
    assert_eq!(ResponseCode::Unknown(6), ResponseCode::from_u8(6));
    assert_eq!(3, ResponseCode::NameError.as_u8());
    assert_eq!(MessageType::Query, MessageType::from_bool(false));
    assert_eq!(MessageType::Response, MessageType::from_bool(true));
    assert_eq!(RRType::A, RRType::from_u16(1));
    assert_eq!(RRType::Unknown(16), RRType::from_u16(16));
    assert_eq!(1, RRType::A.as_u16());
    assert_eq!(RRClass::IN, RRClass::from_u16(1));
    assert_eq!(RRClass::Unknown(3), RRClass::from_u16(3));
    assert_eq!(QueryType::RRType(RRType::A), QueryType::from_u16(1));
    assert_eq!(QueryType::Unknown(255), QueryType::from_u16(255));
    assert_eq!(QueryClass::RRClass(RRClass::IN), QueryClass::from_u16(1));
    assert_eq!(QueryClass::Unknown(4), QueryClass::from_u16(4));
}

#[test]
fn question_round_trip() {
    let q = Question::new(
        DomainName::new(String::from("example.com")),
        QueryType::RRType(RRType::A),
        QueryClass::RRClass(RRClass::IN),
    );
    let mut buf = BytePacketBuffer::new();
    q.serialize(&mut buf).unwrap();
    assert_eq!(17, buf.pos());
    buf.seek(0);
    let back = Question::deserialize(&mut buf).unwrap();
    assert_eq!(b"example.com"[..], back.domain_name.name[..]);
    assert_eq!(QueryType::RRType(RRType::A), back.qtype);
    assert_eq!(QueryClass::RRClass(RRClass::IN), back.qclass);
    assert_eq!(17, buf.pos());
}

#[test]
fn address_record_rdata_decodes_ipv4() {
    let bin = [0u8, 0, 1, 0, 1, 0x12, 0x34, 0x56, 0x78, 0, 4, 93, 184, 216, 34];
    let mut buf = BytePacketBuffer::new();
    buf.fill_from_slice(&bin[..]);
    let rr = ResourceRecord::deserialize(&mut buf).unwrap();
    assert_eq!(RRType::A, rr.rrtype);
    assert_eq!(RRClass::IN, rr.rrclass);
    assert_eq!(0x12345678, rr.ttl);
    assert_eq!(4, rr.rrdata_len);
    assert_eq!(RRData::A(Ipv4Address { o0: 93, o1: 184, o2: 216, o3: 34 }), rr.rrdata);
    assert_eq!(15, buf.pos());
}

#[test]
fn unknown_record_skips_declared_rdata() {
    let bin = [0u8, 0, 16, 0, 1, 0, 0, 0, 0, 0, 5, b'h', b'e', b'l', b'l', b'o'];
    let mut buf = BytePacketBuffer::new();
    buf.fill_from_slice(&bin[..]);
    let rr = ResourceRecord::deserialize(&mut buf).unwrap();
    assert_eq!(RRType::Unknown(16), rr.rrtype);
    assert_eq!(RRData::Unknown(5), rr.rrdata);
    assert_eq!(16, buf.pos());
}

#[test]
fn empty_record_defaults() {
    let rr = ResourceRecord::new();
    assert_eq!(0, rr.domain_name.name.len());
    assert_eq!(RRType::Unknown(0), rr.rrtype);
    assert_eq!(RRClass::Unknown(0), rr.rrclass);
    assert_eq!(0, rr.ttl);
    assert_eq!(RRData::Unknown(0), rr.rrdata);
}

#[test]
fn message_one_question_one_answer() {
    let mut bin: Vec<u8> = Vec::new();
    // header: id, flags response + rd + ra, counts 1 1 0 0
    bin.extend_from_slice(&[0x12, 0x34, 0x81, 0x80, 0, 1, 0, 1, 0, 0, 0, 0]);
    // question: example.com A IN
    bin.extend_from_slice(&[7]);
    bin.extend_from_slice(b"example");
    bin.extend_from_slice(&[3]);
    bin.extend_from_slice(b"com");
    bin.extend_from_slice(&[0, 0, 1, 0, 1]);
    // answer: pointer to the question name, A IN, ttl 60, 4 bytes of rdata
    bin.extend_from_slice(&[0xC0, 12, 0, 1, 0, 1, 0, 0, 0, 60, 0, 4, 93, 184, 216, 34]);
    assert_eq!(45, bin.len());
    let mut buf = BytePacketBuffer::new();
    buf.fill_from_slice(&bin[..]);
    let msg = Message::deserialize(&mut buf).unwrap();
    assert_eq!(1, msg.header.question_count);
    assert_eq!(1, msg.questions.len());
    assert_eq!(1, msg.answers.len());
    assert_eq!(0, msg.authorities.len());
    assert_eq!(0, msg.additionals.len());
    assert_eq!(b"example.com"[..], msg.questions[0].domain_name.name[..]);
    assert_eq!(b"example.com"[..], msg.answers[0].domain_name.name[..]);
    assert_eq!(RRData::A(Ipv4Address { o0: 93, o1: 184, o2: 216, o3: 34 }), msg.answers[0].rrdata);
    assert_eq!(60, msg.answers[0].ttl);
    // the input was sized exactly to the message: the cursor ends at its end
    assert_eq!(45, buf.pos());
}

#[test]
fn message_serialize_query_round_trip() {
    let mut msg = Message::new();
    msg.header.id = 0xABCD;
    msg.header.recursion_desired = true;
    msg.push_question(Question::new(
        DomainName::new(String::from("example.com")),
        QueryType::RRType(RRType::A),
        QueryClass::RRClass(RRClass::IN),
    ));
    assert_eq!(1, msg.header.question_count);
    let mut buf = BytePacketBuffer::new();
    msg.serialize(&mut buf).unwrap();
    assert_eq!(29, buf.pos());
    buf.seek(0);
    let back = Message::deserialize(&mut buf).unwrap();
    assert_eq!(0xABCD, back.header.id);
    assert!(back.header.recursion_desired);
    assert_eq!(1, back.questions.len());
    assert_eq!(b"example.com"[..], back.questions[0].domain_name.name[..]);
    assert_eq!(29, buf.pos());
}

#[test]
fn message_decode_aborts_on_first_error() {
    let mut buf = BytePacketBuffer::new();
    buf.seek(BUF_SIZE - 5);
    assert_eq!(BufferError::ReadOverrun, Message::deserialize(&mut buf).unwrap_err());
}

#[test]
fn message_new_is_empty() {
    let msg = Message::new();
    assert_eq!(0, msg.header.question_count);
    assert_eq!(MessageType::Query, msg.header.message_type);
    assert!(msg.questions.is_empty());
    assert!(msg.answers.is_empty());
    assert!(msg.authorities.is_empty());
    assert!(msg.additionals.is_empty());
}
