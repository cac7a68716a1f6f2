use crate::buffer::{be16, BufferError, BytePacketBuffer, Deserialize, Serialize, BUF_SIZE};
use vstd::prelude::*;

verus! {

broadcast use crate::buffer::lemma_contents_len, crate::buffer::lemma_cursor_nonneg;

/// Whether a message asks a question or answers one: the QR header bit.
#[derive(Debug, Clone, Copy, PartialEq, Eq, Structural)]
pub enum MessageType {
    Query,
    Response,
}

/// The kind of query a message carries: an open enumeration, so a message
/// with an unrecognized but structurally valid opcode is never rejected.
#[derive(Debug, Clone, Copy, PartialEq, Eq, Structural)]
pub enum OpCode {
    Query,
    Unknown(u8),
}

/// The server's verdict on a query: an open enumeration like `OpCode`.
#[derive(Debug, Clone, Copy, PartialEq, Eq, Structural)]
pub enum ResponseCode {
    NoError,
    FormatError,
    ServFail,
    NameError,
    NotImpl,
    Refused,
    Unknown(u8),
}

/// The `MessageType` the QR bit denotes.
pub open spec fn message_type_of(val: bool) -> MessageType {
    if val {
        MessageType::Response
    } else {
        MessageType::Query
    }
}

/// The QR bit denoting a `MessageType`.
pub open spec fn message_type_bit(mt: MessageType) -> bool {
    mt == MessageType::Response
}

/// The `OpCode` a four-bit field value denotes.
pub open spec fn op_code_of(val: u8) -> OpCode {
    if val == 0 {
        OpCode::Query
    } else {
        OpCode::Unknown(val)
    }
}

/// The numeric value of an `OpCode`.
pub open spec fn op_code_val(op: OpCode) -> u8 {
    match op {
        OpCode::Query => 0,
        OpCode::Unknown(v) => v,
    }
}

/// The `ResponseCode` a four-bit field value denotes.
pub open spec fn response_code_of(val: u8) -> ResponseCode {
    if val == 0 {
        ResponseCode::NoError
    } else if val == 1 {
        ResponseCode::FormatError
    } else if val == 2 {
        ResponseCode::ServFail
    } else if val == 3 {
        ResponseCode::NameError
    } else if val == 4 {
        ResponseCode::NotImpl
    } else if val == 5 {
        ResponseCode::Refused
    } else {
        ResponseCode::Unknown(val)
    }
}

/// The numeric value of a `ResponseCode`.
pub open spec fn response_code_val(rc: ResponseCode) -> u8 {
    match rc {
        ResponseCode::NoError => 0,
        ResponseCode::FormatError => 1,
        ResponseCode::ServFail => 2,
        ResponseCode::NameError => 3,
        ResponseCode::NotImpl => 4,
        ResponseCode::Refused => 5,
        ResponseCode::Unknown(v) => v,
    }
}

impl MessageType {
    /// The message type the QR bit denotes.
    pub fn from_bool(val: bool) -> (r: MessageType)
        ensures
            r == message_type_of(val),
    {
        if val {
            MessageType::Response
        } else {
            MessageType::Query
        }
    }

    /// The QR bit for this message type.
    pub fn as_bool(&self) -> (r: bool)
        ensures
            r == message_type_bit(*self),
    {
        match self {
            MessageType::Query => false,
            MessageType::Response => true,
        }
    }
}

impl OpCode {
    /// The opcode a field value denotes.
    pub fn from_u8(val: u8) -> (r: OpCode)
        ensures
            r == op_code_of(val),
    {
        if val == 0 {
            OpCode::Query
        } else {
            OpCode::Unknown(val)
        }
    }

    /// The numeric value of this opcode.
    pub fn as_u8(&self) -> (r: u8)
        ensures
            r == op_code_val(*self),
    {
        match self {
            OpCode::Query => 0,
            OpCode::Unknown(v) => *v,
        }
    }
}

impl ResponseCode {
    /// The response code a field value denotes.
    pub fn from_u8(val: u8) -> (r: ResponseCode)
        ensures
            r == response_code_of(val),
    {
        if val == 0 {
            ResponseCode::NoError
        } else if val == 1 {
            ResponseCode::FormatError
        } else if val == 2 {
            ResponseCode::ServFail
        } else if val == 3 {
            ResponseCode::NameError
        } else if val == 4 {
            ResponseCode::NotImpl
        } else if val == 5 {
            ResponseCode::Refused
        } else {
            ResponseCode::Unknown(val)
        }
    }

    /// The numeric value of this response code.
    pub fn as_u8(&self) -> (r: u8)
        ensures
            r == response_code_val(*self),
    {
        match self {
            ResponseCode::NoError => 0,
            ResponseCode::FormatError => 1,
            ResponseCode::ServFail => 2,
            ResponseCode::NameError => 3,
            ResponseCode::NotImpl => 4,
            ResponseCode::Refused => 5,
            ResponseCode::Unknown(v) => *v,
        }
    }
}

/// The fixed twelve-byte DNS message header: transaction id, a packed flags
/// word, and the four section counts that drive the rest of the decode.
#[derive(Debug, Clone, Copy, PartialEq, Eq, Structural)]
pub struct Header {
    pub id: u16,
    pub message_type: MessageType,
    pub op_code: OpCode,
    pub authoritative_answer: bool,
    pub truncation: bool,
    pub recursion_desired: bool,
    pub recursion_available: bool,
    pub authentic_data: bool,
    pub checking_disabled: bool,
    pub response_code: ResponseCode,
    pub question_count: u16,
    pub answer_count: u16,
    pub authority_count: u16,
    pub additional_count: u16,
}

/// The packed flags word of a header: bit 15 the message type, bits 11 to 14
/// the opcode, six single flag bits, bits 0 to 3 the response code. Bit 6 is
/// reserved and stays zero; only the low four bits of the opcode and of the
/// response code reach the wire.
pub open spec fn flags_word(h: Header) -> int {
    (if message_type_bit(h.message_type) {
        0x8000int
    } else {
        0int
    }) + (op_code_val(h.op_code) % 16) * 0x800 + (if h.authoritative_answer {
        0x400int
    } else {
        0int
    }) + (if h.truncation {
        0x200int
    } else {
        0int
    }) + (if h.recursion_desired {
        0x100int
    } else {
        0int
    }) + (if h.recursion_available {
        0x80int
    } else {
        0int
    }) + (if h.authentic_data {
        0x20int
    } else {
        0int
    }) + (if h.checking_disabled {
        0x10int
    } else {
        0int
    }) + response_code_val(h.response_code) % 16
}

/// The twelve wire bytes of a header, in network byte order.
pub open spec fn wire_header(h: Header) -> Seq<u8> {
    seq![
        (h.id / 256) as u8,
        (h.id % 256) as u8,
        (flags_word(h) / 256) as u8,
        (flags_word(h) % 256) as u8,
        (h.question_count / 256) as u8,
        (h.question_count % 256) as u8,
        (h.answer_count / 256) as u8,
        (h.answer_count % 256) as u8,
        (h.authority_count / 256) as u8,
        (h.authority_count % 256) as u8,
        (h.additional_count / 256) as u8,
        (h.additional_count % 256) as u8,
    ]
}

/// The header whose twelve bytes start at `pos` in `data`, and the position
/// just past them; reading past the buffer end fails instead.
pub open spec fn decode_header_at(data: Seq<u8>, pos: int) -> Result<(Header, int), BufferError> {
    if pos < 0 || pos + 12 > BUF_SIZE {
        Err(BufferError::ReadOverrun)
    } else {
        let flags = be16(data[pos + 2], data[pos + 3]) as int;
        Ok(
            (
                Header {
                    id: be16(data[pos], data[pos + 1]),
                    message_type: message_type_of((flags / 0x8000) % 2 == 1),
                    op_code: op_code_of(((flags / 0x800) % 16) as u8),
                    authoritative_answer: (flags / 0x400) % 2 == 1,
                    truncation: (flags / 0x200) % 2 == 1,
                    recursion_desired: (flags / 0x100) % 2 == 1,
                    recursion_available: (flags / 0x80) % 2 == 1,
                    authentic_data: (flags / 0x20) % 2 == 1,
                    checking_disabled: (flags / 0x10) % 2 == 1,
                    response_code: response_code_of((flags % 16) as u8),
                    question_count: be16(data[pos + 4], data[pos + 5]),
                    answer_count: be16(data[pos + 6], data[pos + 7]),
                    authority_count: be16(data[pos + 8], data[pos + 9]),
                    additional_count: be16(data[pos + 10], data[pos + 11]),
                },
                pos + 12,
            ),
        )
    }
}

/// A header with every field zero or cleared: a fresh query header.
pub open spec fn empty_header() -> Header {
    Header {
        id: 0,
        message_type: MessageType::Query,
        op_code: OpCode::Query,
        authoritative_answer: false,
        truncation: false,
        recursion_desired: false,
        recursion_available: false,
        authentic_data: false,
        checking_disabled: false,
        response_code: ResponseCode::NoError,
        question_count: 0,
        answer_count: 0,
        authority_count: 0,
        additional_count: 0,
    }
}

impl Header {
    /// A header with every field zero or cleared: a fresh query header.
    pub fn new() -> (r: Header)
        ensures
            r == empty_header(),
    {
        Header {
            id: 0,
            message_type: MessageType::Query,
            op_code: OpCode::Query,
            authoritative_answer: false,
            truncation: false,
            recursion_desired: false,
            recursion_available: false,
            authentic_data: false,
            checking_disabled: false,
            response_code: ResponseCode::NoError,
            question_count: 0,
            answer_count: 0,
            authority_count: 0,
            additional_count: 0,
        }
    }

    /// Read the twelve header bytes at the buffer's cursor.
    pub fn deserialize(buf: &mut BytePacketBuffer) -> (r: Result<Header, BufferError>)
        ensures
            final(buf).contents() == old(buf).contents(),
            match decode_header_at(old(buf).contents(), old(buf).cursor()) {
                Ok(hp) => r == Ok::<Header, BufferError>(hp.0) && final(buf).cursor() == hp.1,
                Err(e) => r == Err::<Header, BufferError>(e) && final(buf).cursor() == (
                if old(buf).cursor() >= BUF_SIZE {
                    old(buf).cursor()
                } else {
                    BUF_SIZE as int
                }),
            },
    {
        let id = match buf.pop_u16() {
            Ok(v) => v,
            Err(e) => {
                return Err(e);
            },
        };
        let flags = match buf.pop_u16() {
            Ok(v) => v,
            Err(e) => {
                return Err(e);
            },
        };
        let question_count = match buf.pop_u16() {
            Ok(v) => v,
            Err(e) => {
                return Err(e);
            },
        };
        let answer_count = match buf.pop_u16() {
            Ok(v) => v,
            Err(e) => {
                return Err(e);
            },
        };
        let authority_count = match buf.pop_u16() {
            Ok(v) => v,
            Err(e) => {
                return Err(e);
            },
        };
        let additional_count = match buf.pop_u16() {
            Ok(v) => v,
            Err(e) => {
                return Err(e);
            },
        };
        Ok(
            Header {
                id,
                message_type: MessageType::from_bool((flags / 0x8000) % 2 == 1),
                op_code: OpCode::from_u8(((flags / 0x800) % 16) as u8),
                authoritative_answer: (flags / 0x400) % 2 == 1,
                truncation: (flags / 0x200) % 2 == 1,
                recursion_desired: (flags / 0x100) % 2 == 1,
                recursion_available: (flags / 0x80) % 2 == 1,
                authentic_data: (flags / 0x20) % 2 == 1,
                checking_disabled: (flags / 0x10) % 2 == 1,
                response_code: ResponseCode::from_u8((flags % 16) as u8),
                question_count,
                answer_count,
                authority_count,
                additional_count,
            },
        )
    }

    /// Write the twelve header bytes at the buffer's cursor. Checked up
    /// front: on failure the buffer is unchanged.
    #[verifier::rlimit(100)]
    pub fn serialize(&self, buf: &mut BytePacketBuffer) -> (r: Result<(), BufferError>)
        ensures
            old(buf).cursor() + 12 <= BUF_SIZE ==> r == Ok::<(), BufferError>(())
                && final(buf).contents() == old(buf).contents().subrange(0, old(buf).cursor())
                    + wire_header(*self)
                    + old(buf).contents().subrange(old(buf).cursor() + 12, BUF_SIZE as int)
                && final(buf).cursor() == old(buf).cursor() + 12,
            old(buf).cursor() + 12 > BUF_SIZE ==> r == Err::<(), BufferError>(
                BufferError::WriteOverrun,
            ) && *final(buf) == *old(buf),
    {
        let c = buf.pos();
        if c > BUF_SIZE - 12 {
            return Err(BufferError::WriteOverrun);
        }
        let mut flags: u16 = 0;
        if self.message_type.as_bool() {
            flags += 0x8000;
        }
        flags += ((self.op_code.as_u8() % 16) as u16) * 0x800;
        if self.authoritative_answer {
            flags += 0x400;
        }
        if self.truncation {
            flags += 0x200;
        }
        if self.recursion_desired {
            flags += 0x100;
        }
        if self.recursion_available {
            flags += 0x80;
        }
        if self.authentic_data {
            flags += 0x20;
        }
        if self.checking_disabled {
            flags += 0x10;
        }
        flags += (self.response_code.as_u8() % 16) as u16;
        proof {
            assert(flags as int == flags_word(*self));
        }
        match buf.push_u16(self.id) {
            Ok(()) => (),
            Err(e) => {
                return Err(e);
            },
        };
        match buf.push_u16(flags) {
            Ok(()) => (),
            Err(e) => {
                return Err(e);
            },
        };
        match buf.push_u16(self.question_count) {
            Ok(()) => (),
            Err(e) => {
                return Err(e);
            },
        };
        match buf.push_u16(self.answer_count) {
            Ok(()) => (),
            Err(e) => {
                return Err(e);
            },
        };
        match buf.push_u16(self.authority_count) {
            Ok(()) => (),
            Err(e) => {
                return Err(e);
            },
        };
        match buf.push_u16(self.additional_count) {
            Ok(()) => (),
            Err(e) => {
                return Err(e);
            },
        };
        proof {
            assert(buf.contents() =~= old(buf).contents().subrange(0, old(buf).cursor())
                + wire_header(*self) + old(buf).contents().subrange(
                old(buf).cursor() + 12,
                BUF_SIZE as int,
            ));
        }
        Ok(())
    }
}

impl Default for Header {
    /// A fresh query header, as `new` makes it.
    fn default() -> (r: Self)
        ensures
            r == empty_header(),
    {
        Header::new()
    }
}

impl Serialize for Header {
    type Buffer = BytePacketBuffer;

    type Structure = Header;

    fn serialize(struc: Header, buf: &mut BytePacketBuffer) -> Result<(), BufferError> {
        struc.serialize(buf)
    }
}

impl Deserialize for Header {
    type Buffer = BytePacketBuffer;

    type Structure = Header;

    fn deserialize(buf: &mut BytePacketBuffer) -> Result<Header, BufferError> {
        Header::deserialize(buf)
    }
}

} // verus!
