use crate::buffer::{be16, BufferError, BytePacketBuffer, Deserialize, Serialize, BUF_SIZE};
use crate::dns::domain_name::{
    decode_name_at, labels_fit, wire_name, DomainName, MAX_NAME_LEN,
};
use crate::dns::rr::{rr_class_of, rr_class_val, rr_type_of, rr_type_val, RRClass, RRType};
use vstd::prelude::*;

verus! {

broadcast use crate::buffer::lemma_contents_len, crate::buffer::lemma_cursor_nonneg;

/// What a question asks for: a recognized record type, or any other numeric
/// value, which could still be a valid query type.
#[derive(Debug, Clone, Copy, PartialEq, Eq, Structural)]
pub enum QueryType {
    RRType(RRType),
    Unknown(u16),
}

/// The class a question asks in, open like `QueryType`.
#[derive(Debug, Clone, Copy, PartialEq, Eq, Structural)]
pub enum QueryClass {
    RRClass(RRClass),
    Unknown(u16),
}

/// The `QueryType` a wire value denotes.
pub open spec fn query_type_of(val: u16) -> QueryType {
    match rr_type_of(val) {
        RRType::Unknown(v) => QueryType::Unknown(v),
        t => QueryType::RRType(t),
    }
}

/// The wire value of a `QueryType`.
pub open spec fn query_type_val(qt: QueryType) -> u16 {
    match qt {
        QueryType::RRType(t) => rr_type_val(t),
        QueryType::Unknown(v) => v,
    }
}

/// The `QueryClass` a wire value denotes.
pub open spec fn query_class_of(val: u16) -> QueryClass {
    match rr_class_of(val) {
        RRClass::Unknown(v) => QueryClass::Unknown(v),
        c => QueryClass::RRClass(c),
    }
}

/// The wire value of a `QueryClass`.
pub open spec fn query_class_val(qc: QueryClass) -> u16 {
    match qc {
        QueryClass::RRClass(c) => rr_class_val(c),
        QueryClass::Unknown(v) => v,
    }
}

impl QueryType {
    /// The query type a wire value denotes.
    pub fn from_u16(val: u16) -> (r: QueryType)
        ensures
            r == query_type_of(val),
    {
        match RRType::from_u16(val) {
            RRType::Unknown(v) => QueryType::Unknown(v),
            t => QueryType::RRType(t),
        }
    }

    /// The wire value of this query type.
    pub fn as_u16(&self) -> (r: u16)
        ensures
            r == query_type_val(*self),
    {
        match self {
            QueryType::RRType(t) => t.as_u16(),
            QueryType::Unknown(v) => *v,
        }
    }
}

impl QueryClass {
    /// The query class a wire value denotes.
    pub fn from_u16(val: u16) -> (r: QueryClass)
        ensures
            r == query_class_of(val),
    {
        match RRClass::from_u16(val) {
            RRClass::Unknown(v) => QueryClass::Unknown(v),
            c => QueryClass::RRClass(c),
        }
    }

    /// The wire value of this query class.
    pub fn as_u16(&self) -> (r: u16)
        ensures
            r == query_class_val(*self),
    {
        match self {
            QueryClass::RRClass(c) => c.as_u16(),
            QueryClass::Unknown(v) => *v,
        }
    }
}

/// One entry of the question section: a name, a query type and a query
/// class.
#[derive(Debug, Clone)]
pub struct Question {
    pub domain_name: DomainName,
    pub qtype: QueryType,
    pub qclass: QueryClass,
}

/// The mathematical shape of a question: its name as a byte sequence, type
/// and class as they stand.
pub struct QuestionView {
    pub name: Seq<u8>,
    pub qtype: QueryType,
    pub qclass: QueryClass,
}

impl View for Question {
    type V = QuestionView;

    open spec fn view(&self) -> QuestionView {
        QuestionView { name: self.domain_name@, qtype: self.qtype, qclass: self.qclass }
    }
}

/// The question that starts at `pos` in `data`, and the position just past
/// it: a name followed by two sixteen-bit fields.
pub open spec fn decode_question_at(data: Seq<u8>, pos: int) -> Result<
    (QuestionView, int),
    BufferError,
> {
    match decode_name_at(data, pos, 0) {
        Ok(p) => {
            let e = if p.jumped {
                pos + 2
            } else {
                p.end
            };
            if e + 4 > BUF_SIZE {
                Err(BufferError::ReadOverrun)
            } else {
                Ok(
                    (
                        QuestionView {
                            name: p.name,
                            qtype: query_type_of(be16(data[e], data[e + 1])),
                            qclass: query_class_of(be16(data[e + 2], data[e + 3])),
                        },
                        e + 4,
                    ),
                )
            }
        },
        Err(err) => Err(err),
    }
}

/// The wire bytes of a question: the encoded name, then query type and
/// query class in network byte order.
pub open spec fn wire_question(q: QuestionView) -> Seq<u8> {
    wire_name(q.name) + seq![
        (query_type_val(q.qtype) / 256) as u8,
        (query_type_val(q.qtype) % 256) as u8,
        (query_class_val(q.qclass) / 256) as u8,
        (query_class_val(q.qclass) % 256) as u8,
    ]
}

/// Whether a question's name can be encoded at all: labels in bounds and
/// total encoded size within `MAX_NAME_LEN`.
pub open spec fn question_name_ok(q: QuestionView) -> bool {
    q.name.len() + 2 <= MAX_NAME_LEN && labels_fit(q.name)
}

/// The contents and cursor after encoding question `q` at `pos`, or the
/// error that refuses it: an unencodable name first, then a question that
/// does not fit the buffer.
pub open spec fn encode_question_at(data: Seq<u8>, pos: int, q: QuestionView) -> Result<
    (Seq<u8>, int),
    BufferError,
> {
    if !question_name_ok(q) {
        Err(BufferError::EncodeTooLong)
    } else if pos < 0 || pos + q.name.len() + 6 > BUF_SIZE {
        Err(BufferError::WriteOverrun)
    } else {
        Ok(
            (
                data.subrange(0, pos) + wire_question(q) + data.subrange(
                    pos + q.name.len() + 6,
                    BUF_SIZE as int,
                ),
                pos + q.name.len() + 6,
            ),
        )
    }
}

impl Question {
    /// Assemble a question from its parts.
    pub fn new(domain_name: DomainName, qtype: QueryType, qclass: QueryClass) -> (r: Question)
        ensures
            r@.name == domain_name@,
            r@.qtype == qtype,
            r@.qclass == qclass,
    {
        Question { domain_name, qtype, qclass }
    }

    /// Read one question at the buffer's cursor.
    pub fn deserialize(buf: &mut BytePacketBuffer) -> (r: Result<Question, BufferError>)
        ensures
            final(buf).contents() == old(buf).contents(),
            match decode_question_at(old(buf).contents(), old(buf).cursor()) {
                Ok(qp) => r matches Ok(q) && q@ == qp.0 && final(buf).cursor() == qp.1,
                Err(e) => r == Err::<Question, BufferError>(e),
            },
    {
        let dn = match DomainName::deserialize(buf) {
            Ok(d) => d,
            Err(e) => {
                return Err(e);
            },
        };
        let qt = match buf.pop_u16() {
            Ok(v) => v,
            Err(e) => {
                return Err(e);
            },
        };
        let qc = match buf.pop_u16() {
            Ok(v) => v,
            Err(e) => {
                return Err(e);
            },
        };
        Ok(Question::new(dn, QueryType::from_u16(qt), QueryClass::from_u16(qc)))
    }

    /// Write this question at the buffer's cursor. Checked up front: on
    /// failure the buffer is unchanged, an unencodable name being refused
    /// before the fit of the buffer is considered.
    pub fn serialize(&self, buf: &mut BytePacketBuffer) -> (r: Result<(), BufferError>)
        ensures
            match encode_question_at(old(buf).contents(), old(buf).cursor(), self@) {
                Ok(dp) => r == Ok::<(), BufferError>(()) && final(buf).contents() == dp.0
                    && final(buf).cursor() == dp.1,
                Err(e) => r == Err::<(), BufferError>(e) && *final(buf) == *old(buf),
            },
    {
        let n = self.domain_name.name.len();
        if n > MAX_NAME_LEN - 2 {
            return Err(BufferError::EncodeTooLong);
        }
        if !crate::dns::domain_name::labels_ok(&self.domain_name.name) {
            return Err(BufferError::EncodeTooLong);
        }
        let c = buf.pos();
        if c >= BUF_SIZE || BUF_SIZE - c < n + 6 {
            return Err(BufferError::WriteOverrun);
        }
        match self.domain_name.serialize(buf) {
            Ok(()) => (),
            Err(e) => {
                return Err(e);
            },
        };
        match buf.push_u16(self.qtype.as_u16()) {
            Ok(()) => (),
            Err(e) => {
                return Err(e);
            },
        };
        match buf.push_u16(self.qclass.as_u16()) {
            Ok(()) => (),
            Err(e) => {
                return Err(e);
            },
        };
        proof {
            assert(buf.contents() =~= old(buf).contents().subrange(0, old(buf).cursor())
                + wire_question(self@) + old(buf).contents().subrange(
                old(buf).cursor() + self@.name.len() + 6,
                BUF_SIZE as int,
            ));
        }
        Ok(())
    }
}

impl Serialize for Question {
    type Buffer = BytePacketBuffer;

    type Structure = Question;

    fn serialize(struc: Question, buf: &mut BytePacketBuffer) -> Result<(), BufferError> {
        struc.serialize(buf)
    }
}

impl Deserialize for Question {
    type Buffer = BytePacketBuffer;

    type Structure = Question;

    fn deserialize(buf: &mut BytePacketBuffer) -> Result<Question, BufferError> {
        Question::deserialize(buf)
    }
}

} // verus!
