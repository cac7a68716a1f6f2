use crate::buffer::{BufferError, BytePacketBuffer, Deserialize, Serialize, BUF_SIZE};
use crate::dns::header::{decode_header_at, empty_header, wire_header, Header};
use crate::dns::question::{decode_question_at, encode_question_at, Question, QuestionView};
use crate::dns::rr::{decode_record_at, RecordView, ResourceRecord};
use vstd::prelude::*;

verus! {

broadcast use crate::buffer::lemma_contents_len, crate::buffer::lemma_cursor_nonneg;

/// A full DNS packet: one header and the four record sections, the header's
/// counts sizing the sections.
#[derive(Debug, Clone)]
pub struct Message {
    pub header: Header,
    pub questions: Vec<Question>,
    pub answers: Vec<ResourceRecord>,
    pub authorities: Vec<ResourceRecord>,
    pub additionals: Vec<ResourceRecord>,
}

/// The mathematical shape of a message: the header as it stands and each
/// section as a sequence of entry views.
pub struct MessageView {
    pub header: Header,
    pub questions: Seq<QuestionView>,
    pub answers: Seq<RecordView>,
    pub authorities: Seq<RecordView>,
    pub additionals: Seq<RecordView>,
}

impl View for Message {
    type V = MessageView;

    open spec fn view(&self) -> MessageView {
        MessageView {
            header: self.header,
            questions: self.questions@.map_values(|q: Question| q@),
            answers: self.answers@.map_values(|r: ResourceRecord| r@),
            authorities: self.authorities@.map_values(|r: ResourceRecord| r@),
            additionals: self.additionals@.map_values(|r: ResourceRecord| r@),
        }
    }
}

/// The `n` questions that start at `pos` in `data`, and the position just
/// past them; the first failure is the whole result.
pub open spec fn decode_questions_at(data: Seq<u8>, pos: int, n: int) -> Result<
    (Seq<QuestionView>, int),
    BufferError,
>
    decreases n,
{
    if n <= 0 {
        Ok((Seq::empty(), pos))
    } else {
        match decode_question_at(data, pos) {
            Ok(qp) => match decode_questions_at(data, qp.1, n - 1) {
                Ok(rest) => Ok((seq![qp.0] + rest.0, rest.1)),
                Err(e) => Err(e),
            },
            Err(e) => Err(e),
        }
    }
}

/// The `n` resource records that start at `pos` in `data`, and the position
/// just past them; the first failure is the whole result.
pub open spec fn decode_records_at(data: Seq<u8>, pos: int, n: int) -> Result<
    (Seq<RecordView>, int),
    BufferError,
>
    decreases n,
{
    if n <= 0 {
        Ok((Seq::empty(), pos))
    } else {
        match decode_record_at(data, pos) {
            Ok(rp) => match decode_records_at(data, rp.1, n - 1) {
                Ok(rest) => Ok((seq![rp.0] + rest.0, rest.1)),
                Err(e) => Err(e),
            },
            Err(e) => Err(e),
        }
    }
}

/// The message that starts at `pos` in `data`: its header first, whose four
/// counts drive exactly that many question and record decodes, in section
/// order. No count is checked against the remaining buffer ahead of time: an
/// undersized input surfaces as the first failing section decode.
pub open spec fn decode_message_at(data: Seq<u8>, pos: int) -> Result<
    (MessageView, int),
    BufferError,
> {
    match decode_header_at(data, pos) {
        Ok(hp) => {
            let h = hp.0;
            match decode_questions_at(data, hp.1, h.question_count as int) {
                Ok(qs) => match decode_records_at(data, qs.1, h.answer_count as int) {
                    Ok(ans) => match decode_records_at(data, ans.1, h.authority_count as int) {
                        Ok(aus) => match decode_records_at(
                            data,
                            aus.1,
                            h.additional_count as int,
                        ) {
                            Ok(ads) => Ok(
                                (
                                    MessageView {
                                        header: h,
                                        questions: qs.0,
                                        answers: ans.0,
                                        authorities: aus.0,
                                        additionals: ads.0,
                                    },
                                    ads.1,
                                ),
                            ),
                            Err(e) => Err(e),
                        },
                        Err(e) => Err(e),
                    },
                    Err(e) => Err(e),
                },
                Err(e) => Err(e),
            }
        },
        Err(e) => Err(e),
    }
}

/// The contents and cursor after encoding the twelve header bytes at `pos`,
/// or the overrun that refuses it.
pub open spec fn encode_header_at(data: Seq<u8>, pos: int, h: Header) -> Result<
    (Seq<u8>, int),
    BufferError,
> {
    if pos < 0 || pos + 12 > BUF_SIZE {
        Err(BufferError::WriteOverrun)
    } else {
        Ok(
            (
                data.subrange(0, pos) + wire_header(h) + data.subrange(pos + 12, BUF_SIZE as int),
                pos + 12,
            ),
        )
    }
}

/// The contents and cursor after encoding the questions `qs` in order from
/// `pos`; the first failure is the whole result.
pub open spec fn encode_questions_at(data: Seq<u8>, pos: int, qs: Seq<QuestionView>) -> Result<
    (Seq<u8>, int),
    BufferError,
>
    decreases qs.len(),
{
    if qs.len() == 0 {
        Ok((data, pos))
    } else {
        match encode_question_at(data, pos, qs[0]) {
            Ok(dp) => encode_questions_at(dp.0, dp.1, qs.skip(1)),
            Err(e) => Err(e),
        }
    }
}

/// The contents and cursor after encoding a message at `pos`: the header,
/// then each question. The record sections are not written: the outbound
/// path originates queries.
pub open spec fn encode_message_at(data: Seq<u8>, pos: int, m: MessageView) -> Result<
    (Seq<u8>, int),
    BufferError,
> {
    match encode_header_at(data, pos, m.header) {
        Ok(dp) => encode_questions_at(dp.0, dp.1, m.questions),
        Err(e) => Err(e),
    }
}

/// Read `count` questions in order at the buffer's cursor.
fn read_questions(buf: &mut BytePacketBuffer, count: u16) -> (r: Result<
    Vec<Question>,
    BufferError,
>)
    ensures
        final(buf).contents() == old(buf).contents(),
        match decode_questions_at(old(buf).contents(), old(buf).cursor(), count as int) {
            Ok(qsp) => r matches Ok(v) && v@.map_values(|q: Question| q@) == qsp.0 && v@.len()
                == count as int && final(buf).cursor() == qsp.1,
            Err(e) => r == Err::<Vec<Question>, BufferError>(e),
        },
{
    let ghost data = buf.contents();
    let ghost start = buf.cursor();
    let mut qs: Vec<Question> = Vec::new();
    let mut i: u16 = 0;
    proof {
        assert(qs@.map_values(|q: Question| q@) =~= Seq::<QuestionView>::empty());
        match decode_questions_at(data, start, count as int) {
            Ok(rest) => {
                assert(Seq::<QuestionView>::empty() + rest.0 =~= rest.0);
            },
            Err(e) => {},
        }
    }
    while i < count
        invariant
            i <= count,
            qs@.len() == i as int,
            buf.contents() == data,
            data == old(buf).contents(),
            start == old(buf).cursor(),
            decode_questions_at(data, start, count as int) == (match decode_questions_at(
                data,
                buf.cursor(),
                count - i,
            ) {
                Ok(rest) => Ok::<(Seq<QuestionView>, int), BufferError>(
                    (qs@.map_values(|q: Question| q@) + rest.0, rest.1),
                ),
                Err(e) => Err::<(Seq<QuestionView>, int), BufferError>(e),
            }),
        decreases count - i,
    {
        let ghost cur = buf.cursor();
        let ghost acc0 = qs@.map_values(|q: Question| q@);
        let q = match Question::deserialize(buf) {
            Ok(q) => q,
            Err(e) => {
                return Err(e);
            },
        };
        qs.push(q);
        i += 1;
        proof {
            let qp = decode_question_at(data, cur)->Ok_0;
            assert(qs@.map_values(|q: Question| q@) =~= acc0.push(qp.0));
            match decode_questions_at(data, qp.1, count - i) {
                Ok(rest) => {
                    assert(acc0 + (seq![qp.0] + rest.0) =~= acc0.push(qp.0) + rest.0);
                },
                Err(e) => {},
            }
        }
    }
    proof {
        match decode_questions_at(data, start, count as int) {
            Ok(rest) => {
                assert(qs@.map_values(|q: Question| q@) + Seq::<QuestionView>::empty()
                    =~= qs@.map_values(|q: Question| q@));
            },
            Err(e) => {},
        }
    }
    Ok(qs)
}

/// Read `count` resource records in order at the buffer's cursor.
fn read_records(buf: &mut BytePacketBuffer, count: u16) -> (r: Result<
    Vec<ResourceRecord>,
    BufferError,
>)
    ensures
        final(buf).contents() == old(buf).contents(),
        match decode_records_at(old(buf).contents(), old(buf).cursor(), count as int) {
            Ok(rsp) => r matches Ok(v) && v@.map_values(|rec: ResourceRecord| rec@) == rsp.0
                && v@.len() == count as int && final(buf).cursor() == rsp.1,
            Err(e) => r == Err::<Vec<ResourceRecord>, BufferError>(e),
        },
{
    let ghost data = buf.contents();
    let ghost start = buf.cursor();
    let mut rs: Vec<ResourceRecord> = Vec::new();
    let mut i: u16 = 0;
    proof {
        assert(rs@.map_values(|rec: ResourceRecord| rec@) =~= Seq::<RecordView>::empty());
        match decode_records_at(data, start, count as int) {
            Ok(rest) => {
                assert(Seq::<RecordView>::empty() + rest.0 =~= rest.0);
            },
            Err(e) => {},
        }
    }
    while i < count
        invariant
            i <= count,
            rs@.len() == i as int,
            buf.contents() == data,
            data == old(buf).contents(),
            start == old(buf).cursor(),
            decode_records_at(data, start, count as int) == (match decode_records_at(
                data,
                buf.cursor(),
                count - i,
            ) {
                Ok(rest) => Ok::<(Seq<RecordView>, int), BufferError>(
                    (rs@.map_values(|rec: ResourceRecord| rec@) + rest.0, rest.1),
                ),
                Err(e) => Err::<(Seq<RecordView>, int), BufferError>(e),
            }),
        decreases count - i,
    {
        let ghost cur = buf.cursor();
        let ghost acc0 = rs@.map_values(|rec: ResourceRecord| rec@);
        let rec = match ResourceRecord::deserialize(buf) {
            Ok(rec) => rec,
            Err(e) => {
                return Err(e);
            },
        };
        rs.push(rec);
        i += 1;
        proof {
            let rp = decode_record_at(data, cur)->Ok_0;
            assert(rs@.map_values(|rec: ResourceRecord| rec@) =~= acc0.push(rp.0));
            match decode_records_at(data, rp.1, count - i) {
                Ok(rest) => {
                    assert(acc0 + (seq![rp.0] + rest.0) =~= acc0.push(rp.0) + rest.0);
                },
                Err(e) => {},
            }
        }
    }
    proof {
        match decode_records_at(data, start, count as int) {
            Ok(rest) => {
                assert(rs@.map_values(|rec: ResourceRecord| rec@) + Seq::<RecordView>::empty()
                    =~= rs@.map_values(|rec: ResourceRecord| rec@));
            },
            Err(e) => {},
        }
    }
    Ok(rs)
}

impl Message {
    /// A fresh query message: an empty header and four empty sections.
    pub fn new() -> (r: Message)
        ensures
            r.header == empty_header(),
            r.questions@.len() == 0,
            r.answers@.len() == 0,
            r.authorities@.len() == 0,
            r.additionals@.len() == 0,
    {
        Message {
            header: Header::new(),
            questions: Vec::new(),
            answers: Vec::new(),
            authorities: Vec::new(),
            additionals: Vec::new(),
        }
    }

    /// Append a question and keep the header's count in step with it.
    pub fn push_question(&mut self, question: Question)
        requires
            old(self).header.question_count < 0xFFFF,
        ensures
            final(self).header == (Header {
                question_count: (old(self).header.question_count + 1) as u16,
                ..old(self).header
            }),
            final(self).questions@ == old(self).questions@.push(question),
            final(self).answers@ == old(self).answers@,
            final(self).authorities@ == old(self).authorities@,
            final(self).additionals@ == old(self).additionals@,
    {
        self.questions.push(question);
        self.header.question_count = self.header.question_count + 1;
    }

    /// Read a whole message at the buffer's cursor: the header, then as many
    /// questions and records as its counts declare. A failure anywhere
    /// aborts the whole decode with the first error; a partially populated
    /// message is never returned.
    pub fn deserialize(buf: &mut BytePacketBuffer) -> (r: Result<Message, BufferError>)
        ensures
            final(buf).contents() == old(buf).contents(),
            match decode_message_at(old(buf).contents(), old(buf).cursor()) {
                Ok(mp) => r matches Ok(m) && m@ == mp.0 && final(buf).cursor() == mp.1,
                Err(e) => r == Err::<Message, BufferError>(e),
            },
            r matches Ok(m) ==> m.questions@.len() == m.header.question_count as int
                && m.answers@.len() == m.header.answer_count as int && m.authorities@.len()
                == m.header.authority_count as int && m.additionals@.len()
                == m.header.additional_count as int,
    {
        let ghost data = buf.contents();
        let header = match Header::deserialize(buf) {
            Ok(h) => h,
            Err(e) => {
                return Err(e);
            },
        };
        let questions = match read_questions(buf, header.question_count) {
            Ok(v) => v,
            Err(e) => {
                return Err(e);
            },
        };
        let answers = match read_records(buf, header.answer_count) {
            Ok(v) => v,
            Err(e) => {
                return Err(e);
            },
        };
        let authorities = match read_records(buf, header.authority_count) {
            Ok(v) => v,
            Err(e) => {
                return Err(e);
            },
        };
        let additionals = match read_records(buf, header.additional_count) {
            Ok(v) => v,
            Err(e) => {
                return Err(e);
            },
        };
        let msg = Message { header, questions, answers, authorities, additionals };
        Ok(msg)
    }

    /// Write this message at the buffer's cursor: the header, then each
    /// question. The record sections are not written: the outbound path
    /// originates queries. The header's counts are written as they stand, so
    /// a caller keeps `question_count` equal to the number of questions, as
    /// `push_question` does.
    pub fn serialize(&self, buf: &mut BytePacketBuffer) -> (r: Result<(), BufferError>)
        ensures
            match encode_message_at(old(buf).contents(), old(buf).cursor(), self@) {
                Ok(dp) => r == Ok::<(), BufferError>(()) && final(buf).contents() == dp.0
                    && final(buf).cursor() == dp.1,
                Err(e) => r == Err::<(), BufferError>(e),
            },
    {
        let ghost d0 = buf.contents();
        let ghost p0 = buf.cursor();
        let ghost qviews = self@.questions;
        match self.header.serialize(buf) {
            Ok(()) => (),
            Err(e) => {
                return Err(e);
            },
        };
        proof {
            assert(encode_message_at(d0, p0, self@) == encode_questions_at(
                buf.contents(),
                buf.cursor(),
                qviews,
            ));
            assert(qviews.skip(0) =~= qviews);
        }
        let mut i: usize = 0;
        while i < self.questions.len()
            invariant
                i <= self.questions@.len(),
                qviews == self@.questions,
                qviews.len() == self.questions@.len(),
                d0 == old(buf).contents(),
                p0 == old(buf).cursor(),
                encode_message_at(d0, p0, self@) == encode_questions_at(
                    buf.contents(),
                    buf.cursor(),
                    qviews.skip(i as int),
                ),
            decreases self.questions@.len() - i,
        {
            let ghost dcur = buf.contents();
            let ghost pcur = buf.cursor();
            match self.questions[i].serialize(buf) {
                Ok(()) => (),
                Err(e) => {
                    proof {
                        assert(qviews.skip(i as int)[0] == qviews[i as int]);
                    }
                    return Err(e);
                },
            };
            i += 1;
            proof {
                assert(qviews.skip(i - 1)[0] == qviews[i - 1]);
                assert(qviews.skip(i - 1).skip(1) =~= qviews.skip(i as int));
            }
        }
        proof {
            assert(qviews.skip(qviews.len() as int) =~= Seq::<QuestionView>::empty());
        }
        Ok(())
    }
}

impl Default for Message {
    /// A fresh query message, as `new` makes it.
    fn default() -> (r: Self)
        ensures
            r.header == empty_header(),
            r.questions@.len() == 0,
            r.answers@.len() == 0,
            r.authorities@.len() == 0,
            r.additionals@.len() == 0,
    {
        Message::new()
    }
}

impl Serialize for Message {
    type Buffer = BytePacketBuffer;

    type Structure = Message;

    fn serialize(struc: Message, buf: &mut BytePacketBuffer) -> Result<(), BufferError> {
        struc.serialize(buf)
    }
}

impl Deserialize for Message {
    type Buffer = BytePacketBuffer;

    type Structure = Message;

    fn deserialize(buf: &mut BytePacketBuffer) -> Result<Message, BufferError> {
        Message::deserialize(buf)
    }
}

} // verus!
