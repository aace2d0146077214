//! Between octets and messages. All reading and writing is the work of
//! `trust_dns_proto`; what its calls return is named here, not described.

use vstd::prelude::*;
use trust_dns_proto::op::{Header as WireHeader, Message as WireMessage, MessageType, OpCode, Query};
use trust_dns_proto::rr::{DNSClass, Name, RData, Record, RecordType};
use trust_dns_proto::serialize::binary::{BinDecodable, BinDecoder, BinEncodable, Restrict};
use crate::message::{questions_view, records_view};
use crate::message::{AnswerRecord, Header, Message, MessageView, Question, QuestionView, RecordView};
use crate::size::message_size;

verus! {

/// Why a datagram is no request.
#[derive(Clone, Copy, Debug, PartialEq, Eq, Structural)]
pub enum DecodeError {
    /// No header can be read.
    Header,
    /// The question section cannot be read.
    Questions,
}

/// Why a message cannot be sent.
#[derive(Clone, Copy, Debug, PartialEq, Eq, Structural)]
pub enum EncodeError {
    /// The message has no wire form.
    Unwritable,
    /// The wire form is longer than the limit asked for.
    TooLong,
}

/// The most that two octets can count: the entries of a section, the
/// octets of a record's data, the octets of a message.
pub const MAX_COUNT: usize = 65535;

/// The header that `trust_dns_proto` reads from a datagram, or `None`
/// where it reads none.
pub uninterp spec fn wire_header(bytes: Seq<u8>) -> Option<Header>;

/// The question section that `trust_dns_proto` reads from a datagram, or
/// `None` where it reads none.
pub uninterp spec fn wire_questions(bytes: Seq<u8>) -> Option<Seq<QuestionView>>;

/// The twelve octets that `trust_dns_proto` writes for a header, all counts
/// zero, or `None` where it knows no operation of that code.
pub uninterp spec fn header_image(header: Header) -> Option<Seq<u8>>;

/// The octets that `trust_dns_proto` writes for a message with this header,
/// these questions and these answer records, or `None` where it refuses one
/// of them.
pub uninterp spec fn wire_form(
    header: Seq<u8>,
    questions: Seq<QuestionView>,
    answers: Seq<RecordView>,
) -> Option<Seq<u8>>;

/// Calls `trust_dns_proto::op::Header::from_bytes` and hands out the fields
/// of what it read, each through its getter. The contract gives the result
/// its name and claims nothing else.
#[verifier::external_body]
fn read_header(bytes: &[u8]) -> (found: Option<Header>)
    ensures
        found == wire_header(bytes@),
{
    let h = WireHeader::from_bytes(bytes).ok()?;
    Some(Header {
        id: h.id(),
        response: matches!(h.message_type(), MessageType::Response),
        op_code: h.op_code().into(),
        authoritative: h.authoritative(),
        truncated: h.truncated(),
        recursion_desired: h.recursion_desired(),
        recursion_available: h.recursion_available(),
        authentic_data: h.authentic_data(),
        checking_disabled: h.checking_disabled(),
        response_code: h.response_code().into(),
    })
}

/// Calls `Header::read` and then `Message::read_queries` for as many
/// questions as the header counts, and hands them out: each name in ASCII
/// presentation form (`Name::to_ascii`), type and class as their numbers,
/// and the whole entry in wire form (`to_bytes`). No record is read. The contract gives the
/// result its name, and says that there are as many questions as the fifth
/// and sixth octet of the datagram count.
#[verifier::external_body]
fn read_questions(bytes: &[u8]) -> (found: Option<Vec<Question>>)
    ensures
        found is Some == wire_questions(bytes@) is Some,
        found matches Some(questions) ==> {
            &&& wire_questions(bytes@) == Some(questions_view(questions@))
            &&& bytes.len() >= 12
            &&& questions.len() == bytes[4] * 256 + bytes[5]
        },
{
    let mut decoder = BinDecoder::new(bytes);
    let count = WireHeader::read(&mut decoder).ok()?.query_count();
    let queries = WireMessage::read_queries(&mut decoder, count.into()).ok()?;
    let question = |q: &Query| Some(Question {
        name: q.name().to_ascii(),
        record_type: q.query_type().into(),
        class: q.query_class().into(),
        wire: q.to_bytes().ok()?,
    });
    queries.iter().map(question).collect()
}

/// Sets the fields of a fresh `trust_dns_proto::op::Header`, each through
/// its setter, the response flag as its `MessageType`, and calls its
/// `to_bytes`. The contract gives the result its
/// name and claims nothing else.
#[verifier::external_body]
fn header_octets(header: &Header) -> (image: Option<Vec<u8>>)
    ensures
        image is Some == header_image(*header) is Some,
        image matches Some(octets) ==> header_image(*header) == Some(octets@),
{
    let mut h = WireHeader::new();
    h.set_id(header.id).set_op_code(OpCode::from_u8(header.op_code).ok()?);
    h.set_message_type(if header.response { MessageType::Response } else { MessageType::Query });
    h.set_authoritative(header.authoritative).set_truncated(header.truncated);
    h.set_recursion_desired(header.recursion_desired);
    h.set_recursion_available(header.recursion_available);
    h.set_authentic_data(header.authentic_data).set_checking_disabled(header.checking_disabled);
    h.set_response_code(header.response_code.into()).to_bytes().ok()
}

/// Builds a `trust_dns_proto::op::Message` of a header read back with
/// `Header::from_bytes`, of each question read back with
/// `Query::from_bytes`, and of a `Record` for each answer, its name read
/// back with `Name::from_bytes` and its data taken as they are (`RData::read` as the uninterpreted `NULL` kind), and calls its
/// `to_vec`. The contract gives
/// the result its name and claims nothing else.
#[verifier::external_body]
fn write_message(header: &[u8], questions: &Vec<Question>, answers: &Vec<AnswerRecord>) -> (written:
    Option<Vec<u8>>)
    requires
        questions.len() <= MAX_COUNT,
        answers.len() <= MAX_COUNT,
        forall|i: int| 0 <= i < answers.len() ==> (#[trigger] answers[i]).rdata.len() <= MAX_COUNT,
    ensures
        written is Some == wire_form(header@, questions_view(questions@), records_view(answers@))
            is Some,
        written matches Some(octets) ==> wire_form(
            header@,
            questions_view(questions@),
            records_view(answers@),
        ) == Some(octets@),
{
    let mut m = WireMessage::new();
    m.set_header(WireHeader::from_bytes(header).ok()?);
    for q in questions {
        m.add_query(Query::from_bytes(&q.wire).ok()?);
    }
    for r in answers {
        let mut record = Record::with(Name::from_bytes(&r.name).ok()?, r.record_type.into(), r.ttl);
        let length = Restrict::new(r.rdata.len() as u16);
        let data = RData::read(&mut BinDecoder::new(&r.rdata), RecordType::NULL, length).ok()?;
        record.set_dns_class(DNSClass::from_u16(r.class).ok()?).set_data(Some(data));
        m.add_answer(record);
    }
    m.to_vec().ok()
}

/// The request that a datagram holds, given the header and the question
/// section read from it. The records that a datagram may carry after its
/// questions are not taken over.
pub open spec fn decoded(header: Option<Header>, questions: Option<Seq<QuestionView>>) -> Result<
    MessageView,
    DecodeError,
> {
    match header {
        None => Err(DecodeError::Header),
        Some(h) => match questions {
            None => Err(DecodeError::Questions),
            Some(q) => Ok(MessageView { header: h, questions: q, answers: Seq::empty() }),
        },
    }
}

/// The view of what `decode_request` returns.
pub open spec fn decode_result_view(r: Result<Message, DecodeError>) -> Result<
    MessageView,
    DecodeError,
> {
    match r {
        Ok(m) => Ok(m@),
        Err(e) => Err(e),
    }
}

/// The view of a question section that may be missing.
pub open spec fn found_view(questions: Option<Vec<Question>>) -> Option<Seq<QuestionView>> {
    match questions {
        Some(found) => Some(questions_view(found@)),
        None => None,
    }
}

/// Makes the request of the header and the question section read from a
/// datagram.
pub fn request_from(header: Option<Header>, questions: Option<Vec<Question>>) -> (r: Result<
    Message,
    DecodeError,
>)
    ensures
        decode_result_view(r) == decoded(header, found_view(questions)),
{
    match header {
        None => Err(DecodeError::Header),
        Some(h) => match questions {
            None => Err(DecodeError::Questions),
            Some(found) => {
                let message = Message { header: h, questions: found, answers: Vec::new() };
                assert(message@.answers =~= Seq::<RecordView>::empty());
                Ok(message)
            },
        },
    }
}

/// Reads a request from a datagram. A request has as many questions as
/// the datagram's header counts.
pub fn decode_request(bytes: &[u8]) -> (r: Result<Message, DecodeError>)
    ensures
        decode_result_view(r) == decoded(wire_header(bytes@), wire_questions(bytes@)),
        r matches Ok(m) ==> bytes.len() >= 12 && m.questions.len() == bytes[4] * 256 + bytes[5],
{
    let header = read_header(bytes);
    let questions = read_questions(bytes);
    let ghost found = found_view(questions);
    let r = request_from(header, questions);
    proof {
        if r is Ok {
            assert(r->Ok_0@.questions.len() == r->Ok_0.questions.len());
            assert(found->0.len() == bytes[4] * 256 + bytes[5]);
        }
    }
    r
}

/// Whether the codec has room for all of a message: no section has more
/// entries, no record more data, and the whole message with its names
/// written out no more octets than two octets can count. The codec leaves
/// out what it has no room for, so no other message is handed to it.
pub open spec fn writable(m: MessageView) -> bool {
    &&& m.questions.len() <= MAX_COUNT
    &&& m.answers.len() <= MAX_COUNT
    &&& forall|i: int| 0 <= i < m.answers.len() ==> (#[trigger] m.answers[i]).rdata.len() <= MAX_COUNT
    &&& message_size(m) <= MAX_COUNT
}

/// Decides `writable`.
pub fn is_writable(message: &Message) -> (b: bool)
    ensures
        b == writable(message@),
{
    if message.questions.len() > MAX_COUNT || message.answers.len() > MAX_COUNT {
        return false;
    }
    let mut i: usize = 0;
    while i < message.answers.len()
        invariant
            i <= message.answers.len(),
            forall|k: int| 0 <= k < i ==> (#[trigger] message@.answers[k]).rdata.len() <= MAX_COUNT,
        decreases message.answers.len() - i,
    {
        assert(message@.answers[i as int] == message.answers[i as int]@);
        if message.answers[i].rdata.len() > MAX_COUNT {
            return false;
        }
        i = i + 1;
    }
    message.fits(MAX_COUNT)
}

/// The wire form of a message, as the codec writes it: names compressed,
/// the counts of the header set to what the sections hold. A message that
/// is not `writable` has none.
pub open spec fn sent_form(m: MessageView) -> Option<Seq<u8>> {
    if !writable(m) {
        None
    } else {
        match header_image(m.header) {
            None => None,
            Some(header) => wire_form(header, m.questions, m.answers),
        }
    }
}

/// The view of octets that may be missing.
pub open spec fn octets_view(octets: Option<Vec<u8>>) -> Option<Seq<u8>> {
    match octets {
        Some(o) => Some(o@),
        None => None,
    }
}

/// Writes a message for the wire.
pub fn encode(message: &Message) -> (written: Option<Vec<u8>>)
    ensures
        octets_view(written) == sent_form(message@),
{
    if !is_writable(message) {
        return None;
    }
    match header_octets(&message.header) {
        None => None,
        Some(header) => {
            assert forall|i: int| 0 <= i < message.answers.len() implies (
            #[trigger] message.answers[i]).rdata.len() <= MAX_COUNT by {
                assert(message@.answers[i] == message.answers[i]@);
            }
            write_message(header.as_slice(), &message.questions, &message.answers)
        },
    }
}

/// What is sent of a wire form: the form itself where there is one of no
/// more than `limit` octets.
pub open spec fn within(form: Option<Seq<u8>>, limit: nat) -> Result<Seq<u8>, EncodeError> {
    match form {
        None => Err(EncodeError::Unwritable),
        Some(octets) => if octets.len() <= limit {
            Ok(octets)
        } else {
            Err(EncodeError::TooLong)
        },
    }
}

/// The view of what `encode_within` returns.
pub open spec fn encode_result_view(r: Result<Vec<u8>, EncodeError>) -> Result<
    Seq<u8>,
    EncodeError,
> {
    match r {
        Ok(octets) => Ok(octets@),
        Err(e) => Err(e),
    }
}

/// Holds a wire form to a limit.
pub fn hold_to(form: Option<Vec<u8>>, limit: usize) -> (r: Result<Vec<u8>, EncodeError>)
    ensures
        encode_result_view(r) == within(octets_view(form), limit as nat),
{
    match form {
        None => Err(EncodeError::Unwritable),
        Some(octets) => if octets.len() <= limit {
            Ok(octets)
        } else {
            Err(EncodeError::TooLong)
        },
    }
}

/// Writes a message for the wire and refuses a result of more than `limit`
/// octets.
pub fn encode_within(message: &Message, limit: usize) -> (r: Result<Vec<u8>, EncodeError>)
    ensures
        encode_result_view(r) == within(sent_form(message@), limit as nat),
        r matches Ok(octets) ==> octets.len() <= limit,
{
    hold_to(encode(message), limit)
}

} // verus!
