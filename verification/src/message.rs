//! The relay's picture of a DNS message: the header fields, the questions
//! it routes, and answer records that it carries without reading them.
//! Names that go back on the wire are kept in wire form, as they were read.

use vstd::prelude::*;

verus! {

/// The response code for "the server could not answer".
pub const RCODE_SERVER_FAILURE: u16 = 2;

/// The largest message that a client accepts over UDP without extensions.
pub const MAX_UDP_PAYLOAD: usize = 512;

/// The header of a message, without the counts of its sections.
#[derive(Clone, Copy, Debug, PartialEq, Eq, Structural)]
pub struct Header {
    /// The transaction id.
    pub id: u16,
    /// Whether the message is a response.
    pub response: bool,
    pub op_code: u8,
    pub authoritative: bool,
    /// Whether records were left out.
    pub truncated: bool,
    pub recursion_desired: bool,
    pub recursion_available: bool,
    pub authentic_data: bool,
    pub checking_disabled: bool,
    pub response_code: u16,
}

/// One entry of the question section.
#[derive(Debug, PartialEq, Eq)]
pub struct Question {
    /// The name in ASCII presentation form, by which it is routed and
    /// looked up.
    pub name: String,
    pub record_type: u16,
    pub class: u16,
    /// The entry in wire form as it was read, name, type and class: what is
    /// written again.
    pub wire: Vec<u8>,
}

/// One resource record. The relay reads none of it.
#[derive(Debug, PartialEq, Eq)]
pub struct AnswerRecord {
    /// The owner name in wire form.
    pub name: Vec<u8>,
    pub record_type: u16,
    pub class: u16,
    pub ttl: u32,
    pub rdata: Vec<u8>,
}

/// A message: header, questions, answers.
#[derive(Debug, PartialEq, Eq)]
pub struct Message {
    pub header: Header,
    pub questions: Vec<Question>,
    pub answers: Vec<AnswerRecord>,
}

pub struct QuestionView {
    pub name: Seq<char>,
    pub record_type: u16,
    pub class: u16,
    pub wire: Seq<u8>,
}

pub struct RecordView {
    pub name: Seq<u8>,
    pub record_type: u16,
    pub class: u16,
    pub ttl: u32,
    pub rdata: Seq<u8>,
}

pub struct MessageView {
    pub header: Header,
    pub questions: Seq<QuestionView>,
    pub answers: Seq<RecordView>,
}

impl View for Question {
    type V = QuestionView;

    open spec fn view(&self) -> QuestionView {
        QuestionView {
            name: self.name@,
            record_type: self.record_type,
            class: self.class,
            wire: self.wire@,
        }
    }
}

impl View for AnswerRecord {
    type V = RecordView;

    open spec fn view(&self) -> RecordView {
        RecordView {
            name: self.name@,
            record_type: self.record_type,
            class: self.class,
            ttl: self.ttl,
            rdata: self.rdata@,
        }
    }
}

/// The questions of a section, each by its view.
pub open spec fn questions_view(questions: Seq<Question>) -> Seq<QuestionView> {
    questions.map_values(|q: Question| q@)
}

/// The records of a section, each by its view.
pub open spec fn records_view(records: Seq<AnswerRecord>) -> Seq<RecordView> {
    records.map_values(|r: AnswerRecord| r@)
}

impl View for Message {
    type V = MessageView;

    open spec fn view(&self) -> MessageView {
        MessageView {
            header: self.header,
            questions: questions_view(self.questions@),
            answers: records_view(self.answers@),
        }
    }
}

impl Clone for Question {
    fn clone(&self) -> (copy: Self)
        ensures
            copy@ == self@,
    {
        Question {
            name: self.name.clone(),
            record_type: self.record_type,
            class: self.class,
            wire: self.wire.clone(),
        }
    }
}

impl Clone for AnswerRecord {
    fn clone(&self) -> (copy: Self)
        ensures
            copy@ == self@,
    {
        AnswerRecord {
            name: self.name.clone(),
            record_type: self.record_type,
            class: self.class,
            ttl: self.ttl,
            rdata: self.rdata.clone(),
        }
    }
}

/// A copy of a question section.
pub fn copy_questions(questions: &Vec<Question>) -> (copy: Vec<Question>)
    ensures
        questions_view(copy@) == questions_view(questions@),
{
    let mut copy: Vec<Question> = Vec::new();
    let mut i: usize = 0;
    while i < questions.len()
        invariant
            i <= questions.len(),
            copy.len() == i,
            forall|k: int| 0 <= k < i ==> copy[k]@ == questions[k]@,
        decreases questions.len() - i,
    {
        let q = questions[i].clone();
        copy.push(q);
        i = i + 1;
    }
    assert(questions_view(copy@) =~= questions_view(questions@));
    copy
}

/// A copy of a run of records.
pub fn copy_records(records: &Vec<AnswerRecord>) -> (copy: Vec<AnswerRecord>)
    ensures
        records_view(copy@) == records_view(records@),
{
    let mut copy: Vec<AnswerRecord> = Vec::new();
    let mut i: usize = 0;
    while i < records.len()
        invariant
            i <= records.len(),
            copy.len() == i,
            forall|k: int| 0 <= k < i ==> copy[k]@ == records[k]@,
        decreases records.len() - i,
    {
        let r = records[i].clone();
        copy.push(r);
        i = i + 1;
    }
    assert(records_view(copy@) =~= records_view(records@));
    copy
}

impl Clone for Message {
    fn clone(&self) -> (copy: Self)
        ensures
            copy@ == self@,
    {
        Message {
            header: self.header,
            questions: copy_questions(&self.questions),
            answers: copy_records(&self.answers),
        }
    }
}

} // verus!
