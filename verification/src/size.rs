//! The octets that a message takes when every name in it is written out:
//! twelve for the header, each question as long as its entry, each record
//! its name, ten octets of fixed fields and its data. The relay hands the
//! codec no message that takes more than the codec has room for by this
//! count. What is sent is measured on the codec's own octets, not here.

use vstd::prelude::*;
use crate::message::{questions_view, records_view};
use crate::message::{AnswerRecord, Message, MessageView, Question, QuestionView, RecordView};

verus! {

/// Octets of the header.
pub const HEADER_SIZE: usize = 12;

/// Octets of a record beside its name and data: type, class, time to live
/// and the length of the data.
pub const RECORD_FIXED_SIZE: usize = 10;

/// Octets of a question with its name written out.
pub open spec fn question_size(q: QuestionView) -> nat {
    q.wire.len()
}

/// Octets of a record with its name written out.
pub open spec fn record_size(r: RecordView) -> nat {
    r.name.len() + RECORD_FIXED_SIZE as nat + r.rdata.len()
}

/// Octets of a question section with its names written out.
pub open spec fn questions_size(questions: Seq<QuestionView>) -> nat
    decreases questions.len(),
{
    if questions.len() == 0 {
        0
    } else {
        questions_size(questions.drop_last()) + question_size(questions.last())
    }
}

/// Octets of a run of records with their names written out.
pub open spec fn records_size(records: Seq<RecordView>) -> nat
    decreases records.len(),
{
    if records.len() == 0 {
        0
    } else {
        records_size(records.drop_last()) + record_size(records.last())
    }
}

/// Octets of a whole message with its names written out.
pub open spec fn message_size(m: MessageView) -> nat {
    HEADER_SIZE as nat + questions_size(m.questions) + records_size(m.answers)
}

/// A prefix of a question section is no larger than the section.
pub proof fn lemma_questions_size_monotone(questions: Seq<QuestionView>, k: int)
    requires
        0 <= k <= questions.len(),
    ensures
        questions_size(questions.take(k)) <= questions_size(questions),
    decreases questions.len() - k,
{
    if k == questions.len() {
        assert(questions.take(k) =~= questions);
    } else {
        assert(questions.drop_last().take(k) =~= questions.take(k));
        lemma_questions_size_monotone(questions.drop_last(), k);
    }
}

/// A prefix of a run of records is no larger than the run.
pub proof fn lemma_records_size_monotone(records: Seq<RecordView>, k: int)
    requires
        0 <= k <= records.len(),
    ensures
        records_size(records.take(k)) <= records_size(records),
    decreases records.len() - k,
{
    if k == records.len() {
        assert(records.take(k) =~= records);
    } else {
        assert(records.drop_last().take(k) =~= records.take(k));
        lemma_records_size_monotone(records.drop_last(), k);
    }
}

/// Takes the size of a question from a budget. `None` when it does not fit.
pub fn charge_question(budget: usize, q: &Question) -> (rest: Option<usize>)
    ensures
        match rest {
            Some(left) => left == budget - question_size(q@),
            None => question_size(q@) > budget,
        },
{
    let n = q.wire.len();
    if n > budget {
        return None;
    }
    Some(budget - n)
}

/// Takes the size of a record from a budget. `None` when it does not fit.
pub fn charge_record(budget: usize, r: &AnswerRecord) -> (rest: Option<usize>)
    ensures
        match rest {
            Some(left) => left == budget - record_size(r@),
            None => record_size(r@) > budget,
        },
{
    let n = r.name.len();
    if n > budget {
        return None;
    }
    let left = budget - n;
    if left < RECORD_FIXED_SIZE {
        return None;
    }
    let left = left - RECORD_FIXED_SIZE;
    let d = r.rdata.len();
    if d > left {
        return None;
    }
    Some(left - d)
}

/// Takes the size of a question section from a budget.
pub fn charge_questions(budget: usize, questions: &Vec<Question>) -> (rest: Option<usize>)
    ensures
        match rest {
            Some(left) => left == budget - questions_size(questions_view(questions@)),
            None => questions_size(questions_view(questions@)) > budget,
        },
{
    let ghost all = questions_view(questions@);
    let mut left: usize = budget;
    let mut i: usize = 0;
    while i < questions.len()
        invariant
            i <= questions.len(),
            all == questions_view(questions@),
            left == budget - questions_size(all.take(i as int)),
        decreases questions.len() - i,
    {
        proof {
            assert(all.take(i + 1).drop_last() =~= all.take(i as int));
            assert(all.take(i + 1).last() == questions[i as int]@);
            lemma_questions_size_monotone(all, i + 1);
        }
        match charge_question(left, &questions[i]) {
            Some(next) => {
                left = next;
            },
            None => {
                return None;
            },
        }
        i = i + 1;
    }
    assert(all.take(i as int) =~= all);
    Some(left)
}

/// Takes the size of a run of records from a budget.
pub fn charge_records(budget: usize, records: &Vec<AnswerRecord>) -> (rest: Option<usize>)
    ensures
        match rest {
            Some(left) => left == budget - records_size(records_view(records@)),
            None => records_size(records_view(records@)) > budget,
        },
{
    let ghost all = records_view(records@);
    let mut left: usize = budget;
    let mut i: usize = 0;
    while i < records.len()
        invariant
            i <= records.len(),
            all == records_view(records@),
            left == budget - records_size(all.take(i as int)),
        decreases records.len() - i,
    {
        proof {
            assert(all.take(i + 1).drop_last() =~= all.take(i as int));
            assert(all.take(i + 1).last() == records[i as int]@);
            lemma_records_size_monotone(all, i + 1);
        }
        match charge_record(left, &records[i]) {
            Some(next) => {
                left = next;
            },
            None => {
                return None;
            },
        }
        i = i + 1;
    }
    assert(all.take(i as int) =~= all);
    Some(left)
}

impl Message {
    /// Whether the message, with its names written out, takes no more than
    /// `limit` octets.
    pub fn fits(&self, limit: usize) -> (b: bool)
        ensures
            b == (message_size(self@) <= limit),
    {
        if limit < HEADER_SIZE {
            return false;
        }
        match charge_questions(limit - HEADER_SIZE, &self.questions) {
            None => false,
            Some(left) => charge_records(left, &self.answers).is_some(),
        }
    }
}

} // verus!
