//! The response assembler.
//!
//! The reply repeats the request's header and question section, is marked
//! as a response, and carries the records of every question that resolved,
//! in question order, and no others. The reply must not outgrow the size
//! limit on the wire: where it would, the assembler keeps the longest run
//! of records, from the first on, with which the reply as the codec writes
//! it is within the limit, and sets the truncation flag. Where not even the
//! reply without records can be sent, the assembly fails. Where the request
//! asked something and no question resolved, the response code becomes
//! "server failure". All other header fields are the request's.

use vstd::prelude::*;
use crate::codec::{encode_within, sent_form, within, EncodeError};
use crate::message::{copy_questions, copy_records, records_view};
use crate::message::{AnswerRecord, Header, Message, MessageView, RecordView, RCODE_SERVER_FAILURE};
use crate::outcome::{none_resolved, outcome_at, outcomes_view};
use crate::outcome::{resolved_records, Outcome, OutcomeView, ResolveError};

verus! {

/// A reply, and the octets to send for it.
#[derive(Debug, PartialEq, Eq)]
pub struct Reply {
    pub message: Message,
    pub octets: Vec<u8>,
}

pub struct ReplyView {
    pub message: MessageView,
    pub octets: Seq<u8>,
}

impl View for Reply {
    type V = ReplyView;

    open spec fn view(&self) -> ReplyView {
        ReplyView { message: self.message@, octets: self.octets@ }
    }
}

/// The header of the reply to a request with this header.
pub open spec fn reply_header(header: Header, cut: bool, failed: bool) -> Header {
    Header {
        response: true,
        truncated: header.truncated || cut,
        response_code: if failed {
            RCODE_SERVER_FAILURE
        } else {
            header.response_code
        },
        ..header
    }
}

/// The reply that carries the first `k` of the resolved records.
pub open spec fn candidate(request: MessageView, outcomes: Seq<OutcomeView>, k: nat)
    -> MessageView {
    let all = resolved_records(outcomes, request.questions.len());
    MessageView {
        header: reply_header(
            request.header,
            k < all.len(),
            none_resolved(outcomes, request.questions.len()),
        ),
        questions: request.questions,
        answers: all.take(k as int),
    }
}

/// Whether a message can be sent within `limit` octets.
pub open spec fn fits(m: MessageView, limit: nat) -> bool {
    within(sent_form(m), limit) is Ok
}

/// The largest number of records, no more than `k`, with which the reply
/// can be sent within the limit, if there is one.
pub open spec fn longest_fitting(
    request: MessageView,
    outcomes: Seq<OutcomeView>,
    limit: nat,
    k: nat,
) -> Option<nat>
    decreases k,
{
    if fits(candidate(request, outcomes, k), limit) {
        Some(k)
    } else if k == 0 {
        None
    } else {
        longest_fitting(request, outcomes, limit, (k - 1) as nat)
    }
}

/// The reply to `request`, given what came of its questions, with the
/// octets to send; or why not even a reply without records can be sent.
pub open spec fn assembled(request: MessageView, outcomes: Seq<OutcomeView>, limit: nat) -> Result<
    ReplyView,
    EncodeError,
> {
    let n = resolved_records(outcomes, request.questions.len()).len();
    match longest_fitting(request, outcomes, limit, n) {
        Some(k) => Ok(
            ReplyView {
                message: candidate(request, outcomes, k),
                octets: within(sent_form(candidate(request, outcomes, k)), limit)->Ok_0,
            },
        ),
        None => Err(within(sent_form(candidate(request, outcomes, 0)), limit)->Err_0),
    }
}

/// The view of what `assemble` returns.
pub open spec fn assemble_result_view(r: Result<Reply, EncodeError>) -> Result<
    ReplyView,
    EncodeError,
> {
    match r {
        Ok(reply) => Ok(reply@),
        Err(e) => Err(e),
    }
}

/// Copies of the records of the first `n` questions that resolved, in
/// question order, and whether there were questions and none resolved.
pub fn collect_resolved(outcomes: &Vec<Outcome>, n: usize) -> (found: (Vec<AnswerRecord>, bool))
    ensures
        records_view(found.0@) == resolved_records(outcomes_view(outcomes@), n as nat),
        found.1 == none_resolved(outcomes_view(outcomes@), n as nat),
{
    let ghost all = outcomes_view(outcomes@);
    let mut records: Vec<AnswerRecord> = Vec::new();
    let mut any_resolved = false;
    let mut i: usize = 0;
    while i < n
        invariant
            i <= n,
            all == outcomes_view(outcomes@),
            records_view(records@) == resolved_records(all, i as nat),
            any_resolved <==> exists|k: int| 0 <= k < i && (#[trigger] outcome_at(all, k)) is Ok,
        decreases n - i,
    {
        if i < outcomes.len() {
            match &outcomes[i] {
                Ok(reported) => {
                    let ghost before = records@;
                    let mut copy = copy_records(reported);
                    let ghost added = copy@;
                    records.append(&mut copy);
                    any_resolved = true;
                    proof {
                        assert(outcome_at(all, i as int) == Ok::<Seq<RecordView>, ResolveError>(
                            records_view(reported@),
                        ));
                        assert(records_view(before + added) =~= records_view(before)
                            + records_view(added));
                    }
                },
                Err(_) => {
                    proof {
                        assert(outcome_at(all, i as int) is Err);
                        assert(resolved_records(all, i as nat) + Seq::<RecordView>::empty()
                            =~= resolved_records(all, i as nat));
                    }
                },
            }
        } else {
            proof {
                assert(resolved_records(all, i as nat) + Seq::<RecordView>::empty()
                    =~= resolved_records(all, i as nat));
            }
        }
        i = i + 1;
    }
    (records, n > 0 && !any_resolved)
}

/// Builds the reply to `request` from the outcomes of its questions, taken
/// by index: outcome `i` belongs to question `i`. A question without an
/// outcome counts as timed out; outcomes beyond the last question are not
/// looked at. `limit` is the number of octets that the reply must not
/// outgrow on the wire.
pub fn assemble(request: &Message, outcomes: &Vec<Outcome>, limit: usize) -> (r: Result<
    Reply,
    EncodeError,
>)
    ensures
        assemble_result_view(r) == assembled(request@, outcomes_view(outcomes@), limit as nat),
        r matches Ok(reply) ==> reply.octets.len() <= limit,
{
    let (records, failed) = collect_resolved(outcomes, request.questions.len());
    let ghost all = records_view(records@);
    let ghost views = outcomes_view(outcomes@);
    let mut k: usize = records.len();
    let mut message = Message {
        header: Header {
            response: true,
            response_code: if failed {
                RCODE_SERVER_FAILURE
            } else {
                request.header.response_code
            },
            ..request.header
        },
        questions: copy_questions(&request.questions),
        answers: records,
    };
    assert(all.take(all.len() as int) =~= all);
    loop
        invariant
            all == resolved_records(views, request@.questions.len()),
            views == outcomes_view(outcomes@),
            k <= all.len(),
            message@ == candidate(request@, views, k as nat),
            longest_fitting(request@, views, limit as nat, all.len()) == longest_fitting(
                request@,
                views,
                limit as nat,
                k as nat,
            ),
        decreases k,
    {
        match encode_within(&message, limit) {
            Ok(octets) => {
                return Ok(Reply { message, octets });
            },
            Err(e) => {
                if k == 0 {
                    return Err(e);
                }
                message.answers.pop();
                message.header.truncated = true;
                k = k - 1;
                assert(message@.answers =~= all.take(k as int));
            },
        }
    }
}

} // verus!
