//! What came of asking an upstream resolver one question.

use vstd::prelude::*;
use crate::message::{records_view, AnswerRecord, RecordView};

verus! {

/// Why a question got no answer. A question without matching records is no
/// failure: it resolves to no records.
#[derive(Clone, Copy, Debug, PartialEq, Eq, Structural)]
pub enum ResolveError {
    /// The upstream did not answer in time.
    Timeout,
    /// The upstream could not be reached.
    NetworkError,
    /// The upstream's answer could not be read.
    Malformed,
}

/// What an upstream's client says when it hands back no records.
#[derive(Clone, Copy, Debug, PartialEq, Eq, Structural)]
pub enum LookupFailure {
    /// The upstream answered, and has no records for the question.
    NoRecords,
    /// No answer came in time.
    Timeout,
    /// The upstream could not be reached.
    Network,
    /// An answer came and could not be read.
    Protocol,
}

/// The records that an upstream reported, or the reason it reported none.
pub type Outcome = Result<Vec<AnswerRecord>, ResolveError>;

/// An outcome with its records by their views.
pub type OutcomeView = Result<Seq<RecordView>, ResolveError>;

/// The view of one outcome.
pub open spec fn outcome_view(outcome: Outcome) -> OutcomeView {
    match outcome {
        Ok(records) => Ok(records_view(records@)),
        Err(e) => Err(e),
    }
}

/// The views of the outcomes of a request, in question order.
pub open spec fn outcomes_view(outcomes: Seq<Outcome>) -> Seq<OutcomeView> {
    outcomes.map_values(|o: Outcome| outcome_view(o))
}

/// What a lookup without records comes to. An upstream that has nothing
/// for the question resolved it, to no records; the rest are failures.
pub open spec fn failure_outcome(failure: LookupFailure) -> OutcomeView {
    match failure {
        LookupFailure::NoRecords => Ok(Seq::empty()),
        LookupFailure::Timeout => Err(ResolveError::Timeout),
        LookupFailure::Network => Err(ResolveError::NetworkError),
        LookupFailure::Protocol => Err(ResolveError::Malformed),
    }
}

/// The outcome of a lookup that handed back no records.
pub fn outcome_of_failure(failure: LookupFailure) -> (outcome: Outcome)
    ensures
        outcome_view(outcome) == failure_outcome(failure),
{
    match failure {
        LookupFailure::NoRecords => {
            let none: Vec<AnswerRecord> = Vec::new();
            assert(records_view(none@) =~= Seq::<RecordView>::empty());
            Ok(none)
        },
        LookupFailure::Timeout => Err(ResolveError::Timeout),
        LookupFailure::Network => Err(ResolveError::NetworkError),
        LookupFailure::Protocol => Err(ResolveError::Malformed),
    }
}

/// The records that an outcome contributes to the reply: its own when the
/// question resolved, none when it failed.
pub open spec fn contribution(outcome: OutcomeView) -> Seq<RecordView> {
    match outcome {
        Ok(records) => records,
        Err(_) => Seq::empty(),
    }
}

/// The outcome of question `i` among those at hand. A question whose outcome
/// is missing counts as timed out.
pub open spec fn outcome_at(outcomes: Seq<OutcomeView>, i: int) -> OutcomeView {
    if 0 <= i < outcomes.len() {
        outcomes[i]
    } else {
        Err(ResolveError::Timeout)
    }
}

/// The records of the first `n` questions that resolved, in question order
/// and, within a question, in the order the upstream reported them.
pub open spec fn resolved_records(outcomes: Seq<OutcomeView>, n: nat) -> Seq<RecordView>
    decreases n,
{
    if n == 0 {
        Seq::empty()
    } else {
        resolved_records(outcomes, (n - 1) as nat) + contribution(outcome_at(outcomes, n - 1))
    }
}

/// Whether none of the first `n` questions resolved, there being at least one.
pub open spec fn none_resolved(outcomes: Seq<OutcomeView>, n: nat) -> bool {
    n > 0 && forall|i: int| 0 <= i < n ==> (#[trigger] outcome_at(outcomes, i)) is Err
}

} // verus!
