//! What holds of the relay as a whole, proved from the definitions that the
//! contracts of its functions use.

use vstd::prelude::*;
use crate::assemble::{assembled, candidate, fits, longest_fitting, reply_header};
use crate::codec::sent_form;
use crate::dispatch::{bound_of, can_issue, completed, expired, in_flight, is_first_waiting};
use crate::dispatch::{all_settled, issued, outcomes_of, started, DispatchView, SlotView};
use crate::message::{Header, MessageView, RecordView, RCODE_SERVER_FAILURE};
use crate::name::in_domain;
use crate::outcome::{contribution, none_resolved, outcome_at, resolved_records, OutcomeView};
use crate::outcome::ResolveError;
use crate::routing::{accepts, is_first_match, is_total, lemma_route_first_match, route};
use crate::routing::{routes_within, standard_rules, RuleView, UpstreamId};

verus! {

/// A name that no rule before the last accepts is handled by the upstream
/// of the last rule, the catch-all.
pub proof fn law_unmatched_name_goes_to_catch_all(rules: Seq<RuleView>, name: Seq<char>)
    requires
        is_total(rules),
        forall|j: int| 0 <= j < rules.len() - 1 ==> !accepts(#[trigger] rules[j].matcher, name),
    ensures
        route(rules, name) == rules.last().upstream,
{
    assert(is_first_match(rules, name, rules.len() - 1));
    lemma_route_first_match(rules, name, rules.len() - 1);
}

/// A total table whose rules name only upstreams at hand routes every
/// name to one of them.
pub proof fn law_route_stays_within(
    rules: Seq<RuleView>,
    available: Seq<UpstreamId>,
    name: Seq<char>,
)
    requires
        is_total(rules),
        routes_within(rules, available),
    ensures
        available.contains(route(rules, name)),
    decreases rules.len(),
{
    if !accepts(rules[0].matcher, name) {
        let rest = rules.drop_first();
        assert(rules.last().matcher is Any);
        assert(rest.len() > 0);
        assert(rest.last() == rules.last());
        assert forall|i: int| 0 <= i < rest.len() implies available.contains(
            (#[trigger] rest[i]).upstream,
        ) by {
            assert(rest[i] == rules[i + 1]);
        }
        law_route_stays_within(rest, available, name);
    }
}

/// Under the stock policy a name is handled by the system's resolver if it
/// lies under `cn.`, and by the public resolver if it does not.
pub proof fn law_stock_policy_routes_by_domain(name: Seq<char>)
    ensures
        in_domain(name, "cn."@) ==> route(standard_rules(), name) == UpstreamId::Default,
        !in_domain(name, "cn."@) ==> route(standard_rules(), name) == UpstreamId::Public,
{
    let rules = standard_rules();
    if in_domain(name, "cn."@) {
        assert(is_first_match(rules, name, 0));
        lemma_route_first_match(rules, name, 0);
    } else {
        assert(!accepts(rules[0].matcher, name));
        assert(is_first_match(rules, name, 1));
        lemma_route_first_match(rules, name, 1);
    }
}

/// There is one lookup for each question, and it asks for the question's
/// name and type at the upstream that the policy gives for the name, under
/// the question's own index.
pub proof fn law_lookup_follows_policy(
    request: MessageView,
    rules: Seq<RuleView>,
    max_in_flight: nat,
    i: int,
)
    requires
        0 <= i < request.questions.len(),
        request.questions.len() <= usize::MAX,
    ensures
        started(request, rules, max_in_flight).lookups[i].upstream == route(
            rules,
            request.questions[i].name,
        ),
        started(request, rules, max_in_flight).lookups.len() == request.questions.len(),
        started(request, rules, max_in_flight).lookups[i].name == request.questions[i].name,
        started(request, rules, max_in_flight).lookups[i].record_type
            == request.questions[i].record_type,
        started(request, rules, max_in_flight).lookups[i].index == i,
{
}

/// The bare zone is not under itself: `cn.` goes where names outside `cn.`
/// go.
pub proof fn law_bare_zone_is_outside(zone: Seq<char>)
    ensures
        !in_domain(zone, zone),
{
}

/// The reply's header is the request's, but for three fields: it is marked
/// as a response, truncation is set where records were cut, and the
/// response code is "server failure" where nothing resolved.
pub proof fn law_header_passes_through(header: Header, cut: bool, failed: bool)
    ensures
        reply_header(header, cut, failed).id == header.id,
        reply_header(header, cut, failed).op_code == header.op_code,
        reply_header(header, cut, failed).authoritative == header.authoritative,
        reply_header(header, cut, failed).recursion_desired == header.recursion_desired,
        reply_header(header, cut, failed).recursion_available == header.recursion_available,
        reply_header(header, cut, failed).authentic_data == header.authentic_data,
        reply_header(header, cut, failed).checking_disabled == header.checking_disabled,
        reply_header(header, cut, failed).response,
        reply_header(header, cut, failed).truncated == (header.truncated || cut),
        !failed ==> reply_header(header, cut, failed).response_code == header.response_code,
        failed ==> reply_header(header, cut, failed).response_code == RCODE_SERVER_FAILURE,
{
}

/// What `longest_fitting` finds fits, is no more than `k`, and is followed
/// up to `k` only by what does not fit; where it finds nothing, nothing up
/// to `k` fits.
pub proof fn law_longest_fitting(
    request: MessageView,
    outcomes: Seq<OutcomeView>,
    limit: nat,
    k: nat,
)
    ensures
        match longest_fitting(request, outcomes, limit, k) {
            Some(found) => {
                &&& found <= k
                &&& fits(candidate(request, outcomes, found), limit)
                &&& forall|j: nat|
                    found < j <= k ==> !fits(#[trigger] candidate(request, outcomes, j), limit)
            },
            None => forall|j: nat|
                j <= k ==> !fits(#[trigger] candidate(request, outcomes, j), limit),
        },
    decreases k,
{
    if !fits(candidate(request, outcomes, k), limit) && k > 0 {
        law_longest_fitting(request, outcomes, limit, (k - 1) as nat);
    }
}

/// Where there is a reply, it repeats the request's transaction id and
/// question section, is marked as a response, and its answers are resolved
/// records from the first on, with none left out in between and none put
/// in. What is sent is the wire form of that very message, within the
/// limit. Truncation is set beyond the request's own only where a record
/// was left out, and then no longer run of records could have been sent.
pub proof fn law_reply_echoes_request(request: MessageView, outcomes: Seq<OutcomeView>, limit: nat)
    ensures
        assembled(request, outcomes, limit) matches Ok(reply) ==> {
            let all = resolved_records(outcomes, request.questions.len());
            let kept = reply.message.answers.len();
            &&& reply.message.header.id == request.header.id
            &&& reply.message.header.response
            &&& reply.message.questions == request.questions
            &&& reply.message.answers == all.take(kept as int)
            &&& kept <= all.len()
            &&& reply.message.header.truncated == (request.header.truncated || kept < all.len())
            &&& sent_form(reply.message) == Some(reply.octets)
            &&& reply.octets.len() <= limit
            &&& forall|j: nat|
                kept < j <= all.len() ==> !fits(#[trigger] candidate(request, outcomes, j), limit)
        },
        assembled(request, outcomes, limit) is Err ==> forall|j: nat|
            j <= resolved_records(outcomes, request.questions.len()).len() ==> !fits(
                #[trigger] candidate(request, outcomes, j),
                limit,
            ),
{
    let all = resolved_records(outcomes, request.questions.len());
    law_longest_fitting(request, outcomes, limit, all.len());
}

/// Two requests with different transaction ids get replies with different
/// ids, each its own, whatever came of their questions.
pub proof fn law_transaction_ids_never_swap(
    first: MessageView,
    first_outcomes: Seq<OutcomeView>,
    second: MessageView,
    second_outcomes: Seq<OutcomeView>,
    limit: nat,
)
    requires
        first.header.id != second.header.id,
        assembled(first, first_outcomes, limit) is Ok,
        assembled(second, second_outcomes, limit) is Ok,
    ensures
        assembled(first, first_outcomes, limit)->Ok_0.message.header.id == first.header.id,
        assembled(second, second_outcomes, limit)->Ok_0.message.header.id == second.header.id,
        assembled(first, first_outcomes, limit)->Ok_0.message.header.id != assembled(
            second,
            second_outcomes,
            limit,
        )->Ok_0.message.header.id,
{
    law_reply_echoes_request(first, first_outcomes, limit);
    law_reply_echoes_request(second, second_outcomes, limit);
}

/// Where the reply with every resolved record can be sent within the
/// limit, that is the reply: all of them in question order, and truncation
/// as the request had it.
pub proof fn law_all_resolved_records_appear(
    request: MessageView,
    outcomes: Seq<OutcomeView>,
    limit: nat,
)
    requires
        fits(
            candidate(
                request,
                outcomes,
                resolved_records(outcomes, request.questions.len()).len(),
            ),
            limit,
        ),
    ensures
        assembled(request, outcomes, limit) is Ok,
        assembled(request, outcomes, limit)->Ok_0.message.answers == resolved_records(
            outcomes,
            request.questions.len(),
        ),
        assembled(request, outcomes, limit)->Ok_0.message.header == reply_header(
            request.header,
            false,
            none_resolved(outcomes, request.questions.len()),
        ),
{
    let all = resolved_records(outcomes, request.questions.len());
    assert(all.take(all.len() as int) =~= all);
}

/// The records of one question are its contribution.
proof fn lemma_resolved_one(outcomes: Seq<OutcomeView>)
    ensures
        resolved_records(outcomes, 1) == contribution(outcome_at(outcomes, 0)),
{
    assert(resolved_records(outcomes, 0) == Seq::<RecordView>::empty());
    assert(resolved_records(outcomes, 1) == resolved_records(outcomes, 0) + contribution(
        outcome_at(outcomes, 0),
    ));
    assert(Seq::<RecordView>::empty() + contribution(outcome_at(outcomes, 0)) =~= contribution(
        outcome_at(outcomes, 0),
    ));
}

/// A request with one question that resolved, whose full reply can be sent
/// within the limit, is answered with the records that the upstream
/// reported, in the order it reported them, and with the request's own
/// response code.
pub proof fn law_single_question_answered_in_order(
    request: MessageView,
    records: Seq<RecordView>,
    limit: nat,
)
    requires
        request.questions.len() == 1,
        fits(candidate(request, seq![Ok(records)], records.len()), limit),
    ensures
        assembled(request, seq![Ok(records)], limit) is Ok,
        assembled(request, seq![Ok(records)], limit)->Ok_0.message.answers == records,
        assembled(request, seq![Ok(records)], limit)->Ok_0.message.header == reply_header(
            request.header,
            false,
            false,
        ),
{
    let outcomes = seq![Ok::<Seq<RecordView>, ResolveError>(records)];
    lemma_resolved_one(outcomes);
    assert(resolved_records(outcomes, 1) =~= records);
    assert(outcome_at(outcomes, 0) is Ok);
    assert(!none_resolved(outcomes, 1));
    law_all_resolved_records_appear(request, outcomes, limit);
}

/// A question that failed contributes no record, and takes none away: the
/// resolved records are those of the other questions, as if the failed one
/// had resolved to nothing.
pub proof fn law_failed_question_contributes_nothing(
    outcomes: Seq<OutcomeView>,
    n: nat,
    failed: int,
)
    requires
        0 <= failed < outcomes.len(),
        outcomes[failed] is Err,
    ensures
        resolved_records(outcomes, n) == resolved_records(
            outcomes.update(failed, Ok(Seq::empty())),
            n,
        ),
    decreases n,
{
    if n > 0 {
        let other = outcomes.update(failed, Ok(Seq::<RecordView>::empty()));
        law_failed_question_contributes_nothing(outcomes, (n - 1) as nat, failed);
        assert(contribution(outcome_at(outcomes, n - 1)) =~= contribution(
            outcome_at(other, n - 1),
        ));
    }
}

/// A request with two questions of which the first resolved and the second
/// failed, whose full reply can be sent within the limit, is answered with
/// the first question's records alone, and not with a failure code.
pub proof fn law_partial_failure_keeps_the_rest(
    request: MessageView,
    records: Seq<RecordView>,
    error: ResolveError,
    limit: nat,
)
    requires
        request.questions.len() == 2,
        fits(candidate(request, seq![Ok(records), Err(error)], records.len()), limit),
    ensures
        assembled(request, seq![Ok(records), Err(error)], limit) is Ok,
        assembled(request, seq![Ok(records), Err(error)], limit)->Ok_0.message.answers
            == records,
        assembled(request, seq![Ok(records), Err(error)], limit)->Ok_0.message.header
            == reply_header(request.header, false, false),
{
    let outcomes = seq![Ok::<Seq<RecordView>, ResolveError>(records), Err(error)];
    lemma_resolved_one(outcomes);
    assert(resolved_records(outcomes, 2) == resolved_records(outcomes, 1) + contribution(
        outcome_at(outcomes, 1),
    ));
    assert(resolved_records(outcomes, 2) =~= records);
    assert(outcome_at(outcomes, 0) is Ok);
    assert(!none_resolved(outcomes, 2));
    law_all_resolved_records_appear(request, outcomes, limit);
}

/// Where the request asked something and nothing resolved, a reply holds
/// no record and the failure code, and is not marked as cut.
pub proof fn law_total_failure_is_reported(
    request: MessageView,
    outcomes: Seq<OutcomeView>,
    limit: nat,
)
    requires
        none_resolved(outcomes, request.questions.len()),
    ensures
        assembled(request, outcomes, limit) matches Ok(reply) ==> {
            &&& reply.message.answers == Seq::<RecordView>::empty()
            &&& reply.message.header == reply_header(request.header, false, true)
            &&& reply.message.header.response_code == RCODE_SERVER_FAILURE
        },
{
    lemma_none_resolved_no_records(outcomes, request.questions.len());
    let all = resolved_records(outcomes, request.questions.len());
    assert(all.take(0) =~= Seq::<RecordView>::empty());
}

/// Failed questions have no records.
proof fn lemma_none_resolved_no_records(outcomes: Seq<OutcomeView>, n: nat)
    requires
        forall|i: int| 0 <= i < n ==> (#[trigger] outcome_at(outcomes, i)) is Err,
    ensures
        resolved_records(outcomes, n) == Seq::<RecordView>::empty(),
    decreases n,
{
    if n > 0 {
        lemma_none_resolved_no_records(outcomes, (n - 1) as nat);
        assert(outcome_at(outcomes, n - 1) is Err);
        assert(Seq::<RecordView>::empty() + Seq::<RecordView>::empty() =~= Seq::<
            RecordView,
        >::empty());
    }
}

/// Two replies built from the same request and the same outcomes are the
/// same reply, octet for octet.
pub proof fn law_same_outcomes_same_reply(
    request: MessageView,
    outcomes: Seq<OutcomeView>,
    limit: nat,
    first: Seq<u8>,
    second: Seq<u8>,
)
    requires
        assembled(request, outcomes, limit) matches Ok(reply) && reply.octets == first,
        assembled(request, outcomes, limit) matches Ok(reply) && reply.octets == second,
    ensures
        first == second,
{
}

/// A dispatch can always begin: its bound allows at least one lookup, and
/// where the request asks something, the first question can be handed out.
pub proof fn law_dispatch_can_begin(request: MessageView, rules: Seq<RuleView>, setting: nat)
    ensures
        started(request, rules, setting).max_in_flight >= 1,
        started(request, rules, setting).max_in_flight == bound_of(setting),
        request.questions.len() > 0 ==> can_issue(started(request, rules, setting)),
{
    let state = started(request, rules, setting);
    lemma_waiting_not_in_flight(state.slots);
    if request.questions.len() > 0 {
        assert(is_first_waiting(state.slots, 0));
    }
}

/// Outcomes of different questions may come back in either order: the
/// state after both is the same.
pub proof fn law_completion_order_is_irrelevant(
    state: DispatchView,
    i: int,
    a: OutcomeView,
    j: int,
    b: OutcomeView,
)
    requires
        i != j,
    ensures
        completed(completed(state, i, a), j, b) == completed(completed(state, j, b), i, a),
{
    assert(completed(completed(state, i, a), j, b).slots =~= completed(
        completed(state, j, b),
        i,
        a,
    ).slots);
}

/// An outcome that was taken is reported under the index it came back
/// for, and changes the report of no other question.
pub proof fn law_outcome_stays_with_its_question(
    state: DispatchView,
    i: int,
    outcome: OutcomeView,
)
    requires
        0 <= i < state.slots.len(),
        state.slots[i] is InFlight,
    ensures
        outcomes_of(completed(state, i, outcome)) == outcomes_of(state).update(i, outcome),
        completed(state, i, outcome).lookups == state.lookups,
{
    assert(outcomes_of(completed(state, i, outcome)) =~= outcomes_of(state).update(i, outcome));
}

/// Replacing one slot changes the number in flight by what the slot adds
/// or takes away.
proof fn lemma_in_flight_update(slots: Seq<SlotView>, i: int, slot: SlotView)
    requires
        0 <= i < slots.len(),
    ensures
        in_flight(slots.update(i, slot)) + (if slots[i] is InFlight {
            1int
        } else {
            0int
        }) == in_flight(slots) + (if slot is InFlight {
            1int
        } else {
            0int
        }),
    decreases slots.len(),
{
    let changed = slots.update(i, slot);
    if i == slots.len() - 1 {
        assert(changed.drop_last() =~= slots.drop_last());
    } else {
        assert(changed.drop_last() =~= slots.drop_last().update(i, slot));
        lemma_in_flight_update(slots.drop_last(), i, slot);
    }
}

/// Handing out a lookup never takes the number in flight over the bound,
/// and an outcome coming back lowers it by one.
pub proof fn law_in_flight_stays_bounded(state: DispatchView, i: int, outcome: OutcomeView)
    requires
        in_flight(state.slots) <= state.max_in_flight,
    ensures
        can_issue(state) && is_first_waiting(state.slots, i) ==> in_flight(
            issued(state, i).slots,
        ) == in_flight(state.slots) + 1 && in_flight(issued(state, i).slots)
            <= state.max_in_flight,
        0 <= i < state.slots.len() && state.slots[i] is InFlight ==> in_flight(
            completed(state, i, outcome).slots,
        ) == in_flight(state.slots) - 1,
        in_flight(completed(state, i, outcome).slots) <= state.max_in_flight,
{
    if can_issue(state) && is_first_waiting(state.slots, i) {
        lemma_in_flight_update(state.slots, i, SlotView::InFlight);
    }
    if 0 <= i < state.slots.len() && state.slots[i] is InFlight {
        lemma_in_flight_update(state.slots, i, SlotView::Done(outcome));
    }
}

/// No step of a dispatch changes the request or the lookups of its
/// questions.
pub proof fn law_steps_keep_the_request(state: DispatchView, i: int, outcome: OutcomeView)
    ensures
        issued(state, i).request == state.request,
        issued(state, i).lookups == state.lookups,
        completed(state, i, outcome).request == state.request,
        completed(state, i, outcome).lookups == state.lookups,
        expired(state).request == state.request,
        expired(state).lookups == state.lookups,
{
}

/// Before any lookup was handed out none is in flight.
pub proof fn law_nothing_in_flight_at_start(
    request: MessageView,
    rules: Seq<RuleView>,
    max_in_flight: nat,
)
    ensures
        in_flight(started(request, rules, max_in_flight).slots) == 0,
{
    lemma_waiting_not_in_flight(started(request, rules, max_in_flight).slots);
}

/// Slots of which none is in flight count none in flight.
proof fn lemma_waiting_not_in_flight(slots: Seq<SlotView>)
    requires
        forall|i: int| 0 <= i < slots.len() ==> !(#[trigger] slots[i] is InFlight),
    ensures
        in_flight(slots) == 0,
    decreases slots.len(),
{
    if slots.len() > 0 {
        lemma_waiting_not_in_flight(slots.drop_last());
    }
}

/// After the deadline every question is settled; what was settled before
/// keeps its outcome, and what was not has timed out. The reply is the one
/// that the state before the deadline would have given.
pub proof fn law_deadline_settles_everything(state: DispatchView)
    ensures
        all_settled(expired(state).slots),
        in_flight(expired(state).slots) == 0,
        outcomes_of(expired(state)) == outcomes_of(state),
{
    lemma_waiting_not_in_flight(expired(state).slots);
    assert(outcomes_of(expired(state)) =~= outcomes_of(state));
}

} // verus!
