//! The query dispatcher, as a state machine.
//!
//! The dispatcher owns no socket and waits for nothing. It says which
//! lookup to start next, never more at a time than its bound allows, and
//! takes each outcome back under the index of the question it belongs to,
//! in whatever order the lookups finish. Its caller performs the lookups.

use vstd::prelude::*;
use crate::assemble::{assemble, assemble_result_view, assembled, Reply};
use crate::codec::EncodeError;
use crate::message::{copy_records, Message, MessageView, QuestionView};
use crate::outcome::{outcome_view, outcomes_view, Outcome, OutcomeView, ResolveError};
use crate::routing::{route, RoutingPolicy, RuleView, UpstreamId};

verus! {

/// One question to put to one upstream.
#[derive(Debug, PartialEq, Eq)]
pub struct Lookup {
    /// The place of the question in the request.
    pub index: usize,
    /// The upstream that the routing policy chose for the name.
    pub upstream: UpstreamId,
    pub name: String,
    pub record_type: u16,
}

pub struct LookupView {
    pub index: usize,
    pub upstream: UpstreamId,
    pub name: Seq<char>,
    pub record_type: u16,
}

impl View for Lookup {
    type V = LookupView;

    open spec fn view(&self) -> LookupView {
        LookupView {
            index: self.index,
            upstream: self.upstream,
            name: self.name@,
            record_type: self.record_type,
        }
    }
}

impl Clone for Lookup {
    fn clone(&self) -> (copy: Self)
        ensures
            copy@ == self@,
    {
        Lookup {
            index: self.index,
            upstream: self.upstream,
            name: self.name.clone(),
            record_type: self.record_type,
        }
    }
}

/// Where one question stands.
#[derive(Debug)]
pub enum Slot {
    /// Not yet handed out.
    Waiting,
    /// Handed out, outcome not yet back.
    InFlight,
    /// Settled, with what came of it.
    Done(Outcome),
}

pub enum SlotView {
    Waiting,
    InFlight,
    Done(OutcomeView),
}

impl View for Slot {
    type V = SlotView;

    open spec fn view(&self) -> SlotView {
        match self {
            Slot::Waiting => SlotView::Waiting,
            Slot::InFlight => SlotView::InFlight,
            Slot::Done(outcome) => SlotView::Done(outcome_view(*outcome)),
        }
    }
}

/// The state of a dispatch: the request, the lookup of each of its
/// questions, where each stands, and the bound on lookups in flight.
pub struct DispatchView {
    pub request: MessageView,
    pub lookups: Seq<LookupView>,
    pub slots: Seq<SlotView>,
    pub max_in_flight: nat,
}

/// The lookup for question `i` of a request under a routing table.
pub open spec fn lookup_for(q: QuestionView, rules: Seq<RuleView>, i: int) -> LookupView {
    LookupView {
        index: i as usize,
        upstream: route(rules, q.name),
        name: q.name,
        record_type: q.record_type,
    }
}

/// The bound on lookups in flight that a setting stands for: itself, and
/// one where it is zero, with which no question could ever be asked.
pub open spec fn bound_of(setting: nat) -> nat {
    if setting == 0 {
        1
    } else {
        setting
    }
}

/// The state before any lookup was handed out.
pub open spec fn started(request: MessageView, rules: Seq<RuleView>, max_in_flight: nat)
    -> DispatchView {
    DispatchView {
        request,
        lookups: Seq::new(
            request.questions.len(),
            |i: int| lookup_for(request.questions[i], rules, i),
        ),
        slots: Seq::new(request.questions.len(), |i: int| SlotView::Waiting),
        max_in_flight: bound_of(max_in_flight),
    }
}

/// How many of the slots are in flight.
pub open spec fn in_flight(slots: Seq<SlotView>) -> nat
    decreases slots.len(),
{
    if slots.len() == 0 {
        0
    } else {
        in_flight(slots.drop_last()) + if slots.last() is InFlight {
            1nat
        } else {
            0nat
        }
    }
}

/// Whether `i` is the first waiting slot.
pub open spec fn is_first_waiting(slots: Seq<SlotView>, i: int) -> bool {
    &&& 0 <= i < slots.len()
    &&& slots[i] is Waiting
    &&& forall|j: int| 0 <= j < i ==> !(#[trigger] slots[j] is Waiting)
}

/// Whether a lookup may be handed out: one is waiting, and fewer are in
/// flight than the bound allows.
pub open spec fn can_issue(state: DispatchView) -> bool {
    &&& in_flight(state.slots) < state.max_in_flight
    &&& exists|i: int| is_first_waiting(state.slots, i)
}

/// The state after question `i` was handed out.
pub open spec fn issued(state: DispatchView, i: int) -> DispatchView {
    DispatchView { slots: state.slots.update(i, SlotView::InFlight), ..state }
}

/// The state after an outcome came back for question `i`. Only a lookup in
/// flight can be completed: anything else leaves the state as it is.
pub open spec fn completed(state: DispatchView, i: int, outcome: OutcomeView) -> DispatchView {
    if 0 <= i < state.slots.len() && state.slots[i] is InFlight {
        DispatchView { slots: state.slots.update(i, SlotView::Done(outcome)), ..state }
    } else {
        state
    }
}

/// A slot after the deadline: what is not settled has timed out.
pub open spec fn expired_slot(slot: SlotView) -> SlotView {
    match slot {
        SlotView::Done(outcome) => SlotView::Done(outcome),
        _ => SlotView::Done(Err(ResolveError::Timeout)),
    }
}

/// The state after the deadline.
pub open spec fn expired(state: DispatchView) -> DispatchView {
    DispatchView { slots: state.slots.map_values(|s: SlotView| expired_slot(s)), ..state }
}

/// What a slot reports: its outcome when settled, a timeout until then.
pub open spec fn slot_outcome(slot: SlotView) -> OutcomeView {
    match slot {
        SlotView::Done(outcome) => outcome,
        _ => Err(ResolveError::Timeout),
    }
}

/// The outcomes of a dispatch, by question index.
pub open spec fn outcomes_of(state: DispatchView) -> Seq<OutcomeView> {
    state.slots.map_values(|s: SlotView| slot_outcome(s))
}

/// Whether every question is settled.
pub open spec fn all_settled(slots: Seq<SlotView>) -> bool {
    forall|i: int| 0 <= i < slots.len() ==> (#[trigger] slots[i]) is Done
}

/// One question of a dispatch: its lookup, and where it stands.
#[derive(Debug)]
struct Entry {
    upstream: UpstreamId,
    name: String,
    record_type: u16,
    slot: Slot,
}

impl Entry {
    /// The lookup of this entry when it stands at place `i`.
    spec fn lookup_at(&self, i: int) -> LookupView {
        LookupView {
            index: i as usize,
            upstream: self.upstream,
            name: self.name@,
            record_type: self.record_type,
        }
    }

    /// The same question with another standing.
    fn with_slot(&self, slot: Slot) -> (e: Entry)
        ensures
            e.slot == slot,
            forall|i: int| e.lookup_at(i) == self.lookup_at(i),
    {
        Entry {
            upstream: self.upstream,
            name: self.name.clone(),
            record_type: self.record_type,
            slot,
        }
    }
}

/// The dispatch of one request.
#[derive(Debug)]
pub struct Dispatcher {
    request: Message,
    entries: Vec<Entry>,
    max_in_flight: usize,
}

impl View for Dispatcher {
    type V = DispatchView;

    closed spec fn view(&self) -> DispatchView {
        DispatchView {
            request: self.request@,
            lookups: Seq::new(self.entries@.len(), |i: int| self.entries@[i].lookup_at(i)),
            slots: self.entries@.map_values(|e: Entry| e.slot@),
            max_in_flight: self.max_in_flight as nat,
        }
    }
}

impl Dispatcher {
    /// Routes every question of `request` by `policy` and keeps a copy of
    /// the request. No lookup is handed out yet. At most `max_in_flight`
    /// lookups will be in flight at a time, and one where that is zero.
    pub fn start(request: &Message, policy: &RoutingPolicy, max_in_flight: usize) -> (d: Dispatcher)
        ensures
            d@ == started(request@, policy@, max_in_flight as nat),
    {
        let mut entries: Vec<Entry> = Vec::new();
        let mut i: usize = 0;
        while i < request.questions.len()
            invariant
                i <= request.questions.len(),
                entries.len() == i,
                forall|k: int|
                    0 <= k < i ==> (#[trigger] entries[k]).lookup_at(k) == lookup_for(
                        request@.questions[k],
                        policy@,
                        k,
                    ),
                forall|k: int| 0 <= k < i ==> (#[trigger] entries[k]).slot is Waiting,
            decreases request.questions.len() - i,
        {
            let q = &request.questions[i];
            assert(request@.questions[i as int] == q@);
            let upstream = policy.classify(q.name.as_str());
            entries.push(
                Entry {
                    upstream,
                    name: q.name.clone(),
                    record_type: q.record_type,
                    slot: Slot::Waiting,
                },
            );
            i = i + 1;
        }
        let bound = if max_in_flight == 0 {
            1
        } else {
            max_in_flight
        };
        let d = Dispatcher { request: request.clone(), entries, max_in_flight: bound };
        assert(d@.lookups =~= started(request@, policy@, max_in_flight as nat).lookups);
        assert(d@.slots =~= started(request@, policy@, max_in_flight as nat).slots);
        d
    }

    /// The request that is being answered.
    pub fn request(&self) -> (request: &Message)
        ensures
            request@ == self@.request,
    {
        &self.request
    }

    /// The number of questions.
    pub fn len(&self) -> (n: usize)
        ensures
            n == self@.slots.len(),
            n == self@.lookups.len(),
    {
        self.entries.len()
    }

    /// Hands out the next lookup: that of the first waiting question, if
    /// fewer lookups are in flight than the bound allows. The question is
    /// in flight from then on.
    pub fn next_lookup(&mut self) -> (next: Option<Lookup>)
        ensures
            next is Some <==> can_issue(old(self)@),
            match next {
                Some(lookup) => {
                    &&& is_first_waiting(old(self)@.slots, lookup.index as int)
                    &&& lookup@ == old(self)@.lookups[lookup.index as int]
                    &&& final(self)@ == issued(old(self)@, lookup.index as int)
                },
                None => final(self)@ == old(self)@,
            },
    {
        let ghost slots = self@.slots;
        let mut flying: usize = 0;
        let mut first: Option<usize> = None;
        let mut i: usize = 0;
        while i < self.entries.len()
            invariant
                i <= self.entries.len(),
                *self == *old(self),
                slots == self@.slots,
                slots.len() == self.entries.len(),
                flying == in_flight(slots.take(i as int)),
                flying <= i,
                match first {
                    Some(f) => f < i && is_first_waiting(slots, f as int),
                    None => forall|j: int| 0 <= j < i ==> !(#[trigger] slots[j] is Waiting),
                },
            decreases self.entries.len() - i,
        {
            proof {
                assert(slots.take(i + 1).drop_last() =~= slots.take(i as int));
                assert(slots[i as int] == self.entries[i as int].slot@);
            }
            match &self.entries[i].slot {
                Slot::InFlight => {
                    flying = flying + 1;
                },
                Slot::Waiting => {
                    if first.is_none() {
                        first = Some(i);
                    }
                },
                Slot::Done(_) => {},
            }
            i = i + 1;
        }
        assert(slots.take(i as int) =~= slots);
        if flying >= self.max_in_flight {
            return None;
        }
        match first {
            None => {
                assert forall|k: int| !is_first_waiting(slots, k) by {}
                None
            },
            Some(f) => {
                let entry = &self.entries[f];
                let lookup = Lookup {
                    index: f,
                    upstream: entry.upstream,
                    name: entry.name.clone(),
                    record_type: entry.record_type,
                };
                let entry = entry.with_slot(Slot::InFlight);
                self.entries.set(f, entry);
                proof {
                    assert(self@.slots =~= slots.update(f as int, SlotView::InFlight));
                    assert(self@.lookups =~= old(self)@.lookups);
                }
                Some(lookup)
            },
        }
    }

    /// Takes the outcome of question `index`. Outcomes may come back in any
    /// order. Returns whether the outcome was taken: it is not when no
    /// lookup of that question is in flight, and the state then stays as it
    /// was.
    pub fn complete(&mut self, index: usize, outcome: Outcome) -> (taken: bool)
        ensures
            taken == (index < old(self)@.slots.len() && old(self)@.slots[index as int] is InFlight),
            final(self)@ == completed(old(self)@, index as int, outcome_view(outcome)),
    {
        if index >= self.entries.len() {
            return false;
        }
        let flying = match &self.entries[index].slot {
            Slot::InFlight => true,
            _ => false,
        };
        if !flying {
            return false;
        }
        let ghost before = self@.slots;
        let entry = self.entries[index].with_slot(Slot::Done(outcome));
        self.entries.set(index, entry);
        proof {
            assert(self@.slots =~= before.update(
                index as int,
                SlotView::Done(outcome_view(outcome)),
            ));
            assert(self@.lookups =~= old(self)@.lookups);
        }
        true
    }

    /// Ends the dispatch at the deadline: every question that is not
    /// settled is settled as timed out.
    pub fn expire(&mut self)
        ensures
            final(self)@ == expired(old(self)@),
    {
        let ghost before = self@.slots;
        let mut i: usize = 0;
        while i < self.entries.len()
            invariant
                i <= self.entries.len(),
                self.entries.len() == old(self).entries.len(),
                self.max_in_flight == old(self).max_in_flight,
                self.request == old(self).request,
                forall|k: int|
                    0 <= k < self.entries.len() ==> (#[trigger] self.entries[k]).lookup_at(k)
                        == old(self).entries[k].lookup_at(k),
                before == old(self)@.slots,
                before.len() == self.entries.len(),
                forall|k: int| 0 <= k < i ==> (#[trigger] self.entries[k]).slot@ == expired_slot(before[k]),
                forall|k: int| i <= k < self.entries.len() ==> (#[trigger] self.entries[k]).slot@ == before[k],
            decreases self.entries.len() - i,
        {
            let settled = match &self.entries[i].slot {
                Slot::Done(_) => true,
                _ => false,
            };
            if !settled {
                let entry = self.entries[i].with_slot(Slot::Done(Err(ResolveError::Timeout)));
                self.entries.set(i, entry);
            }
            i = i + 1;
        }
        proof {
            assert(self@.slots =~= expired(old(self)@).slots);
            assert(self@.lookups =~= old(self)@.lookups);
        }
    }

    /// Whether every question is settled.
    pub fn is_settled(&self) -> (b: bool)
        ensures
            b == all_settled(self@.slots),
    {
        let mut i: usize = 0;
        while i < self.entries.len()
            invariant
                i <= self.entries.len(),
                forall|k: int| 0 <= k < i ==> (#[trigger] self@.slots[k]) is Done,
            decreases self.entries.len() - i,
        {
            assert(self@.slots[i as int] == self.entries[i as int].slot@);
            match &self.entries[i].slot {
                Slot::Done(_) => {},
                _ => {
                    return false;
                },
            }
            i = i + 1;
        }
        true
    }

    /// The outcome of every question, by index. A question that is not
    /// settled reports a timeout.
    pub fn outcomes(&self) -> (found: Vec<Outcome>)
        ensures
            outcomes_view(found@) == outcomes_of(self@),
    {
        let mut found: Vec<Outcome> = Vec::new();
        let mut i: usize = 0;
        while i < self.entries.len()
            invariant
                i <= self.entries.len(),
                found.len() == i,
                forall|k: int|
                    0 <= k < i ==> outcome_view(#[trigger] found[k]) == slot_outcome(
                        self.entries[k].slot@,
                    ),
            decreases self.entries.len() - i,
        {
            let outcome: Outcome = match &self.entries[i].slot {
                Slot::Done(Ok(records)) => Ok(copy_records(records)),
                Slot::Done(Err(e)) => Err(*e),
                _ => Err(ResolveError::Timeout),
            };
            found.push(outcome);
            i = i + 1;
        }
        assert(outcomes_view(found@) =~= outcomes_of(self@));
        found
    }

    /// The reply to the request as the dispatch stands, of no more than
    /// `limit` octets on the wire: questions that are not settled
    /// contribute nothing, as those that failed.
    pub fn respond(&self, limit: usize) -> (r: Result<Reply, EncodeError>)
        ensures
            assemble_result_view(r) == assembled(self@.request, outcomes_of(self@), limit as nat),
            r matches Ok(reply) ==> reply.octets.len() <= limit,
    {
        let found = self.outcomes();
        assemble(&self.request, &found, limit)
    }
}

} // verus!
