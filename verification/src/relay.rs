//! One datagram in, one datagram out: what the relay does before the first
//! lookup and after the last.

use vstd::prelude::*;
use crate::assemble::assembled;
use crate::codec::{decode_request, decoded, wire_header, wire_questions};
use crate::codec::{encode_result_view, DecodeError, EncodeError};
use crate::dispatch::{expired, outcomes_of, started, DispatchView, Dispatcher};
use crate::routing::{RoutingPolicy, RuleView};

verus! {

/// The dispatch that a datagram opens, or why it opens none.
pub open spec fn accepted(datagram: Seq<u8>, rules: Seq<RuleView>, max_in_flight: nat) -> Result<
    DispatchView,
    DecodeError,
> {
    match decoded(wire_header(datagram), wire_questions(datagram)) {
        Ok(request) => Ok(started(request, rules, max_in_flight)),
        Err(e) => Err(e),
    }
}

/// The view of what `accept` returns.
pub open spec fn accept_result_view(r: Result<Dispatcher, DecodeError>) -> Result<
    DispatchView,
    DecodeError,
> {
    match r {
        Ok(d) => Ok(d@),
        Err(e) => Err(e),
    }
}

/// The datagram that answers a dispatch as it stands, or why there is none.
pub open spec fn concluded(state: DispatchView, limit: nat) -> Result<Seq<u8>, EncodeError> {
    match assembled(state.request, outcomes_of(state), limit) {
        Ok(reply) => Ok(reply.octets),
        Err(e) => Err(e),
    }
}

/// Reads a request from a datagram and routes its questions. A datagram
/// that is no request opens no dispatch, and is owed no reply.
pub fn accept(datagram: &[u8], policy: &RoutingPolicy, max_in_flight: usize) -> (r: Result<
    Dispatcher,
    DecodeError,
>)
    ensures
        accept_result_view(r) == accepted(datagram@, policy@, max_in_flight as nat),
{
    match decode_request(datagram) {
        Ok(request) => Ok(Dispatcher::start(&request, policy, max_in_flight)),
        Err(e) => Err(e),
    }
}

/// Ends a dispatch and writes its reply, of no more than `limit` octets.
/// Questions that are not settled by now have timed out.
pub fn conclude(dispatcher: &mut Dispatcher, limit: usize) -> (r: Result<Vec<u8>, EncodeError>)
    ensures
        final(dispatcher)@ == expired(old(dispatcher)@),
        encode_result_view(r) == concluded(old(dispatcher)@, limit as nat),
        r matches Ok(octets) ==> octets.len() <= limit,
{
    dispatcher.expire();
    proof {
        assert(outcomes_of(expired(old(dispatcher)@)) =~= outcomes_of(old(dispatcher)@));
    }
    match dispatcher.respond(limit) {
        Ok(reply) => Ok(reply.octets),
        Err(e) => Err(e),
    }
}

} // verus!
