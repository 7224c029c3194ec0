use vstd::prelude::*;
use crate::state::TicketingState;

verus! {

/// In every well-formed state — and every operation both requires and
/// re-establishes well-formedness — no event has sold more tickets than it
/// has: a purchase fails with an insufficient-tickets error exactly when one
/// more sale would break this bound (see the purchase operations' contracts).
pub proof fn lemma_tickets_never_oversold(s: TicketingState)
    requires
        s.wf(),
    ensures
        forall|k: u64| #![trigger s.events.spec_get(k)]
            s.events.spec_get(k) matches Some(e) ==> e.tickets_sold <= e.total_tickets,
{
}

/// In every well-formed state no loyalty balance is negative; redemption
/// fails with an insufficient-points error exactly when the requested amount
/// exceeds the balance (see `redeem_points`' contract), so no sequence of
/// awards and redemptions can drive a balance below zero.
pub proof fn lemma_points_never_negative(s: TicketingState)
    requires
        s.wf(),
    ensures
        forall|k: u64| #![trigger s.loyalty.spec_get(k)]
            s.loyalty.spec_get(k) matches Some(l) ==> l.points >= 0,
{
}

/// Users, events and tickets draw their identifiers from the one shared
/// counter, so in every well-formed state no identifier names entities of two
/// different kinds, and within one store each identifier names at most one
/// entry.
pub proof fn lemma_identifiers_unique(s: TicketingState)
    requires
        s.wf(),
    ensures
        forall|k: u64|
            !(#[trigger] s.users.contains_key(k) && #[trigger] s.events.contains_key(k)),
        forall|k: u64|
            !(#[trigger] s.users.contains_key(k) && #[trigger] s.tickets.contains_key(k)),
        forall|k: u64|
            !(#[trigger] s.events.contains_key(k) && #[trigger] s.tickets.contains_key(k)),
        forall|i: int, j: int|
            0 <= i < j < s.users.entries@.len() ==> s.users.entries@[i].0 != s.users.entries@[j].0,
        forall|i: int, j: int|
            0 <= i < j < s.events.entries@.len() ==> s.events.entries@[i].0
                != s.events.entries@[j].0,
        forall|i: int, j: int|
            0 <= i < j < s.tickets.entries@.len() ==> s.tickets.entries@[i].0
                != s.tickets.entries@[j].0,
{
}

} // verus!
