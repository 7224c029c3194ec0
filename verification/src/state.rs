use vstd::prelude::*;
use crate::entities::{Event, EventSeating, LoyaltyPoints, LoyaltyTier, PointsTransaction, Ticket, User};
use crate::store::EntityStore;

verus! {

/// The whole application state: one shared identifier counter and the five
/// entity stores. It is constructed once and handed to every operation; each
/// operation is the unit of atomicity.
pub struct TicketingState {
    /// The last identifier handed out; every store key is at most this.
    pub counter: u64,
    pub users: EntityStore<User>,
    pub events: EntityStore<Event>,
    pub tickets: EntityStore<Ticket>,
    pub loyalty: EntityStore<LoyaltyPoints>,
    pub seating: EntityStore<EventSeating>,
}

impl TicketingState {
    /// Every stored user carries its own key as id, drawn from the counter.
    pub open spec fn users_ok(self) -> bool {
        forall|k: u64| #![trigger self.users.spec_get(k)]
            self.users.spec_get(k) matches Some(u) ==> 1 <= k && k <= self.counter && u.id == k
    }

    /// Every stored event carries its own key as id, was created with at
    /// least one ticket, and never sells more tickets than it has.
    pub open spec fn events_ok(self) -> bool {
        forall|k: u64| #![trigger self.events.spec_get(k)]
            self.events.spec_get(k) matches Some(e) ==> 1 <= k && k <= self.counter && e.id == k
                && 1 <= e.total_tickets && e.tickets_sold <= e.total_tickets
    }

    /// Every stored ticket carries its own key as id and references an event
    /// that exists; no operation ever deletes an event, so the reference
    /// stays valid.
    pub open spec fn tickets_ok(self) -> bool {
        forall|k: u64| #![trigger self.tickets.spec_get(k)]
            self.tickets.spec_get(k) matches Some(t) ==> 1 <= k && k <= self.counter && t.id == k
                && self.events.contains_key(t.event_id)
    }

    /// A loyalty account is keyed by the user it belongs to.
    pub open spec fn loyalty_ok(self) -> bool {
        forall|k: u64| #![trigger self.loyalty.spec_get(k)]
            self.loyalty.spec_get(k) matches Some(l) ==> l.user_id == k
    }

    /// Users, events and tickets draw their identifiers from one shared
    /// counter, so no two entities of these kinds ever share an identifier.
    pub open spec fn ids_disjoint(self) -> bool {
        &&& forall|k: u64|
            !(#[trigger] self.users.contains_key(k) && #[trigger] self.events.contains_key(k))
        &&& forall|k: u64|
            !(#[trigger] self.users.contains_key(k) && #[trigger] self.tickets.contains_key(k))
        &&& forall|k: u64|
            !(#[trigger] self.events.contains_key(k) && #[trigger] self.tickets.contains_key(k))
    }

    /// The state invariant: every store is well formed and the cross-store
    /// facts above hold. Every operation preserves it.
    pub open spec fn wf(self) -> bool {
        &&& self.users.wf()
        &&& self.events.wf()
        &&& self.tickets.wf()
        &&& self.loyalty.wf()
        &&& self.seating.wf()
        &&& self.users_ok()
        &&& self.events_ok()
        &&& self.tickets_ok()
        &&& self.loyalty_ok()
        &&& self.ids_disjoint()
    }

    /// The point balance of a user, a missing account counting as zero.
    pub open spec fn spec_points_of(self, user_id: u64) -> u64 {
        match self.loyalty.spec_get(user_id) {
            Some(l) => l.points,
            None => 0,
        }
    }

    /// The tier of a user's account, if the user has one.
    pub open spec fn spec_tier_of(self, user_id: u64) -> Option<LoyaltyTier> {
        match self.loyalty.spec_get(user_id) {
            Some(l) => Some(l.tier),
            None => None,
        }
    }

    /// The transaction history of a user, a missing account counting as
    /// empty.
    pub open spec fn spec_history_of(self, user_id: u64) -> Seq<PointsTransaction> {
        match self.loyalty.spec_get(user_id) {
            Some(l) => l.points_history@,
            None => Seq::empty(),
        }
    }

    /// A fresh, empty state; identifiers will start at 1.
    pub fn new() -> (s: TicketingState)
        ensures
            s.wf(),
            s.counter == 0,
            forall|k: u64| s.users.spec_get(k) is None,
            forall|k: u64| s.events.spec_get(k) is None,
            forall|k: u64| s.tickets.spec_get(k) is None,
            forall|k: u64| s.loyalty.spec_get(k) is None,
            forall|k: u64| s.seating.spec_get(k) is None,
            s.users.entries@.len() == 0,
            s.events.entries@.len() == 0,
            s.tickets.entries@.len() == 0,
            s.loyalty.entries@.len() == 0,
            s.seating.entries@.len() == 0,
    {
        TicketingState {
            counter: 0,
            users: EntityStore::new(),
            events: EntityStore::new(),
            tickets: EntityStore::new(),
            loyalty: EntityStore::new(),
            seating: EntityStore::new(),
        }
    }

    /// The shared identifier allocator: each call returns a value strictly
    /// greater than all previously returned values, starting from 1, and
    /// touches no store.
    pub fn next_id(&mut self) -> (id: u64)
        requires
            old(self).counter < u64::MAX,
        ensures
            id == old(self).counter + 1,
            final(self).counter == old(self).counter + 1,
            final(self).users == old(self).users,
            final(self).events == old(self).events,
            final(self).tickets == old(self).tickets,
            final(self).loyalty == old(self).loyalty,
            final(self).seating == old(self).seating,
    {
        self.counter = self.counter + 1;
        self.counter
    }

    /// A key above the counter is stored nowhere: allocated identifiers are
    /// fresh across all entity kinds.
    pub proof fn lemma_fresh_identifier(self, k: u64)
        requires
            self.wf(),
            k > self.counter,
        ensures
            !self.users.contains_key(k),
            !self.events.contains_key(k),
            !self.tickets.contains_key(k),
    {
        if self.users.contains_key(k) {
            assert(self.users.spec_get(k) is Some);
        }
        if self.events.contains_key(k) {
            assert(self.events.spec_get(k) is Some);
        }
        if self.tickets.contains_key(k) {
            assert(self.tickets.spec_get(k) is Some);
        }
    }
}

} // verus!
