use vstd::prelude::*;
use crate::entities::{
    clone_history, CreateEventPayload, Event, LoyaltyPoints, LoyaltyTier, Message,
    PointsTransaction, PurchaseTicketPayload, RegisterUserPayload, Ticket, User,
};
use crate::loyalty::{calculate_points, spec_calculate_points, spec_tier_for, tier_for_points};
use crate::pricing::{apply_loyalty_discount, dynamic_price, spec_apply_discount, spec_dynamic_price};
use crate::state::TicketingState;

verus! {

impl TicketingState {
    /// One update step keeps the state invariant: the counter never goes
    /// down; a user, event or ticket store changes only at a key that is
    /// fresh (above the old counter) while the other two stores keep that
    /// key, except that an event may also be updated in place; whatever is
    /// newly stored is itself valid; and no event ever disappears.
    pub proof fn lemma_wf_frame(pre: TicketingState, post: TicketingState)
        requires
            pre.wf(),
            post.counter >= pre.counter,
            post.users.wf(),
            post.events.wf(),
            post.tickets.wf(),
            post.loyalty.wf(),
            post.seating.wf(),
            forall|k: u64| #![trigger post.users.spec_get(k)]
                post.users.spec_get(k) == pre.users.spec_get(k) || (k > pre.counter && k
                    <= post.counter && (post.users.spec_get(k) matches Some(u) && u.id == k)
                    && post.events.spec_get(k) == pre.events.spec_get(k)
                    && post.tickets.spec_get(k) == pre.tickets.spec_get(k)),
            forall|k: u64| #![trigger post.events.spec_get(k)]
                post.events.spec_get(k) == pre.events.spec_get(k) || ((
                post.events.spec_get(k) matches Some(e) && e.id == k && 1 <= e.total_tickets
                    && e.tickets_sold <= e.total_tickets) && 1 <= k && k <= post.counter && (
                pre.events.contains_key(k) || (k > pre.counter && post.users.spec_get(k)
                    == pre.users.spec_get(k) && post.tickets.spec_get(k) == pre.tickets.spec_get(
                    k,
                )))),
            forall|k: u64| #![trigger post.tickets.spec_get(k)]
                post.tickets.spec_get(k) == pre.tickets.spec_get(k) || (k > pre.counter && k
                    <= post.counter && (post.tickets.spec_get(k) matches Some(t) && t.id == k
                    && post.events.contains_key(t.event_id)) && post.users.spec_get(k)
                    == pre.users.spec_get(k) && post.events.spec_get(k) == pre.events.spec_get(
                    k,
                )),
            forall|k: u64| #![trigger post.loyalty.spec_get(k)]
                post.loyalty.spec_get(k) == pre.loyalty.spec_get(k) || (
                post.loyalty.spec_get(k) matches Some(l) && l.user_id == k),
            forall|k: u64|
                pre.events.contains_key(k) ==> #[trigger] post.events.contains_key(k),
        ensures
            post.wf(),
    {
        assert forall|k: u64| #![trigger post.users.spec_get(k)]
            post.users.spec_get(k) is Some implies 1 <= k && k <= post.counter
            && post.users.spec_get(k)->Some_0.id == k by {
            if post.users.spec_get(k) == pre.users.spec_get(k) {
                assert(pre.users.spec_get(k) is Some);
            }
        }
        assert forall|k: u64| #![trigger post.events.spec_get(k)]
            post.events.spec_get(k) is Some implies ({
            let e = post.events.spec_get(k)->Some_0;
            1 <= k && k <= post.counter && e.id == k && 1 <= e.total_tickets
                && e.tickets_sold <= e.total_tickets
        }) by {
            if post.events.spec_get(k) == pre.events.spec_get(k) {
                assert(pre.events.spec_get(k) is Some);
            }
        }
        assert forall|k: u64| #![trigger post.tickets.spec_get(k)]
            post.tickets.spec_get(k) is Some implies ({
            let t = post.tickets.spec_get(k)->Some_0;
            1 <= k && k <= post.counter && t.id == k && post.events.contains_key(t.event_id)
        }) by {
            let t = post.tickets.spec_get(k)->Some_0;
            if post.tickets.spec_get(k) == pre.tickets.spec_get(k) {
                assert(pre.tickets.spec_get(k) is Some);
                assert(pre.events.contains_key(t.event_id));
            }
        }
        assert forall|k: u64| #![trigger post.loyalty.spec_get(k)]
            post.loyalty.spec_get(k) is Some implies post.loyalty.spec_get(k)->Some_0.user_id
            == k by {
            if post.loyalty.spec_get(k) == pre.loyalty.spec_get(k) {
                assert(pre.loyalty.spec_get(k) is Some);
            }
        }
        assert forall|k: u64|
            !(#[trigger] post.users.contains_key(k)
                && #[trigger] post.events.contains_key(k)) by {
            if post.users.contains_key(k) && post.events.contains_key(k) {
                assert(post.users.spec_get(k) is Some);
                assert(post.events.spec_get(k) is Some);
                if post.users.spec_get(k) == pre.users.spec_get(k) {
                    assert(pre.users.contains_key(k));
                    assert(k <= pre.counter);
                    if post.events.spec_get(k) != pre.events.spec_get(k) {
                        assert(pre.events.contains_key(k));
                    } else {
                        assert(pre.events.contains_key(k));
                    }
                } else {
                    assert(post.events.spec_get(k) == pre.events.spec_get(k));
                    assert(pre.events.contains_key(k));
                    assert(k <= pre.counter);
                }
            }
        }
        assert forall|k: u64|
            !(#[trigger] post.users.contains_key(k)
                && #[trigger] post.tickets.contains_key(k)) by {
            if post.users.contains_key(k) && post.tickets.contains_key(k) {
                assert(post.users.spec_get(k) is Some);
                assert(post.tickets.spec_get(k) is Some);
                if post.users.spec_get(k) == pre.users.spec_get(k) {
                    assert(pre.users.contains_key(k));
                    assert(k <= pre.counter);
                    assert(post.tickets.spec_get(k) == pre.tickets.spec_get(k));
                    assert(pre.tickets.contains_key(k));
                } else {
                    assert(post.tickets.spec_get(k) == pre.tickets.spec_get(k));
                    assert(pre.tickets.contains_key(k));
                    assert(k <= pre.counter);
                }
            }
        }
        assert forall|k: u64|
            !(#[trigger] post.events.contains_key(k)
                && #[trigger] post.tickets.contains_key(k)) by {
            if post.events.contains_key(k) && post.tickets.contains_key(k) {
                assert(post.events.spec_get(k) is Some);
                assert(post.tickets.spec_get(k) is Some);
                if post.tickets.spec_get(k) == pre.tickets.spec_get(k) {
                    assert(pre.tickets.contains_key(k));
                    assert(k <= pre.counter);
                    if post.events.spec_get(k) == pre.events.spec_get(k) {
                        assert(pre.events.contains_key(k));
                    } else {
                        assert(pre.events.contains_key(k));
                    }
                } else {
                    assert(post.events.spec_get(k) == pre.events.spec_get(k));
                    assert(pre.events.contains_key(k));
                    assert(k <= pre.counter);
                }
            }
        }
    }

    /// Registers a user: rejects an empty username or email as an invalid
    /// payload, otherwise allocates the next identifier, stores the user
    /// under it and returns the stored record.
    pub fn register_user(&mut self, payload: RegisterUserPayload) -> (result: Result<
        User,
        Message,
    >)
        requires
            old(self).wf(),
            old(self).counter < u64::MAX,
        ensures
            final(self).wf(),
            result is Err <==> (payload.username@.len() == 0 || payload.email@.len() == 0),
            result matches Err(m) ==> m is InvalidPayload && *final(self) == *old(self),
            result matches Ok(u) ==> {
                &&& u.id == old(self).counter + 1
                &&& final(self).counter == old(self).counter + 1
                &&& u.username == payload.username
                &&& u.email == payload.email
                &&& !old(self).users.contains_key(u.id)
                &&& final(self).users.spec_get(u.id) == Some(u)
                &&& forall|k: u64|
                    k != u.id ==> final(self).users.spec_get(k) == old(self).users.spec_get(k)
                &&& final(self).users.entries@.len() == old(self).users.entries@.len() + 1
                &&& final(self).events == old(self).events
                &&& final(self).tickets == old(self).tickets
                &&& final(self).loyalty == old(self).loyalty
                &&& final(self).seating == old(self).seating
            },
    {
        if payload.username.as_str().unicode_len() == 0 || payload.email.as_str().unicode_len()
            == 0 {
            return Err(Message::InvalidPayload(String::from_str("Missing required fields")));
        }
        let ghost s0 = *self;
        let user_id = self.next_id();
        proof {
            s0.lemma_fresh_identifier(user_id);
        }
        let user = User { id: user_id, username: payload.username, email: payload.email };
        let stored = user.duplicate();
        self.users.insert(user_id, stored);
        proof {
            Self::lemma_wf_frame(s0, *self);
        }
        Ok(user)
    }

    /// Creates an event: rejects an empty name or location, or a zero date,
    /// price or ticket count, as an invalid payload; otherwise allocates the
    /// next identifier and stores the event with nothing sold yet.
    pub fn create_event(&mut self, payload: CreateEventPayload) -> (result: Result<
        Event,
        Message,
    >)
        requires
            old(self).wf(),
            old(self).counter < u64::MAX,
        ensures
            final(self).wf(),
            result is Err <==> (payload.name@.len() == 0 || payload.location@.len() == 0
                || payload.date == 0 || payload.ticket_price == 0 || payload.total_tickets == 0),
            result matches Err(m) ==> m is InvalidPayload && *final(self) == *old(self),
            result matches Ok(e) ==> {
                &&& e.id == old(self).counter + 1
                &&& final(self).counter == old(self).counter + 1
                &&& e.name == payload.name
                &&& e.location == payload.location
                &&& e.date == payload.date
                &&& e.ticket_price == payload.ticket_price
                &&& e.total_tickets == payload.total_tickets
                &&& e.tickets_sold == 0
                &&& !old(self).events.contains_key(e.id)
                &&& final(self).events.spec_get(e.id) == Some(e)
                &&& forall|k: u64|
                    k != e.id ==> final(self).events.spec_get(k) == old(self).events.spec_get(k)
                &&& final(self).events.entries@.len() == old(self).events.entries@.len() + 1
                &&& final(self).users == old(self).users
                &&& final(self).tickets == old(self).tickets
                &&& final(self).loyalty == old(self).loyalty
                &&& final(self).seating == old(self).seating
            },
    {
        if payload.name.as_str().unicode_len() == 0 || payload.location.as_str().unicode_len()
            == 0 || payload.date == 0 || payload.ticket_price == 0 || payload.total_tickets == 0 {
            return Err(Message::InvalidPayload(String::from_str("Missing required fields")));
        }
        let ghost s0 = *self;
        let event_id = self.next_id();
        proof {
            s0.lemma_fresh_identifier(event_id);
        }
        let event = Event {
            id: event_id,
            name: payload.name,
            location: payload.location,
            date: payload.date,
            ticket_price: payload.ticket_price,
            total_tickets: payload.total_tickets,
            tickets_sold: 0,
        };
        let stored = event.duplicate();
        self.events.insert(event_id, stored);
        proof {
            assert forall|k: u64| s0.events.contains_key(k) implies #[trigger] self.events.contains_key(k) by {
                assert(s0.events.spec_get(k) is Some);
                if k != event_id {
                    assert(self.events.spec_get(k) == s0.events.spec_get(k));
                }
                assert(self.events.spec_get(k) is Some);
            }
            Self::lemma_wf_frame(s0, *self);
        }
        Ok(event)
    }

    /// Looks an event up by identifier; `NotFound` if there is none.
    pub fn get_event_details(&self, event_id: u64) -> (result: Result<Event, Message>)
        requires
            self.wf(),
        ensures
            result matches Ok(e) ==> self.events.spec_get(event_id) == Some(e),
            result is Err <==> self.events.spec_get(event_id) is None,
            result matches Err(m) ==> m is NotFound,
    {
        match self.events.get(event_id) {
            Some(e) => Ok(e.duplicate()),
            None => Err(Message::NotFound(String::from_str("Event not found"))),
        }
    }
}


/// The events of `s` whose location reads `loc`, in their order in `s`.
pub open spec fn filter_by_location(s: Seq<Event>, loc: Seq<char>) -> Seq<Event>
    decreases s.len(),
{
    if s.len() == 0 {
        Seq::empty()
    } else {
        let rest = filter_by_location(s.drop_last(), loc);
        if s.last().location@ == loc {
            rest.push(s.last())
        } else {
            rest
        }
    }
}

/// The tickets of `s` that belong to `user_id`, in their order in `s`.
pub open spec fn filter_by_user(s: Seq<Ticket>, user_id: u64) -> Seq<Ticket>
    decreases s.len(),
{
    if s.len() == 0 {
        Seq::empty()
    } else {
        let rest = filter_by_user(s.drop_last(), user_id);
        if s.last().user_id == user_id {
            rest.push(s.last())
        } else {
            rest
        }
    }
}

impl TicketingState {
    /// All stored events, in ascending identifier order.
    pub open spec fn stored_events(self) -> Seq<Event> {
        self.events.entries@.map_values(|p: (u64, Event)| p.1)
    }

    /// All stored tickets, in ascending identifier order.
    pub open spec fn stored_tickets(self) -> Seq<Ticket> {
        self.tickets.entries@.map_values(|p: (u64, Ticket)| p.1)
    }

    /// Sells one ticket of an event at its flat price: rejects an empty seat
    /// number as an invalid payload, a missing event as not found, and a
    /// sold-out event (as many sold as there are tickets) as insufficient;
    /// otherwise allocates the next identifier, stores the ticket, and
    /// increments the event's sold count. The check and the increment happen
    /// in one atomic operation, so the sold count never exceeds the total.
    pub fn purchase_ticket(&mut self, payload: PurchaseTicketPayload, now: u64) -> (result:
        Result<Ticket, Message>)
        requires
            old(self).wf(),
            old(self).counter < u64::MAX,
        ensures
            final(self).wf(),
            result is Err ==> *final(self) == *old(self),
            payload.seat_number@.len() == 0 ==> (result matches Err(m) && m is InvalidPayload),
            payload.seat_number@.len() > 0 && old(self).events.spec_get(payload.event_id)
                is None ==> (result matches Err(m) && m is NotFound),
            payload.seat_number@.len() > 0 && (old(self).events.spec_get(payload.event_id)
                matches Some(e) && e.tickets_sold >= e.total_tickets) ==> (result matches Err(m)
                && m is InsufficientTickets),
            result is Ok <==> (payload.seat_number@.len() > 0 && (old(self).events.spec_get(
                payload.event_id,
            ) matches Some(e) && e.tickets_sold < e.total_tickets)),
            result matches Ok(t) ==> ({
                let e = old(self).events.spec_get(payload.event_id)->Some_0;
                &&& t.id == old(self).counter + 1
                &&& final(self).counter == old(self).counter + 1
                &&& t.event_id == payload.event_id
                &&& t.user_id == payload.user_id
                &&& t.purchase_date == now
                &&& t.seat_number == payload.seat_number
                &&& t.price == e.ticket_price
                &&& final(self).events.spec_get(payload.event_id) == Some(
                    Event { tickets_sold: (e.tickets_sold + 1) as u64, ..e },
                )
                &&& forall|k: u64|
                    k != payload.event_id ==> final(self).events.spec_get(k) == old(
                        self,
                    ).events.spec_get(k)
                &&& !old(self).tickets.contains_key(t.id)
                &&& final(self).tickets.spec_get(t.id) == Some(t)
                &&& forall|k: u64|
                    k != t.id ==> final(self).tickets.spec_get(k) == old(self).tickets.spec_get(k)
                &&& final(self).tickets.entries@.len() == old(self).tickets.entries@.len() + 1
                &&& final(self).users == old(self).users
                &&& final(self).loyalty == old(self).loyalty
                &&& final(self).seating == old(self).seating
            }),
    {
        if payload.seat_number.as_str().unicode_len() == 0 {
            return Err(Message::InvalidPayload(String::from_str("Seat number is required")));
        }
        let ev = match self.events.get(payload.event_id) {
            Some(e) => e.duplicate(),
            None => {
                return Err(Message::NotFound(String::from_str("Event not found")));
            },
        };
        if ev.tickets_sold >= ev.total_tickets {
            return Err(Message::InsufficientTickets(String::from_str("No tickets available")));
        }
        let ghost s0 = *self;
        let ticket_id = self.next_id();
        proof {
            s0.lemma_fresh_identifier(ticket_id);
        }
        let ticket = Ticket {
            id: ticket_id,
            event_id: payload.event_id,
            user_id: payload.user_id,
            purchase_date: now,
            seat_number: payload.seat_number,
            price: ev.ticket_price,
        };
        let mut updated = ev;
        updated.tickets_sold = updated.tickets_sold + 1;
        self.events.insert(payload.event_id, updated);
        let stored = ticket.duplicate();
        self.tickets.insert(ticket_id, stored);
        proof {
            assert(payload.event_id <= s0.counter);
            assert forall|k: u64| s0.events.contains_key(k) implies #[trigger] self.events.contains_key(k) by {
                assert(s0.events.spec_get(k) is Some);
                if k != payload.event_id {
                    assert(self.events.spec_get(k) == s0.events.spec_get(k));
                }
                assert(self.events.spec_get(k) is Some);
            }
            assert(self.events.contains_key(ticket.event_id));
            Self::lemma_wf_frame(s0, *self);
        }
        Ok(ticket)
    }

    /// All events, in ascending identifier order.
    pub fn list_all_events(&self) -> (events: Vec<Event>)
        requires
            self.wf(),
        ensures
            events@ == self.stored_events(),
            events@.len() == self.events.entries@.len(),
            forall|i: int| 0 <= i < events@.len() ==> events@[i] == self.events.entries@[i].1,
            forall|i: int, j: int|
                0 <= i < j < events@.len() ==> events@[i].id < events@[j].id,
    {
        let mut out: Vec<Event> = Vec::new();
        let n = self.events.len();
        let mut i: usize = 0;
        while i < n
            invariant
                n == self.events.entries@.len(),
                i <= n,
                out@.len() == i,
                forall|j: int| 0 <= j < i ==> out@[j] == self.events.entries@[j].1,
            decreases n - i,
        {
            out.push(self.events.entries[i].1.duplicate());
            i += 1;
        }
        proof {
            assert(out@ =~= self.stored_events());
            assert forall|a: int, b: int|
                0 <= a < b < out@.len() implies out@[a].id < out@[b].id by {
                self.events.lemma_get_at(a);
                self.events.lemma_get_at(b);
            }
        }
        out
    }

    /// The events whose location reads `location`, in ascending identifier
    /// order.
    pub fn list_events_by_location(&self, location: String) -> (events: Vec<Event>)
        requires
            self.wf(),
        ensures
            events@ == filter_by_location(self.stored_events(), location@),
    {
        let mut out: Vec<Event> = Vec::new();
        let n = self.events.len();
        let mut i: usize = 0;
        proof {
            assert(self.stored_events().take(0) =~= Seq::<Event>::empty());
        }
        while i < n
            invariant
                self.wf(),
                n == self.events.entries@.len(),
                i <= n,
                out@ == filter_by_location(self.stored_events().take(i as int), location@),
            decreases n - i,
        {
            proof {
                let stored = self.stored_events();
                assert(stored.take(i as int + 1).drop_last() =~= stored.take(i as int));
                assert(stored.take(i as int + 1).last() == stored[i as int]);
                assert(stored[i as int] == self.events.entries@[i as int].1);
            }
            if self.events.entries[i].1.location == location {
                out.push(self.events.entries[i].1.duplicate());
            }
            i += 1;
        }
        proof {
            assert(self.stored_events().take(n as int) =~= self.stored_events());
        }
        out
    }

    /// The tickets that belong to `user_id`, in ascending identifier order.
    pub fn list_tickets_for_user(&self, user_id: u64) -> (tickets: Vec<Ticket>)
        requires
            self.wf(),
        ensures
            tickets@ == filter_by_user(self.stored_tickets(), user_id),
    {
        let mut out: Vec<Ticket> = Vec::new();
        let n = self.tickets.len();
        let mut i: usize = 0;
        proof {
            assert(self.stored_tickets().take(0) =~= Seq::<Ticket>::empty());
        }
        while i < n
            invariant
                self.wf(),
                n == self.tickets.entries@.len(),
                i <= n,
                out@ == filter_by_user(self.stored_tickets().take(i as int), user_id),
            decreases n - i,
        {
            proof {
                let stored = self.stored_tickets();
                assert(stored.take(i as int + 1).drop_last() =~= stored.take(i as int));
                assert(stored.take(i as int + 1).last() == stored[i as int]);
                assert(stored[i as int] == self.tickets.entries@[i as int].1);
            }
            if self.tickets.entries[i].1.user_id == user_id {
                out.push(self.tickets.entries[i].1.duplicate());
            }
            i += 1;
        }
        proof {
            assert(self.stored_tickets().take(n as int) =~= self.stored_tickets());
        }
        out
    }
}



impl TicketingState {
    /// The price the given user pays for one ticket of the given event right
    /// now: the demand-scaled price, discounted by the user's current tier if
    /// the user has a loyalty account.
    pub open spec fn spec_final_price(self, event_id: u64, user_id: u64) -> u64
        recommends
            self.events.contains_key(event_id),
    {
        let e = self.events.spec_get(event_id)->Some_0;
        let dp = spec_dynamic_price(e.ticket_price, e.tickets_sold, e.total_tickets);
        match self.spec_tier_of(user_id) {
            Some(t) => spec_apply_discount(dp, t),
            None => dp,
        }
    }

    /// Awards loyalty points for a purchase: the points earned by the amount
    /// are added to the user's balance (a missing account starts as a fresh
    /// zero-point Bronze one), a transaction is appended to the history, and
    /// the tier is recomputed from the new total. Never fails.
    pub fn award_loyalty_points(&mut self, user_id: u64, purchase_amount: u64, now: u64) -> (result:
        Result<LoyaltyPoints, Message>)
        requires
            old(self).wf(),
            old(self).spec_points_of(user_id) + spec_calculate_points(purchase_amount)
                <= u64::MAX,
        ensures
            final(self).wf(),
            result is Ok,
            final(self).spec_points_of(user_id) == old(self).spec_points_of(user_id)
                + spec_calculate_points(purchase_amount),
            final(self).spec_tier_of(user_id) == Some(
                spec_tier_for(final(self).spec_points_of(user_id)),
            ),
            final(self).spec_history_of(user_id).len() == old(self).spec_history_of(
                user_id,
            ).len() + 1,
            final(self).spec_history_of(user_id).drop_last() == old(self).spec_history_of(
                user_id,
            ),
            ({
                let tx = final(self).spec_history_of(user_id).last();
                &&& tx.timestamp == now
                &&& tx.points == spec_calculate_points(purchase_amount) as i64
                &&& tx.description@ == "Points earned from purchase"@
            }),
            forall|k: u64|
                k != user_id ==> final(self).loyalty.spec_get(k) == old(self).loyalty.spec_get(k),
            result matches Ok(acc) ==> {
                &&& acc.user_id == user_id
                &&& acc.points == final(self).spec_points_of(user_id)
                &&& acc.tier == spec_tier_for(acc.points)
                &&& acc.points_history@ == final(self).spec_history_of(user_id)
            },
            final(self).counter == old(self).counter,
            final(self).users == old(self).users,
            final(self).events == old(self).events,
            final(self).tickets == old(self).tickets,
            final(self).seating == old(self).seating,
    {
        let points_earned = calculate_points(purchase_amount);
        let ghost s0 = *self;
        let mut acc = match self.loyalty.get(user_id) {
            Some(l) => LoyaltyPoints {
                user_id,
                points: l.points,
                tier: l.tier,
                points_history: clone_history(&l.points_history),
            },
            None => LoyaltyPoints {
                user_id,
                points: 0,
                tier: LoyaltyTier::Bronze,
                points_history: Vec::new(),
            },
        };
        acc.points = acc.points + points_earned;
        acc.points_history.push(
            PointsTransaction {
                timestamp: now,
                points: points_earned as i64,
                description: String::from_str("Points earned from purchase"),
            },
        );
        acc.tier = tier_for_points(acc.points);
        let stored = LoyaltyPoints {
            user_id,
            points: acc.points,
            tier: acc.tier,
            points_history: clone_history(&acc.points_history),
        };
        self.loyalty.insert(user_id, stored);
        proof {
            assert(self.spec_history_of(user_id).drop_last() =~= s0.spec_history_of(user_id));
            Self::lemma_wf_frame(s0, *self);
        }
        Ok(acc)
    }

    /// Redeems points for a reward: fails with `NotFound` if the user has no
    /// loyalty account, and with an insufficient-points error if the balance
    /// is below the requested amount; otherwise subtracts the amount and
    /// appends a negative transaction. The tier is deliberately not
    /// recomputed, so it may stay above what the lowered balance would earn.
    pub fn redeem_points(&mut self, user_id: u64, points_to_redeem: u64, now: u64) -> (result:
        Result<String, Message>)
        requires
            old(self).wf(),
            points_to_redeem <= i64::MAX as u64,
        ensures
            final(self).wf(),
            result is Err ==> *final(self) == *old(self),
            result is Ok <==> (old(self).loyalty.spec_get(user_id) matches Some(l) && l.points
                >= points_to_redeem),
            old(self).loyalty.spec_get(user_id) is None ==> (result matches Err(m)
                && m is NotFound),
            (old(self).loyalty.spec_get(user_id) matches Some(l) && l.points < points_to_redeem)
                ==> (result matches Err(m) && m is Error),
            result matches Ok(msg) ==> {
                &&& msg@ == "Points successfully redeemed!"@
                &&& final(self).spec_points_of(user_id) == old(self).spec_points_of(user_id)
                    - points_to_redeem
                &&& final(self).spec_tier_of(user_id) == old(self).spec_tier_of(user_id)
                &&& final(self).spec_history_of(user_id).len() == old(self).spec_history_of(
                    user_id,
                ).len() + 1
                &&& final(self).spec_history_of(user_id).drop_last() == old(self).spec_history_of(
                    user_id,
                )
                &&& ({
                    let tx = final(self).spec_history_of(user_id).last();
                    &&& tx.timestamp == now
                    &&& tx.points == -(points_to_redeem as i64)
                    &&& tx.description@ == "Points redemption"@
                })
                &&& forall|k: u64|
                    k != user_id ==> final(self).loyalty.spec_get(k) == old(
                        self,
                    ).loyalty.spec_get(k)
                &&& final(self).counter == old(self).counter
                &&& final(self).users == old(self).users
                &&& final(self).events == old(self).events
                &&& final(self).tickets == old(self).tickets
                &&& final(self).seating == old(self).seating
            },
    {
        let ghost s0 = *self;
        let acc_opt: Option<LoyaltyPoints> = match self.loyalty.get(user_id) {
            Some(l) => Some(
                LoyaltyPoints {
                    user_id,
                    points: l.points,
                    tier: l.tier,
                    points_history: clone_history(&l.points_history),
                },
            ),
            None => None,
        };
        let mut acc = match acc_opt {
            Some(a) => a,
            None => {
                return Err(Message::NotFound(String::from_str("User loyalty account not found")));
            },
        };
        if acc.points < points_to_redeem {
            return Err(Message::Error(String::from_str("Insufficient points")));
        }
        acc.points = acc.points - points_to_redeem;
        acc.points_history.push(
            PointsTransaction {
                timestamp: now,
                points: -(points_to_redeem as i64),
                description: String::from_str("Points redemption"),
            },
        );
        self.loyalty.insert(user_id, acc);
        proof {
            assert(self.spec_history_of(user_id).drop_last() =~= s0.spec_history_of(user_id));
            Self::lemma_wf_frame(s0, *self);
        }
        Ok(String::from_str("Points successfully redeemed!"))
    }

    /// Sells one ticket of an event at the demand-scaled, tier-discounted
    /// price: a missing event is not found, a sold-out event insufficient
    /// (the same existence and inventory semantics as the flat-price
    /// purchase, though without its seat-number validation). On success the
    /// ticket is stored at the final price, the event's sold count rises by
    /// one, and the buyer is awarded loyalty points for the amount paid as a
    /// best-effort side effect.
    pub fn purchase_ticket_with_dynamic_pricing(
        &mut self,
        payload: PurchaseTicketPayload,
        now: u64,
    ) -> (result: Result<Ticket, Message>)
        requires
            old(self).wf(),
            old(self).counter < u64::MAX,
            (old(self).events.spec_get(payload.event_id) matches Some(e) && e.tickets_sold
                < e.total_tickets) ==> old(self).spec_points_of(payload.user_id)
                + spec_calculate_points(
                old(self).spec_final_price(payload.event_id, payload.user_id),
            ) <= u64::MAX,
        ensures
            final(self).wf(),
            result is Err ==> *final(self) == *old(self),
            old(self).events.spec_get(payload.event_id) is None ==> (result matches Err(m)
                && m is NotFound),
            (old(self).events.spec_get(payload.event_id) matches Some(e) && e.tickets_sold
                >= e.total_tickets) ==> (result matches Err(m) && m is InsufficientTickets),
            result is Ok <==> (old(self).events.spec_get(payload.event_id) matches Some(e)
                && e.tickets_sold < e.total_tickets),
            result matches Ok(t) ==> ({
                let e = old(self).events.spec_get(payload.event_id)->Some_0;
                let price = old(self).spec_final_price(payload.event_id, payload.user_id);
                &&& t.id == old(self).counter + 1
                &&& final(self).counter == old(self).counter + 1
                &&& t.event_id == payload.event_id
                &&& t.user_id == payload.user_id
                &&& t.purchase_date == now
                &&& t.seat_number == payload.seat_number
                &&& t.price == price
                &&& final(self).events.spec_get(payload.event_id) == Some(
                    Event { tickets_sold: (e.tickets_sold + 1) as u64, ..e },
                )
                &&& forall|k: u64|
                    k != payload.event_id ==> final(self).events.spec_get(k) == old(
                        self,
                    ).events.spec_get(k)
                &&& !old(self).tickets.contains_key(t.id)
                &&& final(self).tickets.spec_get(t.id) == Some(t)
                &&& forall|k: u64|
                    k != t.id ==> final(self).tickets.spec_get(k) == old(self).tickets.spec_get(k)
                &&& final(self).tickets.entries@.len() == old(self).tickets.entries@.len() + 1
                &&& final(self).spec_points_of(payload.user_id) == old(self).spec_points_of(
                    payload.user_id,
                ) + spec_calculate_points(price)
                &&& final(self).spec_tier_of(payload.user_id) == Some(
                    spec_tier_for(final(self).spec_points_of(payload.user_id)),
                )
                &&& final(self).spec_history_of(payload.user_id).len() == old(
                    self,
                ).spec_history_of(payload.user_id).len() + 1
                &&& final(self).spec_history_of(payload.user_id).drop_last() == old(
                    self,
                ).spec_history_of(payload.user_id)
                &&& forall|k: u64|
                    k != payload.user_id ==> final(self).loyalty.spec_get(k) == old(
                        self,
                    ).loyalty.spec_get(k)
                &&& final(self).users == old(self).users
                &&& final(self).seating == old(self).seating
            }),
    {
        let ev = match self.events.get(payload.event_id) {
            Some(e) => e.duplicate(),
            None => {
                return Err(Message::NotFound(String::from_str("Event not found")));
            },
        };
        if ev.tickets_sold >= ev.total_tickets {
            return Err(Message::InsufficientTickets(String::from_str("No tickets available")));
        }
        assert(ev.total_tickets >= 1);
        let demand_price = dynamic_price(ev.ticket_price, ev.tickets_sold, ev.total_tickets);
        let final_price = match self.loyalty.get(payload.user_id) {
            Some(l) => apply_loyalty_discount(demand_price, l.tier),
            None => demand_price,
        };
        let ghost s0 = *self;
        assert(final_price == s0.spec_final_price(payload.event_id, payload.user_id));
        let ticket_id = self.next_id();
        proof {
            s0.lemma_fresh_identifier(ticket_id);
        }
        let ticket = Ticket {
            id: ticket_id,
            event_id: payload.event_id,
            user_id: payload.user_id,
            purchase_date: now,
            seat_number: payload.seat_number,
            price: final_price,
        };
        let mut updated = ev;
        updated.tickets_sold = updated.tickets_sold + 1;
        self.events.insert(payload.event_id, updated);
        let stored = ticket.duplicate();
        self.tickets.insert(ticket_id, stored);
        proof {
            assert(payload.event_id <= s0.counter);
            assert forall|k: u64| s0.events.contains_key(k) implies #[trigger] self.events.contains_key(k) by {
                assert(s0.events.spec_get(k) is Some);
                if k != payload.event_id {
                    assert(self.events.spec_get(k) == s0.events.spec_get(k));
                }
                assert(self.events.spec_get(k) is Some);
            }
            assert(self.events.contains_key(ticket.event_id));
            Self::lemma_wf_frame(s0, *self);
        }
        let _ = self.award_loyalty_points(payload.user_id, final_price, now);
        Ok(ticket)
    }
}


} // verus!
