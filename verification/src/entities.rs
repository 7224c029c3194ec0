use vstd::prelude::*;

verus! {

/// A registered user; immutable once created.
#[derive(Debug)]
pub struct User {
    pub id: u64,
    pub username: String,
    pub email: String,
}

impl User {
    /// An owned copy equal to `self`.
    pub fn duplicate(&self) -> (r: User)
        ensures
            r == *self,
    {
        User { id: self.id, username: self.username.clone(), email: self.email.clone() }
    }
}

/// An event with a fixed ticket inventory; only `tickets_sold` is ever
/// mutated, and only by the ticket-purchase operations.
#[derive(Debug)]
pub struct Event {
    pub id: u64,
    pub name: String,
    pub location: String,
    pub date: u64,
    pub ticket_price: u64,
    pub total_tickets: u64,
    pub tickets_sold: u64,
}

impl Event {
    /// An owned copy equal to `self`.
    pub fn duplicate(&self) -> (r: Event)
        ensures
            r == *self,
    {
        Event {
            id: self.id,
            name: self.name.clone(),
            location: self.location.clone(),
            date: self.date,
            ticket_price: self.ticket_price,
            total_tickets: self.total_tickets,
            tickets_sold: self.tickets_sold,
        }
    }
}

/// A ticket, created exactly once per successful purchase; immutable
/// thereafter.
#[derive(Debug)]
pub struct Ticket {
    pub id: u64,
    pub event_id: u64,
    pub user_id: u64,
    pub purchase_date: u64,
    pub seat_number: String,
    pub price: u64,
}

impl Ticket {
    /// An owned copy equal to `self`.
    pub fn duplicate(&self) -> (r: Ticket)
        ensures
            r == *self,
    {
        Ticket {
            id: self.id,
            event_id: self.event_id,
            user_id: self.user_id,
            purchase_date: self.purchase_date,
            seat_number: self.seat_number.clone(),
            price: self.price,
        }
    }
}

/// An ordered loyalty rank; derived purely from accumulated points.
#[derive(Debug, Clone, Copy, PartialEq, Eq, Structural)]
pub enum LoyaltyTier {
    Bronze,
    Silver,
    Gold,
    Platinum,
}

/// One immutable entry of a loyalty account's append-only history: points are
/// positive for awards and negative for redemptions.
#[derive(Debug)]
pub struct PointsTransaction {
    pub timestamp: u64,
    pub points: i64,
    pub description: String,
}

impl PointsTransaction {
    /// An owned copy equal to `self`.
    pub fn duplicate(&self) -> (r: PointsTransaction)
        ensures
            r == *self,
    {
        PointsTransaction {
            timestamp: self.timestamp,
            points: self.points,
            description: self.description.clone(),
        }
    }
}

/// A user's loyalty account: a point balance, the tier derived from it, and
/// the full transaction history.
#[derive(Debug)]
pub struct LoyaltyPoints {
    pub user_id: u64,
    pub points: u64,
    pub tier: LoyaltyTier,
    pub points_history: Vec<PointsTransaction>,
}

/// An owned copy of a points history, element for element.
pub fn clone_history(h: &Vec<PointsTransaction>) -> (r: Vec<PointsTransaction>)
    ensures
        r@ == h@,
{
    let mut r: Vec<PointsTransaction> = Vec::new();
    let n = h.len();
    let mut i: usize = 0;
    while i < n
        invariant
            n == h@.len(),
            i <= n,
            r@ == h@.subrange(0, i as int),
        decreases n - i,
    {
        r.push(h[i].duplicate());
        proof {
            assert(r@ =~= h@.subrange(0, i + 1 as int));
        }
        i += 1;
    }
    proof {
        assert(r@ =~= h@);
    }
    r
}

/// Seat categories of an event; a data shape only, not consulted by any
/// purchase validation.
#[derive(Debug)]
pub struct EventSeating {
    pub event_id: u64,
    pub vip_seats: Vec<String>,
    pub premium_seats: Vec<String>,
    pub standard_seats: Vec<String>,
}

/// Input of `register_user`.
#[derive(Debug)]
pub struct RegisterUserPayload {
    pub username: String,
    pub email: String,
}

/// Input of `create_event`.
#[derive(Debug)]
pub struct CreateEventPayload {
    pub name: String,
    pub location: String,
    pub date: u64,
    pub ticket_price: u64,
    pub total_tickets: u64,
}

/// Input of the two ticket-purchase operations.
#[derive(Debug)]
pub struct PurchaseTicketPayload {
    pub event_id: u64,
    pub user_id: u64,
    pub seat_number: String,
}

/// A structured operation error (`Success` is unused by the operations but
/// kept as part of the message taxonomy).
#[derive(Debug)]
pub enum Message {
    Success(String),
    Error(String),
    NotFound(String),
    InvalidPayload(String),
    InsufficientTickets(String),
}

} // verus!
