//! A ticketing-and-loyalty backend: users, events, tickets and per-user
//! loyalty accounts live in identifier-keyed stores inside one explicit
//! application state; every operation validates its input, allocates
//! identifiers from one shared monotonic counter, and updates the stores
//! atomically.

pub mod entities;
pub mod laws;
pub mod loyalty;
pub mod ops;
pub mod pricing;
pub mod state;
pub mod store;

pub use entities::{
    CreateEventPayload, Event, EventSeating, LoyaltyPoints, LoyaltyTier, Message,
    PointsTransaction, PurchaseTicketPayload, RegisterUserPayload, Ticket, User,
};
pub use loyalty::{calculate_points, tier_for_points};
pub use pricing::{apply_loyalty_discount, dynamic_price};
pub use state::TicketingState;
pub use store::EntityStore;
