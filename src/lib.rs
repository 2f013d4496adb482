//! Sale and redemption of event tickets: finite inventory per event,
//! per-user purchase caps, sale windows, unique ticket codes and a one-way
//! redemption life cycle, all over one owned state.

pub mod catalog;
pub mod codes;
pub mod engine;
pub mod laws;
pub mod ledger;
pub mod system;
pub mod types;

pub use codes::{generate_verification_code, seat_label};
pub use system::{TicketingSystem, UserEventCount};
pub use types::{Event, Purchase, Ticket, TicketingError, UserId, UserProfile, DEFAULT_REPUTATION};
