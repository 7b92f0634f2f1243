//! Rotating savings groups ("Ajo"): a registry of global settings and a
//! per-group state machine for admission, round-based contributions, payout
//! rotation and majority-vote closure.
//!
//! Every operation is a verified transition: it either fails with a named
//! error and leaves all state untouched, or commits the new state and reports
//! the amount that the caller's escrow service must move together with it.
//! Time is read by the caller and handed in as a clock reading in seconds;
//! intervals are counted in whole days.

pub mod error;
pub mod group;
pub mod identity;
pub mod laws;
pub mod registry;
pub mod rules;
pub mod state;

pub use error::KooPaaError;
pub use group::{claim_round, close_ajo_group, contribute, create_ajo_group, join_ajo_group, payout};
pub use identity::Identity;
pub use registry::initialize;
pub use state::{AjoGroup, AjoParticipant, GlobalState};
