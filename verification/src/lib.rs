//! A pari-mutuel prediction-market round engine with a companion fungible
//! token ledger.
//!
//! Users stake token amounts on one of five outcome bins of a time-boxed
//! round. The outcome is fixed in advance by a hash commitment and revealed
//! later; winners split the pool in proportion to their stake in the winning
//! bin, net of a flat fee. The contract state machines here are pure: host
//! concerns (authorization signatures, the ledger clock, event delivery and
//! the actual token custody transfers) are supplied by the caller as plain
//! values and performed on the returned results. Principals — the admin,
//! bettors, token accounts — are opaque 64-bit identifiers the host assigns.

pub mod commitment;
pub mod errors;
pub mod keys;
pub mod laws;
pub mod map_sum;
pub mod market;
pub mod payout;
pub mod round;
pub mod token;

pub use errors::Error;
pub use market::TrafficPulseContract;
pub use round::Round;
pub use token::PulseToken;
