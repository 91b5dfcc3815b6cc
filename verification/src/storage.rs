//! Rules of the persistent store: memory tiers and expiry, the records that
//! are kept, and the dimensions that every row must have.

pub mod db;
pub mod schema;
pub mod tier;

pub use db::Memory;
pub use tier::current_timestamp;
pub use tier::duration_to_expiration;
pub use tier::is_expired;
pub use tier::MemoryTier;
pub use tier::TierConfig;
