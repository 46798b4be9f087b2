//! Creature data cache and stat-block conversion.
//!
//! The library holds the logic of a fetch-through cache of creature records:
//! the normalizer that maps a provider response onto the canonical record,
//! the cache store with its time-to-live rules, the decisions of the
//! fetch-through read path, the listing and search steps around it, and the
//! converter that derives a tabletop stat block from a record and a level,
//! with its text export. The same store keeps the trainers and their
//! captured creatures.
pub mod text;
pub mod pokemon;
pub mod converter;
pub mod cache;
pub mod fetch;
pub mod listing;
pub mod roster;
pub mod export;
