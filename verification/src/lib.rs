//! Leaderboard aggregation and channel synchronization for an Age of Empires IV
//! community ladder.
//!
//! The library holds the verified core of the pipeline: joining external
//! ranking profiles with chat identities, merging alternate accounts owned by
//! one member, ordering the population by global rank, rendering the ranking
//! into bounded message chunks, and deciding which inactive members are due a
//! reminder.  All surrounding I/O (HTTP, chat platform, database) stays
//! outside the library and hands in plain values.

pub mod channel;
pub mod clock;
pub mod localize;
pub mod merge;
pub mod messages;
pub mod numfmt;
pub mod pipeline;
pub mod player;
pub mod profile;
pub mod rank;
pub mod reminder;
pub mod search;
pub mod text;
