//! Scheduled game-night announcements for chat guilds: staged and committed
//! configuration, a cron-driven job table, and the composition of the start
//! and end messages.
pub mod cron_expr;
pub mod ids;
pub mod mention;
pub mod model;
pub mod notify;
pub mod scheduler;
pub mod store;
pub mod summary;
pub mod utils;
