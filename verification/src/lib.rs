//! A verified core for a repository-analysis service and its analyzer
//! utilities: request validation, constant-time authentication, calendar
//! date ranges, bounded-concurrency batch scheduling with a two-pass
//! retry, date-bucketed backfill aggregation, and the pure text rules the
//! analyzer's reports rest on.

pub mod aggregate;
pub mod auth;
pub mod date;
pub mod discover;
pub mod languages;
pub mod plan;
pub mod pool;
pub mod project;
pub mod render_text;
pub mod scheduler;
pub mod score;
pub mod security;
pub mod strings;
pub mod tests_detect;
pub mod validate;
pub mod vibe;

pub use score::grade_from_points;
pub use score::ScoreFactor;
