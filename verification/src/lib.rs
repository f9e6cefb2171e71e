//! A personal schedule-keeping library.
//!
//! Events are stored with a canonical UTC timing: every persisted timestamp is
//! an RFC 3339 string with explicit `+00:00` offset.  The modules below hold
//! the temporal-resolution engine: calendar arithmetic, clock times, instants,
//! the relative-day grammars, range building, and display formatting.

pub mod config;
pub mod dates;
pub mod errors;
pub mod events;
pub mod ics;
pub mod instant;
pub mod relative;
pub mod render;
pub mod rfc3339;
pub mod text;
pub mod timing;
pub mod zones;
