//! Ship's bell time keeping: the watch and bell count for a moment of the
//! day, half-hour boundary scheduling across time-zone changes, log
//! configuration, and release packaging rules.

pub mod clock;
pub mod bells;
pub mod schedule;
pub mod logging;
pub mod release;
pub mod text;
