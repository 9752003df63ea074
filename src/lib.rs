//! Missile guidance and radar detection for a flight-combat simulation,
//! in fixed-point arithmetic: times in milliseconds, lengths in millimetres,
//! dimensionless factors in thousandths.
pub mod coalition;
pub mod command;
pub mod geometry;
pub mod missile;
pub mod radar;
pub mod util;
pub mod vehicle;
