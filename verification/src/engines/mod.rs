//! The decision logic of the input engines: auto-fire, auto-run and combos.

pub mod key_bits;
pub mod autofire;
pub mod fire_schedule;
pub mod autorun;
pub mod combo;
