//! Verified core of the DNF key assistant: configuration schema, normalization,
//! validation and migration rules, effective-profile computation, and the decision
//! logic of the auto-fire, combo, auto-run and class-detection engines.

pub mod text;
pub mod keyed_map;
pub mod error;
pub mod config;
pub mod domain;
pub mod engines;
pub mod platform;
pub mod vision;
pub mod runtime;
pub mod app_config;
