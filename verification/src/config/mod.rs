//! Configuration: schema, defaults, normalization, validation and migration rules.

pub mod defaults;
pub mod schema;
pub mod validation;
pub mod combo_issues;
pub mod migration;
