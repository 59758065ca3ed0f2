//! Runtime rules: the edits made to the profiles, and how the assistant switches its
//! engines on and off.

pub mod profile_edits;
pub mod assistant;
pub mod settings_save;
