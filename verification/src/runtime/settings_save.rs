//! Saving the settings: the file is written, then the system side effects of the change
//! are applied (launch at startup, the log level). When the side effects fail, the
//! previous settings are written back and their side effects restored, and the save
//! reports the side effects' error. The writes and the side effects are the caller's
//! work; this module decides what comes next.

use crate::config::schema::{LogLevelSetting, SettingsConfig};
use crate::error::{AppError, AppResult};
use vstd::prelude::*;

verus! {

/// The system side effects of moving from one settings value to another: the new
/// launch-at-startup switch when it changed, and the new log level when it changed.
#[derive(Debug, Clone, Copy, PartialEq, Eq, Structural)]
pub struct SettingsSideEffects {
    pub launch_at_startup: Option<bool>,
    pub log_level: Option<LogLevelSetting>,
}

pub open spec fn side_effects_of(previous: SettingsConfig, next: SettingsConfig) -> SettingsSideEffects {
    SettingsSideEffects {
        launch_at_startup: if previous.launch_at_startup != next.launch_at_startup {
            Some(next.launch_at_startup)
        } else {
            None
        },
        log_level: if previous.log_level != next.log_level {
            Some(next.log_level)
        } else {
            None
        },
    }
}

/// The side effects of moving from `previous` to `next`.
pub fn side_effects_between(previous: &SettingsConfig, next: &SettingsConfig) -> (r: SettingsSideEffects)
    ensures
        r == side_effects_of(*previous, *next),
{
    SettingsSideEffects {
        launch_at_startup: if previous.launch_at_startup != next.launch_at_startup {
            Some(next.launch_at_startup)
        } else {
            None
        },
        log_level: if previous.log_level != next.log_level {
            Some(next.log_level)
        } else {
            None
        },
    }
}

/// Where a save stands.
#[derive(Debug)]
pub enum SettingsSaveState {
    /// The new settings are being written; `previous` is what was stored before.
    Writing { previous: SettingsConfig },
    /// The new settings are stored as `saved`; their side effects are being applied.
    Applying { previous: SettingsConfig, saved: SettingsConfig },
    /// The side effects failed with `error`; `previous` is being written back.
    RestoringFile { previous: SettingsConfig, saved: SettingsConfig, error: AppError },
    /// The side effects of going back from `saved` to `previous` are being applied.
    RestoringEffects { error: AppError },
    /// The save has finished.
    Done,
}

/// What the caller does next.
#[derive(Debug)]
pub enum SettingsSaveAction {
    /// Write these settings to the settings file.
    Write(SettingsConfig),
    /// Apply the side effects of moving from `from` to `to`.
    Apply { from: SettingsConfig, to: SettingsConfig },
    /// The save is over, with this result.
    Finish(AppResult<()>),
}

/// How the last action went.
#[derive(Debug)]
pub enum SettingsSaveEvent {
    /// It succeeded; the settings now stored are these.
    Succeeded(SettingsConfig),
    /// It failed with this error.
    Failed(AppError),
}

/// A save of `requested` over the stored `previous` settings starts by writing
/// `requested`.
pub fn begin_settings_save(previous: SettingsConfig, requested: SettingsConfig) -> (r: (
    SettingsSaveState,
    SettingsSaveAction,
))
    ensures
        r.0 matches SettingsSaveState::Writing { previous: p } && p == previous,
        r.1 matches SettingsSaveAction::Write(s) && s == requested,
{
    (SettingsSaveState::Writing { previous }, SettingsSaveAction::Write(requested))
}

/// The next state and action of a save after `event`.
/// - A failed write ends the save with the write's error.
/// - A successful write applies the side effects from the previous to the stored
///   settings; when they succeed, the save ends well.
/// - When they fail, the previous settings are written back, then the side effects from
///   the stored back to the previous settings are applied, whatever these two give, and
///   the save ends with the side effects' first error.
pub fn settings_save_step(state: SettingsSaveState, event: SettingsSaveEvent) -> (r: (
    SettingsSaveState,
    SettingsSaveAction,
))
    requires
        !(state is Done),
    ensures
        match (state, event) {
            (SettingsSaveState::Writing { .. }, SettingsSaveEvent::Failed(e)) => r.0 is Done && (r.1 matches SettingsSaveAction::Finish(
                Err(f),
            ) && f.kind == e.kind && f.message@ == e.message@),
            (SettingsSaveState::Writing { previous }, SettingsSaveEvent::Succeeded(saved)) => (r.0 matches SettingsSaveState::Applying {
                previous: p,
                saved: s,
            } && p == previous && s == saved) && (r.1 matches SettingsSaveAction::Apply { from, to } && from
                == previous && to == saved),
            (SettingsSaveState::Applying { .. }, SettingsSaveEvent::Succeeded(_)) => r.0 is Done && (r.1 matches SettingsSaveAction::Finish(Ok(_))),
            (SettingsSaveState::Applying { previous, saved }, SettingsSaveEvent::Failed(e)) => (r.0 matches SettingsSaveState::RestoringFile {
                previous: p,
                saved: s,
                error: f,
            } && p == previous && s == saved && f.kind == e.kind && f.message@ == e.message@) && (r.1 matches SettingsSaveAction::Write(
                w,
            ) && w == previous),
            (SettingsSaveState::RestoringFile { previous, saved, error }, _) => (r.0 matches SettingsSaveState::RestoringEffects {
                error: f,
            } && f.kind == error.kind && f.message@ == error.message@) && (r.1 matches SettingsSaveAction::Apply {
                from,
                to,
            } && from == saved && to == previous),
            (SettingsSaveState::RestoringEffects { error }, _) => r.0 is Done && (r.1 matches SettingsSaveAction::Finish(
                Err(f),
            ) && f.kind == error.kind && f.message@ == error.message@),
            (SettingsSaveState::Done, _) => false,
        },
{
    match state {
        SettingsSaveState::Writing { previous } => match event {
            SettingsSaveEvent::Failed(e) => (SettingsSaveState::Done, SettingsSaveAction::Finish(Err(e))),
            SettingsSaveEvent::Succeeded(saved) => (
                SettingsSaveState::Applying { previous, saved },
                SettingsSaveAction::Apply { from: previous, to: saved },
            ),
        },
        SettingsSaveState::Applying { previous, saved } => match event {
            SettingsSaveEvent::Succeeded(_) => (SettingsSaveState::Done, SettingsSaveAction::Finish(Ok(()))),
            SettingsSaveEvent::Failed(e) => (
                SettingsSaveState::RestoringFile { previous, saved, error: e },
                SettingsSaveAction::Write(previous),
            ),
        },
        SettingsSaveState::RestoringFile { previous, saved, error } => (
            SettingsSaveState::RestoringEffects { error },
            SettingsSaveAction::Apply { from: saved, to: previous },
        ),
        SettingsSaveState::RestoringEffects { error } => (SettingsSaveState::Done, SettingsSaveAction::Finish(Err(error))),
        SettingsSaveState::Done => (SettingsSaveState::Done, SettingsSaveAction::Finish(Ok(()))),
    }
}

} // verus!
