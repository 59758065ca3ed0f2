//! Application error: a stable kind plus a message for the user.

use vstd::prelude::*;

verus! {

#[derive(Debug, Clone, Copy, PartialEq, Eq, Structural)]
pub enum AppErrorKind {
    Validation,
    Config,
    Io,
    Runtime,
    Engine,
    Platform,
    Window,
    Vision,
    Hotkey,
    Startup,
    Logging,
    System,
    Internal,
}

/// The wire name of each kind.
pub open spec fn kind_name(kind: AppErrorKind) -> Seq<char> {
    match kind {
        AppErrorKind::Validation => "validation"@,
        AppErrorKind::Config => "config"@,
        AppErrorKind::Io => "io"@,
        AppErrorKind::Runtime => "runtime"@,
        AppErrorKind::Engine => "engine"@,
        AppErrorKind::Platform => "platform"@,
        AppErrorKind::Window => "window"@,
        AppErrorKind::Vision => "vision"@,
        AppErrorKind::Hotkey => "hotkey"@,
        AppErrorKind::Startup => "startup"@,
        AppErrorKind::Logging => "logging"@,
        AppErrorKind::System => "system"@,
        AppErrorKind::Internal => "internal"@,
    }
}

impl AppErrorKind {
    /// The name under which the kind is serialized.
    pub fn as_str(self) -> (s: &'static str)
        ensures
            s@ == kind_name(self),
    {
        match self {
            AppErrorKind::Validation => "validation",
            AppErrorKind::Config => "config",
            AppErrorKind::Io => "io",
            AppErrorKind::Runtime => "runtime",
            AppErrorKind::Engine => "engine",
            AppErrorKind::Platform => "platform",
            AppErrorKind::Window => "window",
            AppErrorKind::Vision => "vision",
            AppErrorKind::Hotkey => "hotkey",
            AppErrorKind::Startup => "startup",
            AppErrorKind::Logging => "logging",
            AppErrorKind::System => "system",
            AppErrorKind::Internal => "internal",
        }
    }
}

#[derive(Debug)]
pub struct AppError {
    pub kind: AppErrorKind,
    pub message: String,
}

pub type AppResult<T> = Result<T, AppError>;

impl AppError {
    pub fn new(kind: AppErrorKind, message: String) -> (e: Self)
        ensures
            e.kind == kind,
            e.message@ == message@,
    {
        AppError { kind, message }
    }

    pub fn validation(message: String) -> (e: Self)
        ensures
            e.kind == AppErrorKind::Validation,
            e.message@ == message@,
    {
        Self::new(AppErrorKind::Validation, message)
    }

    pub fn config(message: String) -> (e: Self)
        ensures
            e.kind == AppErrorKind::Config,
            e.message@ == message@,
    {
        Self::new(AppErrorKind::Config, message)
    }

    pub fn io(message: String) -> (e: Self)
        ensures
            e.kind == AppErrorKind::Io,
            e.message@ == message@,
    {
        Self::new(AppErrorKind::Io, message)
    }

    pub fn runtime(message: String) -> (e: Self)
        ensures
            e.kind == AppErrorKind::Runtime,
            e.message@ == message@,
    {
        Self::new(AppErrorKind::Runtime, message)
    }

    pub fn engine(message: String) -> (e: Self)
        ensures
            e.kind == AppErrorKind::Engine,
            e.message@ == message@,
    {
        Self::new(AppErrorKind::Engine, message)
    }

    pub fn platform(message: String) -> (e: Self)
        ensures
            e.kind == AppErrorKind::Platform,
            e.message@ == message@,
    {
        Self::new(AppErrorKind::Platform, message)
    }

    pub fn window(message: String) -> (e: Self)
        ensures
            e.kind == AppErrorKind::Window,
            e.message@ == message@,
    {
        Self::new(AppErrorKind::Window, message)
    }

    pub fn vision(message: String) -> (e: Self)
        ensures
            e.kind == AppErrorKind::Vision,
            e.message@ == message@,
    {
        Self::new(AppErrorKind::Vision, message)
    }

    pub fn hotkey(message: String) -> (e: Self)
        ensures
            e.kind == AppErrorKind::Hotkey,
            e.message@ == message@,
    {
        Self::new(AppErrorKind::Hotkey, message)
    }

    pub fn startup(message: String) -> (e: Self)
        ensures
            e.kind == AppErrorKind::Startup,
            e.message@ == message@,
    {
        Self::new(AppErrorKind::Startup, message)
    }

    pub fn logging(message: String) -> (e: Self)
        ensures
            e.kind == AppErrorKind::Logging,
            e.message@ == message@,
    {
        Self::new(AppErrorKind::Logging, message)
    }

    pub fn system(message: String) -> (e: Self)
        ensures
            e.kind == AppErrorKind::System,
            e.message@ == message@,
    {
        Self::new(AppErrorKind::System, message)
    }

    /// The same error, message copied.
    pub fn duplicate(&self) -> (e: Self)
        ensures
            e.kind == self.kind,
            e.message@ == self.message@,
    {
        AppError { kind: self.kind, message: self.message.clone() }
    }
}

/// A validation error carrying `message`.
pub fn validation_error(message: &str) -> (e: AppError)
    ensures
        e.kind == AppErrorKind::Validation,
        e.message@ == message@,
{
    AppError::validation(String::from_str(message))
}

} // verus!
