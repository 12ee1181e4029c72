//! Typed failures surfaced by every operation that touches storage or the
//! platform environment. No operation retries; the caller decides how to
//! report the failure.

use vstd::prelude::*;

verus! {

/// The kind of a failure, one variant per failure class.
#[derive(Clone, Copy, Debug, PartialEq, Eq, Structural)]
pub enum AliasErrorCode {
    /// The settings file could not be read or created.
    ConfigReadError,
    /// The settings text could not be parsed as a structured document.
    ConfigParseError,
    /// The settings document could not be serialized or written back.
    ConfigWriteError,
    /// A generated alias script could not be written.
    ScriptWriteError,
    /// A generated alias script could not be deleted.
    ScriptRemoveError,
    /// The interactive shell is not one with a known profile file.
    UnsupportedShellError,
    /// The host operating system is not supported at all.
    UnsupportedPlatformError,
    /// The activation step (profile edit or environment update) failed.
    ActivationError,
    /// A runtime variable definition was not of the form `key=value`.
    MalformedRuntimeVariable,
}

/// A tagged error carrying a human-readable message.
#[derive(Debug)]
pub struct AliasError {
    pub err: AliasErrorCode,
    pub msg: String,
}

impl AliasError {
    pub fn new(err: AliasErrorCode, msg: String) -> (r: Self)
        ensures
            r.err == err,
            r.msg == msg,
    {
        Self { err, msg }
    }

    /// The human-readable message of this error.
    pub fn message(&self) -> (r: &String)
        ensures
            r == &self.msg,
    {
        &self.msg
    }
}

} // verus!
