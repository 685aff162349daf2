//! Error taxonomy of the engine.
//!
//! Fatal setup failures abort at startup; per-event dispatch failures abandon
//! one event's pipeline and the watch loop continues.

use vstd::prelude::*;

verus! {

/// Fatal at startup: the engine has no target to watch.
#[derive(PartialEq, Eq, Structural, Debug)]
pub enum SetupError {
    /// No target argument was given and no working directory is available.
    NoTarget,
}

/// Non-fatal, per-event: that event's pipeline is abandoned.
#[derive(PartialEq, Eq, Structural, Debug)]
pub enum DispatchError {
    /// An output path cannot be derived: the changed path has no file-name
    /// stem to attach the new extension to.
    Naming,
}

impl SetupError {
    /// A short diagnostic text for the caller to log.
    pub fn message(&self) -> (r: &'static str)
        ensures
            r@ == "no target and no working directory"@,
    {
        "no target and no working directory"
    }
}

impl DispatchError {
    /// A short diagnostic text for the caller to log.
    pub fn message(&self) -> (r: &'static str)
        ensures
            r@ == "cannot derive an output file name"@,
    {
        "cannot derive an output file name"
    }
}

} // verus!
