//! Configuration of the engine, as handed in from the command line.

use vstd::prelude::*;
use vstd::string::StringExecFns;

use crate::errors::SetupError;

verus! {

/// What a run of the engine was asked to do.
#[derive(Debug)]
pub struct Args {
    /// The file or directory watched for changes.
    pub target: String,
    /// Show the rendered image after a pipeline completes.
    pub display: bool,
    /// Surface subprocess output and internal diagnostics.
    pub verbose: bool,
    /// Suppress the normal per-step log lines.
    pub quiet: bool,
}

/// `true` or `false`, as printed.
pub open spec fn bool_view(b: bool) -> Seq<char> {
    if b {
        "true"@
    } else {
        "false"@
    }
}

/// The diagnostic line describing a configuration.
pub open spec fn args_view(a: Args) -> Seq<char> {
    "Arguments: target='"@ + a.target@ + "' display="@ + bool_view(a.display) + " verbose="@
        + bool_view(a.verbose) + " quiet="@ + bool_view(a.quiet)
}

/// `true` or `false`, as printed.
pub fn bool_str(b: bool) -> (r: &'static str)
    ensures
        r@ == bool_view(b),
{
    if b {
        "true"
    } else {
        "false"
    }
}

impl Args {
    /// Builds the configuration: an explicitly given target wins; without one
    /// the current working directory is watched; with neither, setup fails.
    pub fn new(
        target: Option<String>,
        current_dir: Option<String>,
        display: bool,
        verbose: bool,
        quiet: bool,
    ) -> (r: Result<Args, SetupError>)
        ensures
            (r is Err) <==> (target is None && current_dir is None),
            r matches Err(e) ==> e == SetupError::NoTarget,
            r matches Ok(a) ==> a.display == display && a.verbose == verbose && a.quiet == quiet,
            target matches Some(t) ==> (r matches Ok(a) && a.target == t),
            current_dir matches Some(c) ==> (target is Some || (r matches Ok(a) && a.target == c)),
    {
        match target {
            Some(t) => Ok(Args { target: t, display, verbose, quiet }),
            None => match current_dir {
                Some(c) => Ok(Args { target: c, display, verbose, quiet }),
                None => Err(SetupError::NoTarget),
            },
        }
    }

    /// The diagnostic line for this configuration.
    pub fn describe(&self) -> (r: String)
        ensures
            r@ == args_view(*self),
    {
        let mut s = String::from_str("Arguments: target='");
        s.append(self.target.as_str());
        s.append("' display=");
        s.append(bool_str(self.display));
        s.append(" verbose=");
        s.append(bool_str(self.verbose));
        s.append(" quiet=");
        s.append(bool_str(self.quiet));
        s
    }
}

} // verus!
