use vstd::prelude::*;
use crate::strutil::concat_str;

verus! {

/// The failures the toolchain surfaces.  Every one is fatal to the run that
/// raised it; nothing here is recovered from.
#[derive(Debug, Clone, PartialEq, Eq)]
pub enum Error {
    /// An external process failed to spawn or exited nonzero; holds the
    /// command line and a description of the status.
    ToolInvocationFailure { command: String, detail: String },
    /// A create, copy or read failed while staging or deploying; holds the
    /// offending path.
    FilesystemFailure { path: String, detail: String },
    /// The manifest is malformed, or no compatible build target was found,
    /// before any external tool ran.
    ConfigError { message: String },
}

impl Error {
    /// A one-line description, prefixed by the failure's kind.
    pub fn message(&self) -> (r: String)
        ensures
            r@ == match self {
                Error::ToolInvocationFailure { command, detail } => "command failed: "@
                    + command@ + ": "@ + detail@,
                Error::FilesystemFailure { path, detail } => "filesystem failure at "@ + path@
                    + ": "@ + detail@,
                Error::ConfigError { message } => "configuration error: "@ + message@,
            },
    {
        match self {
            Error::ToolInvocationFailure { command, detail } => {
                let mut s = concat_str("command failed: ", command.as_str());
                s.append(": ");
                s.append(detail.as_str());
                s
            },
            Error::FilesystemFailure { path, detail } => {
                let mut s = concat_str("filesystem failure at ", path.as_str());
                s.append(": ");
                s.append(detail.as_str());
                s
            },
            Error::ConfigError { message } => concat_str("configuration error: ", message.as_str()),
        }
    }

    /// Whether this failure is of the configuration kind.
    pub fn is_config_error(&self) -> (r: bool)
        ensures
            r == (self matches Error::ConfigError { .. }),
    {
        match self {
            Error::ConfigError { .. } => true,
            _ => false,
        }
    }
}

} // verus!
