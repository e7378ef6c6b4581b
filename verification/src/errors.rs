use vstd::prelude::*;
use vstd::string::StringExecFns;

verus! {

/// The failure taxonomy of the command surface: filesystem failures,
/// malformed persisted data, process launch failures, process termination
/// failures, and lock-acquisition failures. Each variant carries a
/// human-readable detail supplied by the caller or by the parser.
#[derive(Debug)]
pub enum CommandError {
    Io(String),
    Format(String),
    Spawn(String),
    Kill(String),
    Lock(String),
}

impl CommandError {
    /// The detail text carried by the error, whichever variant it is.
    pub open spec fn spec_detail(&self) -> Seq<char> {
        match self {
            CommandError::Io(d) => d@,
            CommandError::Format(d) => d@,
            CommandError::Spawn(d) => d@,
            CommandError::Kill(d) => d@,
            CommandError::Lock(d) => d@,
        }
    }

    /// The message prefix of each variant.
    pub open spec fn spec_prefix(&self) -> Seq<char> {
        match self {
            CommandError::Io(_) => "I/O failure: "@,
            CommandError::Format(_) => "invalid config format: "@,
            CommandError::Spawn(_) => "failed to spawn sidecar: "@,
            CommandError::Kill(_) => "failed to kill sidecar: "@,
            CommandError::Lock(_) => "lock failure: "@,
        }
    }

    /// Renders the error as a single human-readable line: a fixed prefix
    /// naming the failure kind, followed by the detail text.
    pub fn message(&self) -> (r: String)
        ensures
            r@ == self.spec_prefix() + self.spec_detail(),
    {
        let mut out: String = match self {
            CommandError::Io(_) => String::from_str("I/O failure: "),
            CommandError::Format(_) => String::from_str("invalid config format: "),
            CommandError::Spawn(_) => String::from_str("failed to spawn sidecar: "),
            CommandError::Kill(_) => String::from_str("failed to kill sidecar: "),
            CommandError::Lock(_) => String::from_str("lock failure: "),
        };
        match self {
            CommandError::Io(d) => out.append(d.as_str()),
            CommandError::Format(d) => out.append(d.as_str()),
            CommandError::Spawn(d) => out.append(d.as_str()),
            CommandError::Kill(d) => out.append(d.as_str()),
            CommandError::Lock(d) => out.append(d.as_str()),
        }
        out
    }
}

} // verus!
