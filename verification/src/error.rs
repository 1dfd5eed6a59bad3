//! The ways a command can fail.

use vstd::prelude::*;

verus! {

/// Every failure a command can end in.
#[derive(Clone, Copy, Debug, PartialEq, Eq, Structural)]
pub enum CommandError {
    /// The registry reference is malformed.
    ReferenceParseError,
    /// The registry could not be reached.
    RegistryUnreachable,
    /// The registry refused the credentials.
    AuthRejected,
    /// The registry does not hold the reference.
    ReferenceNotFound,
    /// The registry checked the content and refused it.
    PayloadRejected,
    /// A cache file exists but could not be read.
    CacheReadFailure,
    /// The cache could not be written.
    CacheWriteFailure,
    /// The local component file could not be read.
    InputReadFailure,
    /// The pulled component could not be written to its output path.
    OutputWriteFailure,
    /// A plugin hook failed. Never the result of a command by itself.
    PluginHookFailure,
}

/// The side of a transfer that a failure came from.
#[derive(Clone, Copy, Debug, PartialEq, Eq, Structural)]
pub enum Side {
    Local,
    Remote,
}

impl CommandError {
    /// The side on which the failure arose.
    pub open spec fn spec_side(self) -> Side {
        match self {
            CommandError::RegistryUnreachable
            | CommandError::AuthRejected
            | CommandError::ReferenceNotFound
            | CommandError::PayloadRejected => Side::Remote,
            _ => Side::Local,
        }
    }

    #[verifier::when_used_as_spec(spec_side)]
    pub fn side(self) -> (side: Side)
        ensures
            side == self.spec_side(),
    {
        match self {
            CommandError::RegistryUnreachable
            | CommandError::AuthRejected
            | CommandError::ReferenceNotFound
            | CommandError::PayloadRejected => Side::Remote,
            _ => Side::Local,
        }
    }

    /// The one line shown to the user for this failure.
    pub open spec fn spec_message(self) -> Seq<char> {
        match self {
            CommandError::ReferenceParseError => "invalid registry reference"@,
            CommandError::RegistryUnreachable => "registry is unreachable"@,
            CommandError::AuthRejected => "registry rejected the credentials"@,
            CommandError::ReferenceNotFound => "reference not found in registry"@,
            CommandError::PayloadRejected => "registry rejected the component"@,
            CommandError::CacheReadFailure => "failed to read component from cache"@,
            CommandError::CacheWriteFailure => "failed to write component to cache"@,
            CommandError::InputReadFailure => "failed to read component file"@,
            CommandError::OutputWriteFailure => "failed to write pulled component to output path"@,
            CommandError::PluginHookFailure => "plugin hook failed"@,
        }
    }

    pub fn message(self) -> (line: String)
        ensures
            line@ == self.spec_message(),
    {
        match self {
            CommandError::ReferenceParseError => "invalid registry reference".to_owned(),
            CommandError::RegistryUnreachable => "registry is unreachable".to_owned(),
            CommandError::AuthRejected => "registry rejected the credentials".to_owned(),
            CommandError::ReferenceNotFound => "reference not found in registry".to_owned(),
            CommandError::PayloadRejected => "registry rejected the component".to_owned(),
            CommandError::CacheReadFailure => "failed to read component from cache".to_owned(),
            CommandError::CacheWriteFailure => "failed to write component to cache".to_owned(),
            CommandError::InputReadFailure => "failed to read component file".to_owned(),
            CommandError::OutputWriteFailure => "failed to write pulled component to output path".to_owned(),
            CommandError::PluginHookFailure => "plugin hook failed".to_owned(),
        }
    }
}

} // verus!
