//! The error type of the core.
use crate::text::text_of;
use vstd::prelude::*;

verus! {

/// Why a git command failed.
#[derive(Clone, Copy, Debug, PartialEq, Eq, Structural)]
pub enum GitErrorKind {
    NotInstalled,
    CommandFailed,
}

/// What a core operation reports when it cannot do its work.
#[derive(Debug)]
pub enum MaestroError {
    /// A request or stored value that makes no sense.
    InvalidData { message: String },
    /// Something the user has to configure or install.
    Config { message: String },
    /// A git invocation that failed.
    Git { kind: GitErrorKind, message: String },
    /// A file system operation that failed.
    Io { message: String },
}

impl MaestroError {
    /// The message, whatever the variant.
    pub open spec fn text(self) -> Seq<char> {
        match self {
            MaestroError::InvalidData { message } => message@,
            MaestroError::Config { message } => message@,
            MaestroError::Git { message, .. } => message@,
            MaestroError::Io { message } => message@,
        }
    }

    pub open spec fn transient(self) -> bool {
        self matches MaestroError::Git { kind, .. } && kind == GitErrorKind::CommandFailed
    }

    pub open spec fn code_text(self) -> Seq<char> {
        match self {
            MaestroError::InvalidData { .. } => "invalid_data"@,
            MaestroError::Config { .. } => "config"@,
            MaestroError::Git { .. } => "git"@,
            MaestroError::Io { .. } => "io"@,
        }
    }

    /// The message as text.
    pub fn message(&self) -> (m: String)
        ensures
            m@ == self.text(),
    {
        match self {
            MaestroError::InvalidData { message } => text_of(message.as_str()),
            MaestroError::Config { message } => text_of(message.as_str()),
            MaestroError::Git { message, .. } => text_of(message.as_str()),
            MaestroError::Io { message } => text_of(message.as_str()),
        }
    }

    /// A stable name for the variant.
    pub fn code(&self) -> (c: &'static str)
        ensures
            c@ == self.code_text(),
    {
        match self {
            MaestroError::InvalidData { .. } => "invalid_data",
            MaestroError::Config { .. } => "config",
            MaestroError::Git { .. } => "git",
            MaestroError::Io { .. } => "io",
        }
    }

    /// Whether trying again later may succeed.
    pub fn is_transient(&self) -> (b: bool)
        ensures
            b == self.transient(),
    {
        match self {
            MaestroError::Git { kind, .. } => *kind == GitErrorKind::CommandFailed,
            _ => false,
        }
    }
}

/// Whether `e` is an `InvalidData` with this message.
pub open spec fn is_invalid_data(e: MaestroError, message: Seq<char>) -> bool {
    e matches MaestroError::InvalidData { message: m } && m@ == message
}

/// Whether `e` is a `Config` error with this message.
pub open spec fn is_config(e: MaestroError, message: Seq<char>) -> bool {
    e matches MaestroError::Config { message: m } && m@ == message
}

} // verus!
