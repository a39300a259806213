//! Error types for the group engine.
use vstd::prelude::*;

verus! {

/// Failure of a group-engine phase, with a message naming what broke.
#[derive(Debug, Clone, PartialEq, Eq)]
pub enum GroupError {
    Config(String),
    Manifest(String),
    Shard(String),
    Aggregate(String),
    /// An I/O failure, carried as its message.
    Io(String),
    Serde(String),
}

pub type GroupResult<T> = Result<T, GroupError>;

/// The text an error displays: the phase's prefix and the message.
pub open spec fn error_text(e: GroupError) -> Seq<char> {
    match e {
        GroupError::Config(m) => "config error: "@ + m@,
        GroupError::Manifest(m) => "manifest error: "@ + m@,
        GroupError::Shard(m) => "shard error: "@ + m@,
        GroupError::Aggregate(m) => "aggregate error: "@ + m@,
        GroupError::Io(m) => "io error: "@ + m@,
        GroupError::Serde(m) => "serde error: "@ + m@,
    }
}

impl GroupError {
    /// The error as text, e.g. `config error: missing rate`.
    pub fn message(&self) -> (r: String)
        ensures
            r@ == error_text(*self),
    {
        match self {
            GroupError::Config(m) => "config error: ".to_string().concat(m.as_str()),
            GroupError::Manifest(m) => "manifest error: ".to_string().concat(m.as_str()),
            GroupError::Shard(m) => "shard error: ".to_string().concat(m.as_str()),
            GroupError::Aggregate(m) => "aggregate error: ".to_string().concat(m.as_str()),
            GroupError::Io(m) => "io error: ".to_string().concat(m.as_str()),
            GroupError::Serde(m) => "serde error: ".to_string().concat(m.as_str()),
        }
    }
}

} // verus!
