//! The failures that the library reports.
use vstd::prelude::*;

verus! {

/// What can go wrong while loading a configuration, looking a path up or
/// restoring a checkout.
#[derive(Debug, Clone, PartialEq, Eq)]
pub enum Error {
    /// The configuration is malformed; the text says how.
    Parse(String),
    /// The path cannot be made absolute.
    Path(String),
    /// The path names no declared workspace or project.
    NotFound(String),
    /// A directory could not be created at the path.
    Fs(String),
    /// The transport failed; the text is its own message.
    Transport(String),
    /// Every credential source was tried and none was accepted.
    AuthExhausted,
}

} // verus!
