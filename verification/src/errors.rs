//! Failure classification shared by every pipeline stage.
//!
//! Every error the pipeline surfaces self-classifies as either `Transient`
//! (the message is left on the queue and redelivered after its visibility
//! timeout) or `Persistent` (the message is routed to the dead-letter queue).

use vstd::prelude::*;

verus! {

/// The recovery class of a failure: retry by redelivery, or dead-letter.
#[derive(Clone, Copy, Debug, PartialEq, Eq, Structural)]
pub enum Recoverable {
    Transient,
    Persistent,
}

impl Recoverable {
    /// True exactly on the `Persistent` class.
    pub fn is_persistent(&self) -> (r: bool)
        ensures
            r == (*self == Recoverable::Persistent),
    {
        matches!(self, Recoverable::Persistent)
    }
}

/// An error that carries its own recovery class. Every pluggable stage's
/// error type implements this, and the executor routes the message by the
/// class alone.
pub trait CheckedError: Sized {
    /// The class this error claims.
    spec fn spec_error_type(&self) -> Recoverable;

    /// Report the class.
    fn error_type(&self) -> (r: Recoverable)
        ensures
            r == self.spec_error_type(),
    ;
}

/// A state value read from the wire that no node-state enum maps to.
#[derive(Clone, Copy, Debug, PartialEq, Eq, Structural)]
pub enum Error {
    InvalidProcessState(u32),
    InvalidIpConnectionState(u32),
    InvalidProcessInboundConnectionState(u32),
}

} // verus!
