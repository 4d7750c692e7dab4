//! The ways in which an operation can fail.

use vstd::prelude::*;

verus! {

/// The ways in which an operation of this library, or of the program around
/// it, can fail.
#[derive(Debug, Clone, Copy, PartialEq, Eq, Structural)]
pub enum Failure {
    /// An entry or a window class was named that the store does not hold.
    NotFound,
    /// The other end of a message channel is gone.
    ChannelClosed,
    /// A file could not be written.
    PersistenceFailure,
    /// The saved files could not be read back as a store.
    LoadFailure,
    /// A remote call carried a payload that cannot be understood.
    InternalProtocol,
}

} // verus!
