//! The errors of the stack's operations.
use crate::address::IpFamily;
use vstd::prelude::*;

verus! {

/// Why an operation of the stack did not happen.
#[derive(Clone, Copy, PartialEq, Eq, Structural, Debug)]
pub enum StackError {
    /// An address of this family is configured but no default gateway for it.
    MissingGateway(IpFamily),
    /// `finalize` already succeeded.
    AlreadyFinalized,
    /// The operation needs a finalized stack.
    NotFinalized,
    /// No further socket handle key can be issued.
    HandleSpaceExhausted,
    /// A prefix too long for its family, or an address an interface cannot hold.
    InvalidAddress,
    /// No socket is registered under the handle.
    UnknownHandle,
    /// The socket is not of the kind the operation needs.
    WrongSocketKind,
    /// A socket is already registered under the handle.
    HandleInUse,
    /// The engine refused the request, or no longer holds the socket.
    EngineRejected,
    /// A connectionless send without destination.
    MissingEndpoint,
    /// The socket kind or operation is not implemented.
    Unsupported,
    /// The operation exists only on the virtual backend.
    WrongBackend,
    /// Nothing to receive.
    NoData,
}

} // verus!
