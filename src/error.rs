use vstd::prelude::*;

verus! {

/// Every way in which routing, delivery or a worker's lifecycle can fail.
#[derive(Clone, Copy, Debug, PartialEq, Eq, Structural)]
pub enum Error {
    /// The onward route was already empty: there is no next hop.
    DestinationUnreachable,
    /// No live registration exists for the next hop.
    UnknownAddress,
    /// The destination's access control policy rejected the envelope.
    AccessDenied,
    /// The destination mailbox is bounded and full, and the router rejects on full.
    MailboxFull,
    /// The destination is shutting down and takes no more envelopes.
    MailboxClosed,
    /// A worker's `initialize` hook failed; it was never registered.
    WorkerInitFailed,
    /// A worker's handler or processor's poll reported a failure.
    HandlerFailed,
    /// A live registration already holds the address.
    AddressInUse,
    /// The request does not fit the worker's current lifecycle state.
    InvalidState,
}

} // verus!
