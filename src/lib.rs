//! Core of an actor-style message router: addresses and multi-hop routes,
//! message envelopes, composable access control, the worker lifecycle, and a
//! router that resolves, authorizes and delivers envelopes into per-address
//! FIFO mailboxes.
use vstd::prelude::*;

pub mod access_control;
pub mod address;
pub mod context;
pub mod error;
pub mod lifecycle;
pub mod message;
pub mod route;
pub mod router;
pub mod worker;

pub use access_control::AccessControl;
pub use address::Address;
pub use context::Context;
pub use error::Error;
pub use lifecycle::{Event, State};
pub use message::{Envelope, EnvelopeView};
pub use route::Route;
pub use router::{Backpressure, Receipt, Router, Verdict};
pub use worker::{Processor, Worker};

verus! {

/// Duplication that may fail, for values that hold resources which cannot
/// always be duplicated. A successful clone has the same view as the value it
/// was taken from.
pub trait AsyncTryClone: Sized + View {
    /// Tries to clone the value; `Err` when it cannot be duplicated.
    fn async_try_clone(&self) -> (r: Result<Self, Error>)
        ensures
            r matches Ok(c) ==> c@ == self@,
    ;
}

impl AsyncTryClone for Address {
    fn async_try_clone(&self) -> (r: Result<Address, Error>)
        ensures
            r matches Ok(c) && c@ == self@,
    {
        Ok(*self)
    }
}

impl AsyncTryClone for Route {
    fn async_try_clone(&self) -> (r: Result<Route, Error>)
        ensures
            r matches Ok(c) && c@ == self@,
    {
        Ok(self.duplicate())
    }
}

impl AsyncTryClone for Envelope {
    fn async_try_clone(&self) -> (r: Result<Envelope, Error>)
        ensures
            r matches Ok(c) && c@ == self@,
    {
        Ok(self.duplicate())
    }
}

impl AsyncTryClone for Context {
    fn async_try_clone(&self) -> (r: Result<Context, Error>)
        ensures
            r matches Ok(c) && c@ == self@ && c.addr() == self.addr(),
    {
        Ok(*self)
    }
}

impl AsyncTryClone for AccessControl {
    fn async_try_clone(&self) -> (r: Result<AccessControl, Error>)
        ensures
            r matches Ok(c) && c@ == self@,
    {
        Ok(self.duplicate())
    }
}

} // verus!
