use vstd::prelude::*;
use crate::access_control::AccessControl;
use crate::address::{Address, LOCAL};
use crate::error::Error;
use crate::message::{Envelope, EnvelopeView};
use crate::route::Route;
use crate::router::{Receipt, RegistrationView, Router, RouterView, Verdict};
use crate::lifecycle::State;

verus! {

/// The capability handle given to an actor: its own address, and through a
/// router handed to it, sending and spawning.
#[derive(Clone, Copy, Debug)]
pub struct Context {
    address: Address,
}

impl View for Context {
    type V = Address;

    open spec fn view(&self) -> Address {
        self.addr()
    }
}

impl Context {
    /// The handle of the actor at `address`.
    pub fn new(address: Address) -> (r: Context)
        ensures
            r.addr() == address,
    {
        Context { address }
    }

    /// The actor's own address.
    pub closed spec fn addr(&self) -> Address {
        self.address
    }

    /// The actor's own address.
    pub fn address(&self) -> (r: Address)
        ensures
            r == self.addr(),
    {
        self.address
    }

    /// The envelope this actor sends with `payload` along `onward`: its
    /// return route is the actor's own address, so that a reply comes back.
    pub open spec fn outgoing(&self, payload: Seq<u8>, onward: Seq<Address>) -> EnvelopeView {
        EnvelopeView { payload, onward, ret: seq![self.addr()] }
    }

    /// Builds the envelope that `send` hands to the router.
    pub fn envelope(&self, payload: Vec<u8>, onward: Route) -> (r: Envelope)
        ensures
            r@ == self.outgoing(payload@, onward@),
    {
        let mut back = Route::new();
        back.push_back(self.address);
        assert(back@ =~= seq![self.addr()]);
        Envelope::new(payload, onward, back)
    }

    /// Sends `payload` along `onward`: the router receives the envelope at once.
    pub fn send(&self, router: &mut Router, payload: Vec<u8>, onward: Route) -> (r: Result<
        Receipt,
        Error,
    >)
        requires
            old(router)@.wf(),
        ensures
            final(router)@.wf(),
            final(router)@ == old(router)@.after_receive(self.outgoing(payload@, onward@)),
            old(router)@.verdict(self.outgoing(payload@, onward@)) == Verdict::Deliver ==> r matches Ok(
                Receipt::Delivered,
            ),
            old(router)@.verdict(self.outgoing(payload@, onward@)) == Verdict::Wait ==> (r matches Ok(
                Receipt::Waiting(e),
            ) && e@ == self.outgoing(payload@, onward@)),
            old(router)@.verdict(self.outgoing(payload@, onward@)) matches Verdict::Fail(err) ==> r
                == Err::<Receipt, Error>(err),
    {
        let e = self.envelope(payload, onward);
        router.receive(e)
    }

    /// Spawns a new actor, whose `initialize` hook ended with `init`, at a
    /// freshly allocated local address under the same router, and returns its
    /// handle.
    pub fn spawn(
        &self,
        router: &mut Router,
        policy: AccessControl,
        capacity: Option<usize>,
        init: Result<(), Error>,
    ) -> (r: Result<Context, Error>)
        requires
            old(router)@.wf(),
        ensures
            final(router)@.wf(),
            init is Err ==> r == Err::<Context, Error>(Error::WorkerInitFailed),
            r is Err ==> final(router)@ == old(router)@ && final(router).counter() == old(router).counter(),
            r matches Ok(c) ==> c.addr().id >= old(router).counter() && final(router).counter() == (if c.addr().id
                < u64::MAX {
                (c.addr().id + 1) as u64
            } else {
                old(router).counter()
            }),
            r matches Err(x) ==> x == Error::WorkerInitFailed || x == Error::AddressInUse,
            r matches Err(x) && x == Error::AddressInUse ==> forall|k: u64|
                k >= old(router).counter() ==> #[trigger] old(router)@.live(
                    Address { kind: LOCAL, id: k },
                ),
            init is Ok && old(router).counter() < u64::MAX && !old(router)@.live(
                Address { kind: LOCAL, id: u64::MAX },
            ) ==> r is Ok,
            r matches Ok(c) ==> c.addr().kind == LOCAL && !old(router)@.live(c.addr())
                && final(router)@ == (RouterView {
                regs: old(router)@.regs.push(
                    RegistrationView {
                        address: c.addr(),
                        policy,
                        queue: Seq::empty(),
                        capacity,
                        state: State::Running,
                        busy: false,
                    },
                ),
                ..old(router)@
            }),
    {
        if init.is_err() {
            return Err(Error::WorkerInitFailed);
        }
        let a = match router.fresh_address() {
            None => {
                return Err(Error::AddressInUse);
            },
            Some(a) => a,
        };
        match router.start(a, policy, capacity, init) {
            Ok(()) => Ok(Context { address: a }),
            Err(e) => Err(e),
        }
    }
}

} // verus!
