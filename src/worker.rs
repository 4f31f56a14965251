use vstd::prelude::*;
use crate::access_control::AccessControl;
use crate::address::{Address, LOCAL};
use crate::context::Context;
use crate::error::Error;
use crate::lifecycle::{after_poll, State};
use crate::message::{Envelope, EnvelopeView};
use crate::router::{lemma_receive_all_push, Receipt, RegistrationView, Router, RouterView};

verus! {

/// A message-driven actor. Its handler runs once per dequeued envelope, to
/// completion, before the next envelope for its address is dequeued, so its
/// state needs no lock.
pub trait Worker {
    /// Runs before the worker's address is published.
    fn initialize(&mut self, ctx: &Context) -> Result<(), Error>;

    /// Handles one envelope and returns the envelopes it sends, in order.
    fn handle(&mut self, ctx: &Context, msg: Envelope) -> Result<Vec<Envelope>, Error>;

    /// Runs once the worker stops; a failure here is not propagated.
    fn shutdown(&mut self, ctx: &Context) -> Result<(), Error>;
}

/// A polling actor, driven by the scheduler rather than by single envelopes.
pub trait Processor {
    /// Runs before the processor's address is published.
    fn initialize(&mut self, ctx: &Context) -> Result<(), Error>;

    /// One round of work: `Ok(true)` to be polled again, `Ok(false)` to stop.
    fn poll(&mut self, ctx: &Context) -> Result<bool, Error>;

    /// Runs once the processor stops; a failure here is not propagated.
    fn shutdown(&mut self, ctx: &Context) -> Result<(), Error>;
}

/// The views of a sequence of envelopes.
pub open spec fn views(v: Seq<Envelope>) -> Seq<EnvelopeView> {
    v.map_values(|e: Envelope| e@)
}

/// The router after a new actor was published at `a`.
pub open spec fn with_actor(
    r: RouterView,
    a: Address,
    policy: AccessControl,
    capacity: Option<usize>,
) -> RouterView {
    RouterView {
        regs: r.regs.push(
            RegistrationView {
                address: a,
                policy,
                queue: Seq::empty(),
                capacity,
                state: State::Running,
                busy: false,
            },
        ),
        ..r
    }
}

/// Initializes `w` and, when that succeeds, publishes it at `address`. An
/// address already live is refused before `initialize` runs.
pub fn start_worker<W: Worker>(
    router: &mut Router,
    address: Address,
    policy: AccessControl,
    capacity: Option<usize>,
    w: &mut W,
) -> (r: Result<Context, Error>)
    requires
        old(router)@.wf(),
    ensures
        final(router)@.wf(),
        old(router)@.live(address) ==> r == Err::<Context, Error>(Error::AddressInUse),
        !old(router)@.live(address) ==> (r is Ok || r == Err::<Context, Error>(Error::WorkerInitFailed)),
        final(router).counter() == old(router).counter(),
        r matches Err(x) ==> x == Error::AddressInUse || x == Error::WorkerInitFailed,
        r is Err ==> final(router)@ == old(router)@,
        r matches Ok(c) ==> c.addr() == address && final(router)@ == with_actor(
            old(router)@,
            address,
            policy,
            capacity,
        ),
{
    if router.is_registered(address) {
        return Err(Error::AddressInUse);
    }
    let ctx = Context::new(address);
    let init = w.initialize(&ctx);
    match router.start(address, policy, capacity, init) {
        Ok(()) => Ok(ctx),
        Err(e) => Err(e),
    }
}

/// Initializes `p` and, when that succeeds, publishes it at `address`.
pub fn start_processor<P: Processor>(
    router: &mut Router,
    address: Address,
    policy: AccessControl,
    p: &mut P,
) -> (r: Result<Context, Error>)
    requires
        old(router)@.wf(),
    ensures
        final(router)@.wf(),
        old(router)@.live(address) ==> r == Err::<Context, Error>(Error::AddressInUse),
        !old(router)@.live(address) ==> (r is Ok || r == Err::<Context, Error>(Error::WorkerInitFailed)),
        final(router).counter() == old(router).counter(),
        r matches Err(x) ==> x == Error::AddressInUse || x == Error::WorkerInitFailed,
        r is Err ==> final(router)@ == old(router)@,
        r matches Ok(c) ==> c.addr() == address && final(router)@ == with_actor(
            old(router)@,
            address,
            policy,
            Some(0),
        ),
{
    if router.is_registered(address) {
        return Err(Error::AddressInUse);
    }
    let ctx = Context::new(address);
    let init = p.initialize(&ctx);
    match router.start(address, policy, Some(0), init) {
        Ok(()) => Ok(ctx),
        Err(e) => Err(e),
    }
}

/// Initializes `w` at a freshly allocated local address and, when that
/// succeeds, publishes it there under the same router.
pub fn spawn_worker<W: Worker>(
    router: &mut Router,
    policy: AccessControl,
    capacity: Option<usize>,
    w: &mut W,
) -> (r: Result<Context, Error>)
    requires
        old(router)@.wf(),
    ensures
        final(router)@.wf(),
        r is Err ==> final(router)@ == old(router)@,
        r matches Err(x) ==> x == Error::AddressInUse || x == Error::WorkerInitFailed,
        r == Err::<Context, Error>(Error::AddressInUse) ==> forall|k: u64|
            k >= old(router).counter() ==> #[trigger] old(router)@.live(Address { kind: LOCAL, id: k }),
        old(router).counter() < u64::MAX && !old(router)@.live(Address { kind: LOCAL, id: u64::MAX })
            ==> (r is Ok || r == Err::<Context, Error>(Error::WorkerInitFailed)),
        r matches Ok(c) ==> c.addr().kind == LOCAL && c.addr().id >= old(router).counter()
            && !old(router)@.live(c.addr()) && final(router)@ == with_actor(
            old(router)@,
            c.addr(),
            policy,
            capacity,
        ),
{
    let a = match router.fresh_address() {
        None => {
            return Err(Error::AddressInUse);
        },
        Some(a) => a,
    };
    let ctx = Context::new(a);
    let init = w.initialize(&ctx);
    match router.start(a, policy, capacity, init) {
        Ok(()) => Ok(ctx),
        Err(e) => Err(e),
    }
}

/// Hands each of `outs` to the router in order; returns those that found
/// their destination's mailbox full under the blocking policy, for the
/// caller to send again. Other delivery failures drop the envelope.
fn send_all(router: &mut Router, outs: Vec<Envelope>) -> (r: Vec<Envelope>)
    requires
        old(router)@.wf(),
    ensures
        final(router)@.wf(),
        final(router)@ == old(router)@.receive_all(views(outs@)),
        views(r@) == old(router)@.waiting_of(views(outs@)),
{
    let ghost start = router@;
    let ghost orig = outs@;
    let mut outs = outs;
    let mut waiting: Vec<Envelope> = Vec::new();
    let ghost mut k: int = 0;
    assert(views(orig.subrange(0, 0)) =~= Seq::<EnvelopeView>::empty());
    assert(views(waiting@) =~= Seq::<EnvelopeView>::empty());
    while outs.len() > 0
        invariant
            router@.wf(),
            0 <= k <= orig.len(),
            outs@ == orig.subrange(k, orig.len() as int),
            router@ == start.receive_all(views(orig.subrange(0, k))),
            views(waiting@) == start.waiting_of(views(orig.subrange(0, k))),
        decreases outs@.len(),
    {
        let e = outs.remove(0);
        proof {
            lemma_receive_all_push(start, views(orig.subrange(0, k)), e@);
            assert(views(orig.subrange(0, k + 1)) =~= views(orig.subrange(0, k)).push(e@));
            k = k + 1;
        }
        let ghost before = views(waiting@);
        match router.receive(e) {
            Ok(Receipt::Waiting(back)) => {
                waiting.push(back);
                assert(views(waiting@) =~= before.push(back@));
            },
            _ => {},
        }
        assert(outs@ =~= orig.subrange(k, orig.len() as int));
    }
    assert(orig.subrange(0, k) =~= orig);
    waiting
}

/// Runs the worker at `ctx`'s address on the oldest envelope of its mailbox:
/// the handler runs to completion, the envelopes it sends go to the router in
/// order, and a failed handler stops the worker. `Ok(None)` when the mailbox
/// is empty; otherwise the sent envelopes that found a full mailbox under the
/// blocking policy, to be sent again.
pub fn dispatch<W: Worker>(router: &mut Router, ctx: &Context, w: &mut W) -> (r: Result<
    Option<Vec<Envelope>>,
    Error,
>)
    requires
        old(router)@.wf(),
    ensures
        final(router)@.wf(),
        old(router)@.dequeue_result(ctx.addr()) matches Err(x) ==> r == Err::<
            Option<Vec<Envelope>>,
            Error,
        >(x) && final(router)@ == old(router)@,
        old(router)@.dequeue_result(ctx.addr()) == Ok::<Option<EnvelopeView>, Error>(None) ==> r
            == Ok::<Option<Vec<Envelope>>, Error>(None) && final(router)@ == old(router)@,
        old(router)@.dequeue_result(ctx.addr()) matches Ok(Some(_)) ==> (r matches Ok(Some(parked))
            && exists|outs: Seq<EnvelopeView>, outcome: Result<(), Error>|
            final(router)@ == old(router)@.after_dequeue(ctx.addr()).receive_all(outs).after_finish(
                ctx.addr(),
                outcome,
            ) && views(parked@) == old(router)@.after_dequeue(ctx.addr()).waiting_of(outs)),
{
    let a = ctx.address();
    let msg = match router.dequeue(a) {
        Err(x) => {
            return Err(x);
        },
        Ok(None) => {
            return Ok(None);
        },
        Ok(Some(m)) => m,
    };
    let ghost mid = router@;
    let ghost mut sent_seq: Seq<EnvelopeView> = Seq::empty();
    let (outcome, waiting) = match w.handle(ctx, msg) {
        Ok(outs) => {
            let ghost sent = views(outs@);
            let waiting = send_all(router, outs);
            proof {
                sent_seq = sent;
            }
            (Ok(()), waiting)
        },
        Err(x) => {
            let waiting: Vec<Envelope> = Vec::new();
            assert(mid.receive_all(Seq::<EnvelopeView>::empty()) == mid);
            assert(views(waiting@) =~= mid.waiting_of(Seq::<EnvelopeView>::empty()));
            proof {
                sent_seq = Seq::empty();
            }
            (Err(x), waiting)
        },
    };
    assert(router@ == mid.receive_all(sent_seq));
    assert(views(waiting@) == mid.waiting_of(sent_seq));
    let _ = router.finish(a, outcome);
    Ok(Some(waiting))
}

/// Stops the worker at `ctx`'s address: it takes nothing more, its
/// `shutdown` hook runs (its failure is ignored), and its registration is
/// removed. The envelopes still queued come back as undeliverable. A worker
/// whose handler has not finished is left stopping, and `InvalidState` comes
/// back.
pub fn stop_worker<W: Worker>(router: &mut Router, ctx: &Context, w: &mut W) -> (r: Result<
    Vec<Envelope>,
    Error,
>)
    requires
        old(router)@.wf(),
    ensures
        final(router)@.wf(),
        !old(router)@.live(ctx.addr()) ==> r == Err::<Vec<Envelope>, Error>(Error::UnknownAddress)
            && final(router)@ == old(router)@,
        old(router)@.live(ctx.addr()) ==> final(router)@ == old(router)@.after_stop(
            ctx.addr(),
        ).after_shutdown(ctx.addr()),
        match r {
            Ok(v) => old(router)@.after_stop(ctx.addr()).shutdown_result(ctx.addr()) == Ok::<
                Seq<EnvelopeView>,
                Error,
            >(views(v@)),
            Err(x) => !old(router)@.live(ctx.addr()) || old(router)@.after_stop(
                ctx.addr(),
            ).shutdown_result(ctx.addr()) == Err::<Seq<EnvelopeView>, Error>(x),
        },
{
    let a = ctx.address();
    if router.stop(a).is_err() {
        return Err(Error::UnknownAddress);
    }
    match router.is_busy(a) {
        Some(false) => {
            let _ = w.shutdown(ctx);
        },
        _ => {},
    }
    router.shutdown(a)
}

/// Polls the processor at `ctx`'s address once, if it is running, and
/// stops it when it asks to stop or fails. `Ok(true)` when it is to be
/// polled again.
pub fn poll_processor<P: Processor>(router: &mut Router, ctx: &Context, p: &mut P) -> (r: Result<
    bool,
    Error,
>)
    requires
        old(router)@.wf(),
    ensures
        final(router)@.wf(),
        !old(router)@.live(ctx.addr()) ==> r == Err::<bool, Error>(Error::UnknownAddress),
        old(router)@.live(ctx.addr()) && old(router)@.entry(ctx.addr()).state != State::Running
            ==> r == Ok::<bool, Error>(false),
        old(router)@.live(ctx.addr()) ==> r is Ok,
        r == Ok::<bool, Error>(false) && old(router)@.live(ctx.addr()) ==> final(router)@ == old(
            router,
        )@.after_stop(ctx.addr()),
        r != Ok::<bool, Error>(false) ==> final(router)@ == old(router)@,
{
    let a = ctx.address();
    match router.state_of(a) {
        None => Err(Error::UnknownAddress),
        Some(State::Running) => {
            let polled = p.poll(ctx);
            if after_poll(State::Running, polled) == State::Running {
                Ok(true)
            } else {
                let _ = router.stop(a);
                Ok(false)
            }
        },
        Some(_) => {
            let _ = router.stop(a);
            Ok(false)
        },
    }
}

} // verus!
