use vstd::prelude::*;
use crate::access_control::AccessControl;
use crate::address::{Address, LOCAL};
use crate::error::Error;
use crate::lifecycle::{State, Event, step, transition};
use crate::message::{Envelope, EnvelopeView};

verus! {

/// What a router does when a bounded mailbox is full.
#[derive(Clone, Copy, Debug, PartialEq, Eq, Structural)]
pub enum Backpressure {
    /// The envelope is handed back and the sender waits for room.
    Block,
    /// The send fails with `MailboxFull`.
    Reject,
}

/// How the router disposes of an envelope, decided before anything changes.
#[derive(Clone, Copy, Debug, PartialEq, Eq, Structural)]
pub enum Verdict {
    /// Into the destination's mailbox.
    Deliver,
    /// Back to the sender, to wait for room.
    Wait,
    /// Dropped, with this error.
    Fail(Error),
}

/// What a successful `receive` did with the envelope.
#[derive(Debug)]
pub enum Receipt {
    /// It is in the destination's mailbox.
    Delivered,
    /// The destination's mailbox is full: here it is back, untouched, to be
    /// sent again once there is room.
    Waiting(Envelope),
}

/// One live registration: the actor's address, its access control policy,
/// its mailbox and where it is in its lifecycle.
#[derive(Debug)]
pub struct Registration {
    address: Address,
    policy: AccessControl,
    queue: Vec<Envelope>,
    capacity: Option<usize>,
    state: State,
    busy: bool,
}

/// A registration as plain values.
pub ghost struct RegistrationView {
    pub address: Address,
    pub policy: AccessControl,
    /// The mailbox, oldest envelope first.
    pub queue: Seq<EnvelopeView>,
    /// `None` for an unbounded mailbox.
    pub capacity: Option<usize>,
    pub state: State,
    /// Whether an envelope has been dequeued and its handler has not yet finished.
    pub busy: bool,
}

impl RegistrationView {
    /// Only running and stopping actors are registered, and a bounded
    /// mailbox holds no more than its bound.
    pub open spec fn wf(self) -> bool {
        &&& (self.state == State::Running || self.state == State::Stopping)
        &&& (self.capacity matches Some(c) ==> self.queue.len() <= c)
    }

    /// Whether a bounded mailbox has reached its bound.
    pub open spec fn is_full(self) -> bool {
        self.capacity matches Some(c) && self.queue.len() >= c
    }

    /// The same registration with mailbox `q`.
    pub open spec fn with_queue(self, q: Seq<EnvelopeView>) -> RegistrationView {
        RegistrationView { queue: q, ..self }
    }
}

impl View for Registration {
    type V = RegistrationView;

    closed spec fn view(&self) -> RegistrationView {
        RegistrationView {
            address: self.address,
            policy: self.policy,
            queue: self.queue@.map_values(|e: Envelope| e@),
            capacity: self.capacity,
            state: self.state,
            busy: self.busy,
        }
    }
}

/// The registry and dispatcher: the single source of truth for which
/// addresses exist, and the only way into a mailbox.
#[derive(Debug)]
pub struct Router {
    regs: Vec<Registration>,
    backpressure: Backpressure,
    next_id: u64,
}

/// A router as plain values.
pub ghost struct RouterView {
    pub regs: Seq<RegistrationView>,
    pub backpressure: Backpressure,
}

impl View for Router {
    type V = RouterView;

    closed spec fn view(&self) -> RouterView {
        RouterView { regs: self.regs@.map_values(|r: Registration| r@), backpressure: self.backpressure }
    }
}

impl RouterView {
    /// Addresses are unique among live registrations, and each registration
    /// is running or stopping with a mailbox within its bound.
    pub open spec fn wf(self) -> bool {
        &&& forall|i: int, j: int|
            0 <= i < self.regs.len() && 0 <= j < self.regs.len() && i != j ==> self.regs[i].address
                != self.regs[j].address
        &&& forall|i: int| 0 <= i < self.regs.len() ==> #[trigger] self.regs[i].wf()
    }

    /// Whether a registration holds `a`.
    pub open spec fn live(self, a: Address) -> bool {
        exists|i: int| 0 <= i < self.regs.len() && self.regs[i].address == a
    }

    /// Where the registration holding `a` stands.
    pub open spec fn slot(self, a: Address) -> int {
        choose|i: int| 0 <= i < self.regs.len() && self.regs[i].address == a
    }

    /// The registration holding `a`.
    pub open spec fn entry(self, a: Address) -> RegistrationView {
        self.regs[self.slot(a)]
    }

    /// The same router with the registration of `a` replaced by `r`.
    pub open spec fn with_entry(self, a: Address, r: RegistrationView) -> RouterView {
        RouterView { regs: self.regs.update(self.slot(a), r), ..self }
    }

    /// What `receive` does with `e`: next hop, lookup, access control, then
    /// room in the mailbox, in that order.
    pub open spec fn verdict(self, e: EnvelopeView) -> Verdict {
        if e.onward.len() == 0 {
            Verdict::Fail(Error::DestinationUnreachable)
        } else if !self.live(e.onward[0]) {
            Verdict::Fail(Error::UnknownAddress)
        } else if !self.entry(e.onward[0]).policy.allows(e.ret) {
            Verdict::Fail(Error::AccessDenied)
        } else if self.entry(e.onward[0]).state != State::Running {
            Verdict::Fail(Error::MailboxClosed)
        } else if self.entry(e.onward[0]).is_full() {
            if self.backpressure == Backpressure::Block {
                Verdict::Wait
            } else {
                Verdict::Fail(Error::MailboxFull)
            }
        } else {
            Verdict::Deliver
        }
    }

    /// The router after `receive` of `e`: on delivery the envelope, having
    /// taken its hop, is appended to the destination's mailbox; otherwise
    /// nothing changes.
    pub open spec fn after_receive(self, e: EnvelopeView) -> RouterView {
        if self.verdict(e) == Verdict::Deliver {
            let d = e.onward[0];
            self.with_entry(d, self.entry(d).with_queue(self.entry(d).queue.push(e.hop())))
        } else {
            self
        }
    }

    /// The router after receiving each of `es` in turn.
    pub open spec fn receive_all(self, es: Seq<EnvelopeView>) -> RouterView
        decreases es.len(),
    {
        if es.len() == 0 {
            self
        } else {
            self.after_receive(es[0]).receive_all(es.drop_first())
        }
    }

    /// The envelopes among `es` that the router hands back to wait for room
    /// when it receives them in turn, in order.
    pub open spec fn waiting_of(self, es: Seq<EnvelopeView>) -> Seq<EnvelopeView>
        decreases es.len(),
    {
        if es.len() == 0 {
            Seq::empty()
        } else {
            (if self.verdict(es[0]) == Verdict::Wait {
                seq![es[0]]
            } else {
                Seq::empty()
            }) + self.after_receive(es[0]).waiting_of(es.drop_first())
        }
    }

    /// What `start` returns.
    pub open spec fn start_result(self, a: Address, init: Result<(), Error>) -> Result<(), Error> {
        if self.live(a) {
            Err(Error::AddressInUse)
        } else if init is Err {
            Err(Error::WorkerInitFailed)
        } else {
            Ok(())
        }
    }

    /// What `dequeue` returns, as plain values.
    pub open spec fn dequeue_result(self, a: Address) -> Result<Option<EnvelopeView>, Error> {
        if !self.live(a) {
            Err(Error::UnknownAddress)
        } else if self.entry(a).state != State::Running || self.entry(a).busy {
            Err(Error::InvalidState)
        } else if self.entry(a).queue.len() == 0 {
            Ok(None)
        } else {
            Ok(Some(self.entry(a).queue[0]))
        }
    }

    /// The router after `dequeue` of `a`: the oldest envelope leaves the
    /// mailbox and the actor is busy with it.
    pub open spec fn after_dequeue(self, a: Address) -> RouterView {
        if self.dequeue_result(a) matches Ok(Some(_)) {
            self.with_entry(
                a,
                RegistrationView { queue: self.entry(a).queue.drop_first(), busy: true, ..self.entry(a) },
            )
        } else {
            self
        }
    }

    /// What `finish` returns.
    pub open spec fn finish_result(self, a: Address) -> Result<(), Error> {
        if !self.live(a) {
            Err(Error::UnknownAddress)
        } else if !self.entry(a).busy {
            Err(Error::InvalidState)
        } else {
            Ok(())
        }
    }

    /// The router after the handler at `a` finished with `outcome`: the actor
    /// is free again, and a failed handler stops it.
    pub open spec fn after_finish(self, a: Address, outcome: Result<(), Error>) -> RouterView {
        if self.finish_result(a) is Ok {
            let s = self.entry(a).state;
            self.with_entry(
                a,
                RegistrationView {
                    busy: false,
                    state: if outcome is Err && s == State::Running {
                        State::Stopping
                    } else {
                        s
                    },
                    ..self.entry(a)
                },
            )
        } else {
            self
        }
    }

    /// The router after a stop request to `a`.
    pub open spec fn after_stop(self, a: Address) -> RouterView {
        if self.live(a) {
            self.with_entry(a, RegistrationView { state: State::Stopping, ..self.entry(a) })
        } else {
            self
        }
    }

    /// What `shutdown` returns, as plain values: the envelopes still queued,
    /// which are undeliverable.
    pub open spec fn shutdown_result(self, a: Address) -> Result<Seq<EnvelopeView>, Error> {
        if !self.live(a) {
            Err(Error::UnknownAddress)
        } else if self.entry(a).state != State::Stopping || self.entry(a).busy {
            Err(Error::InvalidState)
        } else {
            Ok(self.entry(a).queue)
        }
    }

    /// The router after `shutdown` of `a`: the registration is gone.
    pub open spec fn after_shutdown(self, a: Address) -> RouterView {
        if self.shutdown_result(a) is Ok {
            RouterView { regs: self.regs.remove(self.slot(a)), ..self }
        } else {
            self
        }
    }
}

impl Router {
    /// An empty router with the given policy for full mailboxes.
    pub fn new(backpressure: Backpressure) -> (r: Router)
        ensures
            r@.wf(),
            r@.regs.len() == 0,
            r@.backpressure == backpressure,
            r.counter() == 0,
    {
        let r = Router { regs: Vec::new(), backpressure, next_id: 0 };
        assert(r@.regs =~= Seq::<RegistrationView>::empty());
        r
    }

    /// Where the search for a fresh address starts.
    pub closed spec fn counter(&self) -> u64 {
        self.next_id
    }

    /// The policy for full mailboxes.
    pub fn backpressure(&self) -> (r: Backpressure)
        ensures
            r == self@.backpressure,
    {
        self.backpressure
    }

    /// Index of the registration holding `a`.
    fn find(&self, a: Address) -> (r: Option<usize>)
        requires
            self@.wf(),
        ensures
            r matches Some(i) ==> self@.live(a) && i == self@.slot(a) && i < self@.regs.len(),
            r is None ==> !self@.live(a),
    {
        let mut i: usize = 0;
        while i < self.regs.len()
            invariant
                i <= self.regs@.len(),
                self@.wf(),
                self@.regs.len() == self.regs@.len(),
                forall|j: int| 0 <= j < i ==> self@.regs[j].address != a,
            decreases self.regs@.len() - i,
        {
            if self.regs[i].address == a {
                proof {
                    lemma_slot(self@, i as int);
                }
                return Some(i);
            }
            i = i + 1;
        }
        None
    }

    /// Whether a live registration holds `a`.
    pub fn is_registered(&self, a: Address) -> (r: bool)
        requires
            self@.wf(),
        ensures
            r == self@.live(a),
    {
        self.find(a).is_some()
    }

    /// Number of envelopes waiting in the mailbox of `a`; `None` when `a` is
    /// not registered.
    pub fn queued(&self, a: Address) -> (r: Option<usize>)
        requires
            self@.wf(),
        ensures
            !self@.live(a) ==> r is None,
            self@.live(a) ==> r == Some(self@.entry(a).queue.len() as usize),
    {
        match self.find(a) {
            None => None,
            Some(i) => Some(self.regs[i].queue.len()),
        }
    }

    /// Lifecycle state of the actor at `a`; `None` when `a` is not registered.
    pub fn state_of(&self, a: Address) -> (r: Option<State>)
        requires
            self@.wf(),
        ensures
            !self@.live(a) ==> r is None,
            self@.live(a) ==> r == Some(self@.entry(a).state),
    {
        match self.find(a) {
            None => None,
            Some(i) => Some(self.regs[i].state),
        }
    }

    /// Whether the actor at `a` holds a dequeued envelope whose handler has
    /// not finished; `None` when `a` is not registered.
    pub fn is_busy(&self, a: Address) -> (r: Option<bool>)
        requires
            self@.wf(),
        ensures
            !self@.live(a) ==> r is None,
            self@.live(a) ==> r == Some(self@.entry(a).busy),
    {
        match self.find(a) {
            None => None,
            Some(i) => Some(self.regs[i].busy),
        }
    }

    /// Routes one envelope: takes its next hop, looks the hop up, asks the
    /// hop's access control policy, and appends the envelope, with the hop
    /// moved onto its return route, to the hop's mailbox. Each failure leaves
    /// the router as it was.
    pub fn receive(&mut self, env: Envelope) -> (r: Result<Receipt, Error>)
        requires
            old(self)@.wf(),
        ensures
            final(self)@.wf(),
            final(self).counter() == old(self).counter(),
            final(self)@ == old(self)@.after_receive(env@),
            old(self)@.verdict(env@) == Verdict::Deliver ==> r matches Ok(Receipt::Delivered),
            old(self)@.verdict(env@) == Verdict::Wait ==> (r matches Ok(Receipt::Waiting(e)) && e@
                == env@),
            old(self)@.verdict(env@) matches Verdict::Fail(err) ==> r == Err::<Receipt, Error>(err),
    {
        let d = match env.next_hop() {
            None => {
                return Err(Error::DestinationUnreachable);
            },
            Some(d) => d,
        };
        let i = match self.find(d) {
            None => {
                return Err(Error::UnknownAddress);
            },
            Some(i) => i,
        };
        if !self.regs[i].policy.is_authorized(&env.return_route) {
            return Err(Error::AccessDenied);
        }
        if self.regs[i].state != State::Running {
            return Err(Error::MailboxClosed);
        }
        let full = match self.regs[i].capacity {
            Some(c) => self.regs[i].queue.len() >= c,
            None => false,
        };
        if full {
            match self.backpressure {
                Backpressure::Block => {
                    return Ok(Receipt::Waiting(env));
                },
                Backpressure::Reject => {
                    return Err(Error::MailboxFull);
                },
            }
        }
        let ghost before = self@;
        let mut env = env;
        env.step();
        let mut reg = self.regs.remove(i);
        let ghost old_reg = reg@;
        reg.queue.push(env);
        assert(reg@.queue =~= old_reg.queue.push(env@));
        self.regs.insert(i, reg);
        assert(self@.regs =~= before.regs.update(i as int, old_reg.with_queue(old_reg.queue.push(env@))));
        Ok(Receipt::Delivered)
    }

    /// Registers a worker whose `initialize` hook ended with `init`: it then
    /// runs at `address` under `policy`, with an empty mailbox of the given
    /// bound (`None`: unbounded). An address already live, or a failed
    /// initialization, leaves the router as it was.
    pub fn start(
        &mut self,
        address: Address,
        policy: AccessControl,
        capacity: Option<usize>,
        init: Result<(), Error>,
    ) -> (r: Result<(), Error>)
        requires
            old(self)@.wf(),
        ensures
            final(self)@.wf(),
            final(self).counter() == old(self).counter(),
            r == old(self)@.start_result(address, init),
            r is Ok ==> final(self)@ == (RouterView {
                regs: old(self)@.regs.push(
                    RegistrationView {
                        address,
                        policy,
                        queue: Seq::empty(),
                        capacity,
                        state: State::Running,
                        busy: false,
                    },
                ),
                ..old(self)@
            }),
            r is Err ==> final(self)@ == old(self)@,
    {
        if self.find(address).is_some() {
            return Err(Error::AddressInUse);
        }
        let state = match step(State::Starting, if init.is_ok() {
            Event::InitSucceeded
        } else {
            Event::InitFailed
        }) {
            Ok(State::Running) => State::Running,
            _ => {
                return Err(Error::WorkerInitFailed);
            },
        };
        let reg = Registration { address, policy, queue: Vec::new(), capacity, state, busy: false };
        assert(reg@.queue =~= Seq::<EnvelopeView>::empty());
        let ghost before = self@;
        self.regs.push(reg);
        assert(self@.regs =~= before.regs.push(reg@));
        Ok(())
    }

    /// Takes the oldest envelope out of the mailbox of `a` for its handler.
    /// Only a running actor that is not already handling an envelope
    /// dequeues; an empty mailbox gives `None`.
    pub fn dequeue(&mut self, a: Address) -> (r: Result<Option<Envelope>, Error>)
        requires
            old(self)@.wf(),
        ensures
            final(self)@.wf(),
            final(self).counter() == old(self).counter(),
            final(self)@ == old(self)@.after_dequeue(a),
            match r {
                Ok(Some(e)) => old(self)@.dequeue_result(a) == Ok::<Option<EnvelopeView>, Error>(
                    Some(e@),
                ),
                Ok(None) => old(self)@.dequeue_result(a) == Ok::<Option<EnvelopeView>, Error>(None),
                Err(x) => old(self)@.dequeue_result(a) == Err::<Option<EnvelopeView>, Error>(x),
            },
    {
        let i = match self.find(a) {
            None => {
                return Err(Error::UnknownAddress);
            },
            Some(i) => i,
        };
        if self.regs[i].state != State::Running || self.regs[i].busy {
            return Err(Error::InvalidState);
        }
        if self.regs[i].queue.len() == 0 {
            return Ok(None);
        }
        let ghost before = self@;
        let mut reg = self.regs.remove(i);
        let ghost old_reg = reg@;
        assert(before.regs[i as int].wf());
        let e = reg.queue.remove(0);
        reg.busy = true;
        assert(reg@.queue =~= old_reg.queue.drop_first());
        self.regs.insert(i, reg);
        assert(self@.regs =~= before.regs.update(
            i as int,
            RegistrationView { queue: old_reg.queue.drop_first(), busy: true, ..old_reg },
        ));
        Ok(Some(e))
    }
    /// Reports that the handler at `a` finished the envelope it dequeued,
    /// with `outcome`. A failure is not retried: it stops the actor.
    pub fn finish(&mut self, a: Address, outcome: Result<(), Error>) -> (r: Result<(), Error>)
        requires
            old(self)@.wf(),
        ensures
            final(self)@.wf(),
            final(self).counter() == old(self).counter(),
            r == old(self)@.finish_result(a),
            final(self)@ == old(self)@.after_finish(a, outcome),
    {
        let i = match self.find(a) {
            None => {
                return Err(Error::UnknownAddress);
            },
            Some(i) => i,
        };
        if !self.regs[i].busy {
            return Err(Error::InvalidState);
        }
        let ghost before = self@;
        assert(before.regs[i as int].wf());
        let mut reg = self.regs.remove(i);
        let ghost old_reg = reg@;
        reg.busy = false;
        if outcome.is_err() {
            match step(reg.state, Event::HandlerFailed) {
                Ok(s) => {
                    reg.state = s;
                },
                Err(_) => {},
            }
        }
        assert(reg@.queue =~= old_reg.queue);
        self.regs.insert(i, reg);
        assert(self@.regs =~= before.regs.update(
            i as int,
            RegistrationView {
                busy: false,
                state: if outcome is Err && old_reg.state == State::Running {
                    State::Stopping
                } else {
                    old_reg.state
                },
                ..old_reg
            },
        ));
        Ok(())
    }

    /// Asks the actor at `a` to stop: it dequeues nothing more and takes no
    /// new envelopes, while an envelope already in hand still finishes.
    pub fn stop(&mut self, a: Address) -> (r: Result<(), Error>)
        requires
            old(self)@.wf(),
        ensures
            final(self)@.wf(),
            final(self).counter() == old(self).counter(),
            r is Ok <==> old(self)@.live(a),
            r is Err ==> r == Err::<(), Error>(Error::UnknownAddress),
            final(self)@ == old(self)@.after_stop(a),
    {
        let i = match self.find(a) {
            None => {
                return Err(Error::UnknownAddress);
            },
            Some(i) => i,
        };
        let ghost before = self@;
        assert(before.regs[i as int].wf());
        let mut reg = self.regs.remove(i);
        let ghost old_reg = reg@;
        reg.state = match step(reg.state, Event::StopRequested) {
            Ok(s) => s,
            Err(_) => State::Stopping,
        };
        assert(reg@.queue =~= old_reg.queue);
        self.regs.insert(i, reg);
        assert(self@.regs =~= before.regs.update(
            i as int,
            RegistrationView { state: State::Stopping, ..old_reg },
        ));
        Ok(())
    }

    /// Completes the shutdown of a stopping actor that holds no envelope:
    /// its registration is removed, so the address can be registered again,
    /// and the envelopes still queued come back as undeliverable.
    pub fn shutdown(&mut self, a: Address) -> (r: Result<Vec<Envelope>, Error>)
        requires
            old(self)@.wf(),
        ensures
            final(self)@.wf(),
            final(self).counter() == old(self).counter(),
            final(self)@ == old(self)@.after_shutdown(a),
            match r {
                Ok(v) => old(self)@.shutdown_result(a) == Ok::<Seq<EnvelopeView>, Error>(
                    v@.map_values(|e: Envelope| e@),
                ),
                Err(x) => old(self)@.shutdown_result(a) == Err::<Seq<EnvelopeView>, Error>(x),
            },
    {
        let i = match self.find(a) {
            None => {
                return Err(Error::UnknownAddress);
            },
            Some(i) => i,
        };
        if self.regs[i].state != State::Stopping || self.regs[i].busy {
            return Err(Error::InvalidState);
        }
        let ghost before = self@;
        let reg = self.regs.remove(i);
        assert(self@.regs =~= before.regs.remove(i as int));
        assert(self@.wf()) by {
            assert forall|j: int| 0 <= j < self@.regs.len() implies #[trigger] self@.regs[j].wf() by {
                if j < i {
                    assert(before.regs[j].wf());
                } else {
                    assert(before.regs[j + 1].wf());
                }
            }
        }
        Ok(reg.queue)
    }

    /// An address of this process that no live registration holds, taken
    /// from a counter; `None` only when every identifier from the counter up
    /// is taken.
    pub fn fresh_address(&mut self) -> (r: Option<Address>)
        requires
            old(self)@.wf(),
        ensures
            final(self)@ == old(self)@,
            r matches Some(a) ==> a.kind == LOCAL && !old(self)@.live(a) && a.id >= old(self).counter()
                && final(self).counter() == (if a.id < u64::MAX {
                (a.id + 1) as u64
            } else {
                old(self).counter()
            }),
            r is None ==> final(self).counter() == old(self).counter(),
            r is None ==> forall|k: u64|
                k >= old(self).counter() ==> #[trigger] old(self)@.live(Address { kind: LOCAL, id: k }),
    {
        let mut id: u64 = self.next_id;
        loop
            invariant
                self@.wf(),
                self@ == old(self)@,
                self.next_id == old(self).next_id,
                old(self).next_id <= id,
                forall|k: u64| old(self).next_id <= k < id ==> #[trigger] self@.live(Address { kind: LOCAL, id: k }),
            decreases u64::MAX - id,
        {
            let a = Address::local(id);
            if self.find(a).is_none() {
                if id < u64::MAX {
                    self.next_id = id + 1;
                }
                return Some(a);
            }
            if id == u64::MAX {
                return None;
            }
            id = id + 1;
        }
    }

}

/// In a well-formed router the registration holding `a` is the one at `slot(a)`.
pub proof fn lemma_slot(r: RouterView, i: int)
    requires
        r.wf(),
        0 <= i < r.regs.len(),
    ensures
        r.live(r.regs[i].address),
        r.slot(r.regs[i].address) == i,
{
    let a = r.regs[i].address;
    assert(r.live(a));
    let j = r.slot(a);
    assert(0 <= j < r.regs.len() && r.regs[j].address == a);
}

/// `n` has the registrations of `r`, in the same places, differing at most in
/// what their mailboxes hold.
spec fn same_shape(r: RouterView, n: RouterView) -> bool {
    &&& n.regs.len() == r.regs.len()
    &&& n.backpressure == r.backpressure
    &&& forall|i: int|
        0 <= i < r.regs.len() ==> (#[trigger] n.regs[i]).address == r.regs[i].address
            && n.regs[i].policy == r.regs[i].policy && n.regs[i].state == r.regs[i].state
            && n.regs[i].capacity == r.regs[i].capacity && n.regs[i].busy == r.regs[i].busy
}

proof fn lemma_same_shape_slot(r: RouterView, n: RouterView, a: Address)
    requires
        r.wf(),
        n.wf(),
        same_shape(r, n),
    ensures
        n.live(a) == r.live(a),
        r.live(a) ==> n.slot(a) == r.slot(a),
{
    if r.live(a) {
        lemma_slot(r, r.slot(a));
        assert(n.regs[r.slot(a)].address == a);
        lemma_slot(n, r.slot(a));
    }
    if n.live(a) {
        lemma_slot(n, n.slot(a));
        assert(r.regs[n.slot(a)].address == a);
    }
}

/// `receive` keeps a router well formed, and changes at most the mailbox
/// of the envelope's next hop, by appending the envelope after its hop.
proof fn lemma_receive_frame(r: RouterView, e: EnvelopeView)
    requires
        r.wf(),
    ensures
        r.after_receive(e).wf(),
        same_shape(r, r.after_receive(e)),
        forall|i: int|
            0 <= i < r.regs.len() && !(r.verdict(e) == Verdict::Deliver && i == r.slot(e.onward[0]))
                ==> #[trigger] r.after_receive(e).regs[i] == r.regs[i],
        r.verdict(e) == Verdict::Deliver ==> r.after_receive(e).regs[r.slot(e.onward[0])]
            == r.entry(e.onward[0]).with_queue(r.entry(e.onward[0]).queue.push(e.hop())),
{
    if r.verdict(e) == Verdict::Deliver {
        let d = e.onward[0];
        let i = r.slot(d);
        assert(r.regs[i].wf());
        let n = r.after_receive(e);
        assert forall|j: int| 0 <= j < n.regs.len() implies #[trigger] n.regs[j].wf() by {
            if j != i {
                assert(r.regs[j].wf());
            }
        }
    }
}

/// Receiving a sequence and then one more envelope is receiving the longer
/// sequence; the envelopes handed back are those of the sequence, then the
/// last one if it is handed back too.
pub proof fn lemma_receive_all_push(r: RouterView, es: Seq<EnvelopeView>, e: EnvelopeView)
    ensures
        r.receive_all(es.push(e)) == r.receive_all(es).after_receive(e),
        r.waiting_of(es.push(e)) == r.waiting_of(es) + (if r.receive_all(es).verdict(e)
            == Verdict::Wait {
            seq![e]
        } else {
            Seq::<EnvelopeView>::empty()
        }),
    decreases es.len(),
{
    if es.len() == 0 {
        assert(es.push(e).drop_first() =~= Seq::<EnvelopeView>::empty());
        assert(es.push(e)[0] == e);
        assert(r.after_receive(e).receive_all(Seq::<EnvelopeView>::empty()) == r.after_receive(e));
        assert(r.after_receive(e).waiting_of(Seq::<EnvelopeView>::empty()) == Seq::<
            EnvelopeView,
        >::empty());
        assert(r.waiting_of(es) == Seq::<EnvelopeView>::empty());
        assert(r.waiting_of(es.push(e)) =~= r.waiting_of(es) + (if r.receive_all(es).verdict(e)
            == Verdict::Wait {
            seq![e]
        } else {
            Seq::<EnvelopeView>::empty()
        }));
    } else {
        assert(es.push(e).drop_first() =~= es.drop_first().push(e));
        assert(es.push(e)[0] == es[0]);
        lemma_receive_all_push(r.after_receive(es[0]), es.drop_first(), e);
        assert(r.waiting_of(es.push(e)) =~= r.waiting_of(es) + (if r.receive_all(es).verdict(e)
            == Verdict::Wait {
            seq![e]
        } else {
            Seq::<EnvelopeView>::empty()
        }));
    }
}

/// The first address of an empty route is "none": receiving an envelope
/// whose onward route is empty fails with `DestinationUnreachable` and
/// changes no mailbox.
pub proof fn lemma_empty_route_unreachable(r: RouterView, e: EnvelopeView)
    requires
        e.onward.len() == 0,
    ensures
        r.verdict(e) == Verdict::Fail(Error::DestinationUnreachable),
        r.after_receive(e) == r,
{
}

/// Delivering to the first address `a` of the onward route leaves, at the
/// end of a's mailbox, the envelope with the rest of the onward route and
/// with `a` in front of its return route; no other mailbox changes.
pub proof fn lemma_hop_at_destination(r: RouterView, e: EnvelopeView)
    requires
        r.wf(),
        r.verdict(e) == Verdict::Deliver,
    ensures
        r.after_receive(e).live(e.onward[0]),
        r.after_receive(e).entry(e.onward[0]).queue == r.entry(e.onward[0]).queue.push(e.hop()),
        e.hop().onward == e.onward.drop_first(),
        e.hop().ret == seq![e.onward[0]] + e.ret,
        e.hop().payload == e.payload,
        forall|b: Address|
            r.live(b) && b != e.onward[0] ==> #[trigger] r.after_receive(e).entry(b) == r.entry(b),
{
    let n = r.after_receive(e);
    lemma_receive_frame(r, e);
    lemma_same_shape_slot(r, n, e.onward[0]);
    assert forall|b: Address| r.live(b) && b != e.onward[0] implies #[trigger] n.entry(b) == r.entry(
        b,
    ) by {
        lemma_same_shape_slot(r, n, b);
        lemma_slot(r, r.slot(b));
    }
}

/// A destination whose policy allows nothing never gets an envelope: every
/// envelope addressed to it is refused with `AccessDenied`, and after any
/// sequence of envelopes, addressed anywhere, its mailbox is as it was.
pub proof fn lemma_deny_all_never_delivers(r: RouterView, x: Address, es: Seq<EnvelopeView>)
    requires
        r.wf(),
        r.live(x),
        forall|p: Seq<Address>| !(#[trigger] r.entry(x).policy.allows(p)),
    ensures
        forall|e: EnvelopeView|
            e.onward.len() > 0 && e.onward[0] == x ==> #[trigger] r.verdict(e) == Verdict::Fail(
                Error::AccessDenied,
            ),
        r.receive_all(es).wf(),
        r.receive_all(es).live(x),
        r.receive_all(es).entry(x) == r.entry(x),
    decreases es.len(),
{
    if es.len() > 0 {
        let e = es[0];
        let n = r.after_receive(e);
        lemma_receive_frame(r, e);
        lemma_same_shape_slot(r, n, x);
        if r.verdict(e) == Verdict::Deliver {
            assert(r.entry(e.onward[0]).policy.allows(e.ret));
            lemma_slot(r, r.slot(x));
        }
        assert(n.entry(x) == r.entry(x));
        lemma_deny_all_never_delivers(n, x, es.drop_first());
    }
}

/// Envelopes sent one after another to a running destination that allows
/// them, with room for all of them, are each delivered exactly once, and its
/// mailbox then holds them in the order they were sent.
pub proof fn lemma_delivered_in_send_order(r: RouterView, d: Address, es: Seq<EnvelopeView>)
    requires
        r.wf(),
        r.live(d),
        r.entry(d).state == State::Running,
        forall|k: int|
            0 <= k < es.len() ==> (#[trigger] es[k]).onward.len() > 0 && es[k].onward[0] == d
                && r.entry(d).policy.allows(es[k].ret),
        r.entry(d).capacity matches Some(c) ==> r.entry(d).queue.len() + es.len() <= c,
    ensures
        r.receive_all(es).wf(),
        r.receive_all(es).live(d),
        r.receive_all(es).entry(d).queue == r.entry(d).queue + es.map_values(
            |e: EnvelopeView| e.hop(),
        ),
    decreases es.len(),
{
    if es.len() == 0 {
        assert(r.entry(d).queue + es.map_values(|e: EnvelopeView| e.hop()) =~= r.entry(d).queue);
    } else {
        let e = es[0];
        assert(es[0].onward.len() > 0);
        assert(r.verdict(e) == Verdict::Deliver);
        let n = r.after_receive(e);
        lemma_hop_at_destination(r, e);
        lemma_receive_frame(r, e);
        lemma_same_shape_slot(r, n, d);
        let rest = es.drop_first();
        assert forall|k: int| 0 <= k < rest.len() implies (#[trigger] rest[k]).onward.len() > 0
            && rest[k].onward[0] == d && n.entry(d).policy.allows(rest[k].ret) by {
            assert(rest[k] == es[k + 1]);
        }
        lemma_delivered_in_send_order(n, d, rest);
        assert(r.entry(d).queue.push(e.hop()) + rest.map_values(|e: EnvelopeView| e.hop())
            =~= r.entry(d).queue + es.map_values(|e: EnvelopeView| e.hop()));
    }
}

/// Once an actor has completed its shutdown, which it can only do with no
/// dequeued envelope still in hand, an envelope sent to its former address
/// fails with `UnknownAddress` and changes nothing.
pub proof fn lemma_shutdown_then_unknown(r: RouterView, a: Address, e: EnvelopeView)
    requires
        r.wf(),
        r.shutdown_result(a) is Ok,
        e.onward.len() > 0,
        e.onward[0] == a,
    ensures
        !r.entry(a).busy,
        !r.after_shutdown(a).live(a),
        r.after_shutdown(a).verdict(e) == Verdict::Fail(Error::UnknownAddress),
        r.after_shutdown(a).after_receive(e) == r.after_shutdown(a),
{
    let n = r.after_shutdown(a);
    let i = r.slot(a);
    lemma_slot(r, i);
    if n.live(a) {
        let j = choose|j: int| 0 <= j < n.regs.len() && n.regs[j].address == a;
        if j < i {
            assert(n.regs[j] == r.regs[j]);
        } else {
            assert(n.regs[j] == r.regs[j + 1]);
        }
    }
}

} // verus!
