use ockam_core::access_control::AccessControl;
use ockam_core::address::Address;
use ockam_core::context::Context;
use ockam_core::error::Error;
use ockam_core::lifecycle::State;
use ockam_core::message::Envelope;
use ockam_core::route::Route;
use ockam_core::router::{Backpressure, Router};
use ockam_core::worker::{
    dispatch, poll_processor, spawn_worker, start_processor, start_worker, stop_worker, Processor, Worker,
};

/// Replies to every envelope along its return route, and counts what it saw.
struct Echo {
    seen: Vec<Vec<u8>>,
    fail_on: Option<u8>,
    init_ok: bool,
    shut: bool,
}

impl Echo {
    fn new() -> Echo {
        Echo { seen: Vec::new(), fail_on: None, init_ok: true, shut: false }
    }
}

impl Worker for Echo {
    fn initialize(&mut self, _ctx: &Context) -> Result<(), Error> {
        if self.init_ok { Ok(()) } else { Err(Error::HandlerFailed) }
    }

    fn handle(&mut self, ctx: &Context, msg: Envelope) -> Result<Vec<Envelope>, Error> {
        if self.fail_on.is_some() && msg.payload.first().copied() == self.fail_on {
            return Err(Error::HandlerFailed);
        }
        self.seen.push(msg.payload.clone());
        let mut onward = Route::new();
        for a in msg.return_route.to_vec().into_iter().skip(1) {
            onward.push_back(a);
        }
        Ok(vec![ctx.envelope(msg.payload.clone(), onward)])
    }

    fn shutdown(&mut self, _ctx: &Context) -> Result<(), Error> {
        self.shut = true;
        Ok(())
    }
}

struct Countdown {
    left: u32,
}

impl Processor for Countdown {
    fn initialize(&mut self, _ctx: &Context) -> Result<(), Error> {
        Ok(())
    }

    fn poll(&mut self, _ctx: &Context) -> Result<bool, Error> {
        if self.left == 0 {
            return Ok(false);
        }
        self.left -= 1;
        Ok(true)
    }

    fn shutdown(&mut self, _ctx: &Context) -> Result<(), Error> {
        Ok(())
    }
}

fn addr(id: u64) -> Address {
    Address::local(id)
}

fn route(ids: &[u64]) -> Route {
    Route::from_vec(ids.iter().map(|i| addr(*i)).collect())
}

#[test]
fn worker_handles_and_replies_along_return_route() {
    let mut r = Router::new(Backpressure::Reject);
    let mut client = Echo::new();
    let mut echo = Echo::new();
    let cctx = start_worker(&mut r, addr(1), AccessControl::AllowAll, None, &mut client).unwrap();
    let ectx = start_worker(&mut r, addr(2), AccessControl::AllowAll, None, &mut echo).unwrap();
    assert!(cctx.send(&mut r, b"ping".to_vec(), route(&[2])).is_ok());
    let waiting = dispatch(&mut r, &ectx, &mut echo).unwrap().unwrap();
    assert!(waiting.is_empty());
    assert_eq!(echo.seen, vec![b"ping".to_vec()]);
    // the reply went back to the client along the return route
    assert_eq!(r.queued(addr(1)), Some(1));
    assert!(matches!(dispatch(&mut r, &ectx, &mut echo), Ok(None)));
}

#[test]
fn worker_at_live_address_is_refused_before_initialize() {
    let mut r = Router::new(Backpressure::Reject);
    let mut a = Echo::new();
    let mut b = Echo::new();
    start_worker(&mut r, addr(1), AccessControl::AllowAll, None, &mut a).unwrap();
    assert!(matches!(start_worker(&mut r, addr(1), AccessControl::DenyAll, None, &mut b), Err(Error::AddressInUse)));
    let mut bad = Echo::new();
    bad.init_ok = false;
    assert!(matches!(start_worker(&mut r, addr(2), AccessControl::AllowAll, None, &mut bad), Err(Error::WorkerInitFailed)));
    assert!(!r.is_registered(addr(2)));
}

#[test]
fn failing_handler_stops_the_worker() {
    let mut r = Router::new(Backpressure::Reject);
    let mut w = Echo::new();
    w.fail_on = Some(b'x');
    let ctx = start_worker(&mut r, addr(3), AccessControl::AllowAll, None, &mut w).unwrap();
    let sender = Context::new(addr(9));
    assert!(sender.send(&mut r, b"x".to_vec(), route(&[3])).is_ok());
    assert!(sender.send(&mut r, b"y".to_vec(), route(&[3])).is_ok());
    assert!(dispatch(&mut r, &ctx, &mut w).is_ok());
    assert_eq!(r.state_of(addr(3)), Some(State::Stopping));
    assert!(matches!(dispatch(&mut r, &ctx, &mut w), Err(Error::InvalidState)));
    let left = stop_worker(&mut r, &ctx, &mut w).unwrap();
    assert_eq!(left.len(), 1);
    assert!(w.shut);
    assert!(matches!(sender.send(&mut r, b"z".to_vec(), route(&[3])), Err(Error::UnknownAddress)));
}

#[test]
fn stopping_an_unknown_worker_fails() {
    let mut r = Router::new(Backpressure::Reject);
    let mut w = Echo::new();
    let ctx = Context::new(addr(4));
    assert!(matches!(stop_worker(&mut r, &ctx, &mut w), Err(Error::UnknownAddress)));
}

#[test]
fn processor_polls_until_it_asks_to_stop() {
    let mut r = Router::new(Backpressure::Reject);
    let mut p = Countdown { left: 2 };
    let ctx = start_processor(&mut r, addr(5), AccessControl::AllowAll, &mut p).unwrap();
    assert_eq!(poll_processor(&mut r, &ctx, &mut p), Ok(true));
    assert_eq!(poll_processor(&mut r, &ctx, &mut p), Ok(true));
    assert_eq!(poll_processor(&mut r, &ctx, &mut p), Ok(false));
    assert_eq!(r.state_of(addr(5)), Some(State::Stopping));
    assert_eq!(poll_processor(&mut r, &ctx, &mut p), Ok(false));
    assert_eq!(poll_processor(&mut r, &Context::new(addr(6)), &mut p), Err(Error::UnknownAddress));
}

#[test]
fn spawned_worker_gets_a_fresh_address() {
    let mut r = Router::new(Backpressure::Reject);
    let mut first = Echo::new();
    start_worker(&mut r, addr(0), AccessControl::AllowAll, None, &mut first).unwrap();
    let mut w = Echo::new();
    let ctx = spawn_worker(&mut r, AccessControl::AllowAll, None, &mut w).unwrap();
    assert_eq!(ctx.address(), addr(1));
    assert!(r.is_registered(addr(1)));
    let mut bad = Echo::new();
    bad.init_ok = false;
    assert!(matches!(spawn_worker(&mut r, AccessControl::AllowAll, None, &mut bad), Err(Error::WorkerInitFailed)));
}

#[test]
fn parked_replies_come_back_under_block_policy() {
    let mut r = Router::new(Backpressure::Block);
    let mut client = Echo::new();
    let mut echo = Echo::new();
    let cctx = start_worker(&mut r, addr(1), AccessControl::AllowAll, Some(0), &mut client).unwrap();
    let ectx = start_worker(&mut r, addr(2), AccessControl::AllowAll, None, &mut echo).unwrap();
    assert!(cctx.send(&mut r, b"ping".to_vec(), route(&[2])).is_ok());
    let parked = dispatch(&mut r, &ectx, &mut echo).unwrap().unwrap();
    assert_eq!(parked.len(), 1);
    assert_eq!(parked[0].payload, b"ping".to_vec());
    assert_eq!(parked[0].onward_route.to_vec(), vec![addr(1)]);
}
