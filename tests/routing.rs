use ockam_core::access_control::AccessControl;
use ockam_core::address::{Address, LOCAL};
use ockam_core::context::Context;
use ockam_core::error::Error;
use ockam_core::lifecycle::{after_poll, dequeues, step, Event, State};
use ockam_core::message::Envelope;
use ockam_core::route::Route;
use ockam_core::router::{Backpressure, Receipt, Router};
use ockam_core::AsyncTryClone;

fn addr(id: u64) -> Address {
    Address::local(id)
}

fn route(ids: &[u64]) -> Route {
    let mut r = Route::new();
    for id in ids {
        r.push_back(addr(*id));
    }
    r
}

fn ids(r: &Route) -> Vec<u64> {
    r.to_vec().iter().map(|a| a.id).collect()
}

fn env(payload: &[u8], onward: &[u64], ret: &[u64]) -> Envelope {
    Envelope::new(payload.to_vec(), route(onward), route(ret))
}

fn router_with(ids: &[u64], policy: fn() -> AccessControl, cap: Option<usize>, bp: Backpressure) -> Router {
    let mut r = Router::new(bp);
    for id in ids {
        assert_eq!(r.start(addr(*id), policy(), cap, Ok(())), Ok(()));
    }
    r
}

fn allow() -> AccessControl {
    AccessControl::AllowAll
}

fn deny() -> AccessControl {
    AccessControl::DenyAll
}

fn delivered(r: Result<Receipt, Error>) -> bool {
    matches!(r, Ok(Receipt::Delivered))
}

#[test]
fn pop_front_on_empty_route_is_none() {
    let mut r = Route::new();
    assert!(r.is_empty());
    assert_eq!(r.pop_front(), None);
    assert!(r.is_empty());
}

#[test]
fn route_push_and_pop_in_order() {
    let mut r = route(&[1, 2]);
    r.push_front(addr(0));
    r.push_back(addr(3));
    assert_eq!(r.len(), 4);
    assert_eq!(r.next(), Some(addr(0)));
    assert_eq!(r.pop_front(), Some(addr(0)));
    assert_eq!(ids(&r), vec![1, 2, 3]);
}

#[test]
fn empty_onward_route_is_unreachable_without_side_effects() {
    let mut r = router_with(&[1], allow, None, Backpressure::Reject);
    let res = r.receive(env(b"x", &[], &[9]));
    assert!(matches!(res, Err(Error::DestinationUnreachable)));
    assert_eq!(r.queued(addr(1)), Some(0));
}

#[test]
fn hop_moves_address_to_return_route() {
    let mut r = router_with(&[1, 2, 3], allow, None, Backpressure::Reject);
    assert!(delivered(r.receive(env(b"hi", &[1, 2, 3], &[]))));
    let got = r.dequeue(addr(1)).unwrap().unwrap();
    assert_eq!(ids(&got.onward_route), vec![2, 3]);
    assert_eq!(ids(&got.return_route), vec![1]);
    assert_eq!(got.payload, b"hi".to_vec());
    assert_eq!(r.queued(addr(2)), Some(0));
}

#[test]
fn envelope_step_transforms_routes() {
    let mut e = env(b"p", &[1, 2], &[7]);
    assert_eq!(e.step(), Some(addr(1)));
    assert_eq!(ids(&e.onward_route), vec![2]);
    assert_eq!(ids(&e.return_route), vec![1, 7]);
    let mut empty = env(b"p", &[], &[7]);
    assert_eq!(empty.step(), None);
    assert_eq!(ids(&empty.return_route), vec![7]);
}

#[test]
fn deny_all_never_reaches_destination() {
    let mut r = router_with(&[5], deny, None, Backpressure::Reject);
    for i in 0..10u8 {
        let res = r.receive(env(&[i], &[5], &[1]));
        assert!(matches!(res, Err(Error::AccessDenied)));
    }
    assert_eq!(r.queued(addr(5)), Some(0));
    assert!(matches!(r.dequeue(addr(5)), Ok(None)));
}

#[test]
fn allow_all_delivers_each_once_in_order() {
    let mut r = router_with(&[5], allow, None, Backpressure::Reject);
    for i in 0..5u8 {
        assert!(delivered(r.receive(env(&[i], &[5], &[1]))));
    }
    assert_eq!(r.queued(addr(5)), Some(5));
    for i in 0..5u8 {
        let e = r.dequeue(addr(5)).unwrap().unwrap();
        assert_eq!(e.payload, vec![i]);
        assert_eq!(r.finish(addr(5), Ok(())), Ok(()));
    }
    assert!(matches!(r.dequeue(addr(5)), Ok(None)));
}

#[test]
fn and_or_of_allow_and_deny() {
    let and = AccessControl::and(AccessControl::AllowAll, AccessControl::DenyAll);
    let or = AccessControl::or(AccessControl::AllowAll, AccessControl::DenyAll);
    for prov in [route(&[]), route(&[1]), route(&[2, 3])] {
        assert!(!and.is_authorized(&prov));
        assert!(or.is_authorized(&prov));
    }
}

#[test]
fn allow_list_checks_the_source() {
    let p = AccessControl::AllowList(vec![addr(1), addr(2)]);
    assert!(p.is_authorized(&route(&[2, 9])));
    assert!(!p.is_authorized(&route(&[9, 2])));
    assert!(!p.is_authorized(&route(&[])));
    let mut r = Router::new(Backpressure::Reject);
    assert_eq!(r.start(addr(7), AccessControl::AllowList(vec![addr(1)]), None, Ok(())), Ok(()));
    assert!(matches!(r.receive(env(b"a", &[7], &[3])), Err(Error::AccessDenied)));
    assert!(delivered(r.receive(env(b"b", &[7], &[1]))));
    assert_eq!(r.queued(addr(7)), Some(1));
}

#[test]
fn second_registration_at_live_address_fails() {
    let mut r = router_with(&[4], allow, Some(3), Backpressure::Reject);
    assert!(delivered(r.receive(env(b"a", &[4], &[1]))));
    assert_eq!(r.start(addr(4), AccessControl::DenyAll, None, Ok(())), Err(Error::AddressInUse));
    assert_eq!(r.queued(addr(4)), Some(1));
    assert!(delivered(r.receive(env(b"b", &[4], &[1]))));
    assert_eq!(r.queued(addr(4)), Some(2));
}

#[test]
fn failed_initialization_is_never_registered() {
    let mut r = Router::new(Backpressure::Reject);
    assert_eq!(r.start(addr(4), allow(), None, Err(Error::HandlerFailed)), Err(Error::WorkerInitFailed));
    assert!(!r.is_registered(addr(4)));
    assert!(matches!(r.receive(env(b"a", &[4], &[1])), Err(Error::UnknownAddress)));
}

#[test]
fn unknown_address_is_reported() {
    let mut r = router_with(&[1], allow, None, Backpressure::Reject);
    assert!(matches!(r.receive(env(b"a", &[2], &[1])), Err(Error::UnknownAddress)));
    assert_eq!(r.queued(addr(1)), Some(0));
}

#[test]
fn send_after_shutdown_is_unknown_address() {
    let mut r = router_with(&[3], allow, None, Backpressure::Reject);
    assert!(delivered(r.receive(env(b"a", &[3], &[1]))));
    assert!(delivered(r.receive(env(b"b", &[3], &[1]))));
    let first = r.dequeue(addr(3)).unwrap().unwrap();
    assert_eq!(first.payload, b"a".to_vec());
    assert_eq!(r.stop(addr(3)), Ok(()));
    assert_eq!(r.state_of(addr(3)), Some(State::Stopping));
    // the envelope in hand must finish before the shutdown completes
    assert!(matches!(r.shutdown(addr(3)), Err(Error::InvalidState)));
    assert!(matches!(r.dequeue(addr(3)), Err(Error::InvalidState)));
    assert!(matches!(r.receive(env(b"c", &[3], &[1])), Err(Error::MailboxClosed)));
    assert_eq!(r.finish(addr(3), Ok(())), Ok(()));
    let left = r.shutdown(addr(3)).unwrap();
    assert_eq!(left.len(), 1);
    assert_eq!(left[0].payload, b"b".to_vec());
    assert!(!r.is_registered(addr(3)));
    assert!(matches!(r.receive(env(b"d", &[3], &[1])), Err(Error::UnknownAddress)));
    // the address can be taken again
    assert_eq!(r.start(addr(3), allow(), None, Ok(())), Ok(()));
}

#[test]
fn three_sends_from_one_context_keep_order() {
    let mut r = router_with(&[8], allow, None, Backpressure::Reject);
    let ctx = Context::new(addr(1));
    for m in [b"M1", b"M2", b"M3"] {
        assert!(delivered(ctx.send(&mut r, m.to_vec(), route(&[8]))));
    }
    for m in [b"M1", b"M2", b"M3"] {
        let e = r.dequeue(addr(8)).unwrap().unwrap();
        assert_eq!(e.payload, m.to_vec());
        assert_eq!(ids(&e.return_route), vec![8, 1]);
        assert_eq!(r.finish(addr(8), Ok(())), Ok(()));
    }
}

#[test]
fn full_mailbox_rejects_under_reject_policy() {
    let mut r = router_with(&[2], allow, Some(1), Backpressure::Reject);
    assert!(delivered(r.receive(env(b"a", &[2], &[1]))));
    assert!(matches!(r.receive(env(b"b", &[2], &[1])), Err(Error::MailboxFull)));
    assert_eq!(r.queued(addr(2)), Some(1));
}

#[test]
fn full_mailbox_hands_back_under_block_policy() {
    let mut r = router_with(&[2], allow, Some(1), Backpressure::Block);
    assert_eq!(r.backpressure(), Backpressure::Block);
    assert!(delivered(r.receive(env(b"a", &[2], &[1]))));
    let back = match r.receive(env(b"b", &[2], &[1])) {
        Ok(Receipt::Waiting(e)) => e,
        _ => panic!("expected the envelope back"),
    };
    assert_eq!(ids(&back.onward_route), vec![2]);
    assert_eq!(ids(&back.return_route), vec![1]);
    r.dequeue(addr(2)).unwrap().unwrap();
    assert!(delivered(r.receive(back)));
}

#[test]
fn handler_failure_stops_worker() {
    let mut r = router_with(&[6], allow, None, Backpressure::Reject);
    assert!(delivered(r.receive(env(b"a", &[6], &[1]))));
    assert!(matches!(r.finish(addr(6), Ok(())), Err(Error::InvalidState)));
    r.dequeue(addr(6)).unwrap().unwrap();
    assert!(matches!(r.dequeue(addr(6)), Err(Error::InvalidState)));
    assert_eq!(r.finish(addr(6), Err(Error::HandlerFailed)), Ok(()));
    assert_eq!(r.state_of(addr(6)), Some(State::Stopping));
    assert!(matches!(r.shutdown(addr(6)), Ok(v) if v.is_empty()));
    assert_eq!(r.state_of(addr(6)), None);
}

#[test]
fn lifecycle_transitions() {
    assert_eq!(step(State::Starting, Event::InitSucceeded), Ok(State::Running));
    assert_eq!(step(State::Starting, Event::InitFailed), Ok(State::Stopped));
    assert_eq!(step(State::Running, Event::StopRequested), Ok(State::Stopping));
    assert_eq!(step(State::Running, Event::HandlerFailed), Ok(State::Stopping));
    assert_eq!(step(State::Stopping, Event::ShutdownDone), Ok(State::Stopped));
    assert_eq!(step(State::Stopped, Event::InitSucceeded), Err(Error::InvalidState));
    assert_eq!(step(State::Running, Event::ShutdownDone), Err(Error::InvalidState));
    assert!(dequeues(State::Running));
    assert!(!dequeues(State::Stopping));
}

#[test]
fn processor_poll_outcomes() {
    assert_eq!(after_poll(State::Running, Ok(true)), State::Running);
    assert_eq!(after_poll(State::Running, Ok(false)), State::Stopping);
    assert_eq!(after_poll(State::Running, Err(Error::HandlerFailed)), State::Stopping);
    assert_eq!(after_poll(State::Stopped, Ok(false)), State::Stopped);
}

#[test]
fn spawn_allocates_fresh_addresses() {
    let mut r = Router::new(Backpressure::Reject);
    assert_eq!(r.start(addr(0), allow(), None, Ok(())), Ok(()));
    let ctx = Context::new(addr(0));
    let a = ctx.spawn(&mut r, allow(), None, Ok(())).unwrap();
    let b = ctx.spawn(&mut r, allow(), None, Ok(())).unwrap();
    assert_ne!(a.address(), b.address());
    assert_ne!(a.address(), addr(0));
    assert_eq!(a.address().kind, LOCAL);
    assert!(r.is_registered(a.address()));
    assert!(r.is_registered(b.address()));
    assert!(matches!(ctx.spawn(&mut r, allow(), None, Err(Error::HandlerFailed)), Err(Error::WorkerInitFailed)));
}

#[test]
fn try_clone_copies_values() {
    let e = env(b"xyz", &[1, 2], &[3]);
    let c = e.async_try_clone().unwrap();
    assert_eq!(c.payload, b"xyz".to_vec());
    assert_eq!(ids(&c.onward_route), vec![1, 2]);
    assert_eq!(ids(&c.return_route), vec![3]);
    let r = route(&[4, 5]).async_try_clone().unwrap();
    assert_eq!(ids(&r), vec![4, 5]);
    assert_eq!(addr(9).async_try_clone(), Ok(addr(9)));
    assert_eq!(Address::new(2, 9).is_local(), false);
}

#[test]
fn access_control_clone_decides_alike() {
    let p = AccessControl::or(
        AccessControl::AllowList(vec![addr(1)]),
        AccessControl::and(AccessControl::AllowAll, AccessControl::DenyAll),
    );
    let c = p.async_try_clone().unwrap();
    for prov in [route(&[]), route(&[1]), route(&[2]), route(&[1, 2])] {
        assert_eq!(c.is_authorized(&prov), p.is_authorized(&prov));
    }
    assert!(c.is_authorized(&route(&[1])));
    assert!(!c.is_authorized(&route(&[2])));
}

#[test]
fn cloned_route_shares_nothing() {
    let r = route(&[1, 2, 3]);
    let mut c = r.async_try_clone().unwrap();
    assert_eq!(c.pop_front(), Some(addr(1)));
    c.push_back(addr(4));
    assert_eq!(ids(&r), vec![1, 2, 3]);
    assert_eq!(ids(&c), vec![2, 3, 4]);
    let ctx = Context::new(addr(7));
    assert_eq!(ctx.async_try_clone().unwrap().address(), addr(7));
}
