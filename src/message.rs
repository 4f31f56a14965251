use vstd::prelude::*;
use crate::address::Address;
use crate::route::Route;

verus! {

/// What an envelope holds, as plain values.
pub ghost struct EnvelopeView {
    pub payload: Seq<u8>,
    pub onward: Seq<Address>,
    pub ret: Seq<Address>,
}

impl EnvelopeView {
    /// The envelope after one hop: the first onward address is removed and
    /// put in front of the return route, so that a reply can retrace the path.
    pub open spec fn hop(self) -> EnvelopeView
        recommends
            self.onward.len() > 0,
    {
        EnvelopeView {
            payload: self.payload,
            onward: self.onward.drop_first(),
            ret: seq![self.onward[0]] + self.ret,
        }
    }
}

/// A message in flight: opaque payload bytes, the hops still to take, and
/// the path back to the sender.
#[derive(Debug)]
pub struct Envelope {
    pub payload: Vec<u8>,
    pub onward_route: Route,
    pub return_route: Route,
}

impl View for Envelope {
    type V = EnvelopeView;

    open spec fn view(&self) -> EnvelopeView {
        EnvelopeView { payload: self.payload@, onward: self.onward_route@, ret: self.return_route@ }
    }
}

impl Envelope {
    /// An envelope with the given payload and routes.
    pub fn new(payload: Vec<u8>, onward_route: Route, return_route: Route) -> (r: Envelope)
        ensures
            r@ == (EnvelopeView { payload: payload@, onward: onward_route@, ret: return_route@ }),
    {
        Envelope { payload, onward_route, return_route }
    }

    /// An envelope equal to this one that shares nothing with it.
    pub fn duplicate(&self) -> (r: Envelope)
        ensures
            r@ == self@,
    {
        Envelope {
            payload: copy_bytes(&self.payload),
            onward_route: self.onward_route.duplicate(),
            return_route: self.return_route.duplicate(),
        }
    }

    /// The next hop of the envelope, if any.
    pub fn next_hop(&self) -> (r: Option<Address>)
        ensures
            self@.onward.len() == 0 ==> r == None::<Address>,
            self@.onward.len() > 0 ==> r == Some(self@.onward[0]),
    {
        self.onward_route.next()
    }

    /// Takes one hop: removes the first onward address and prepends it to
    /// the return route. With an empty onward route nothing changes and
    /// `None` comes back.
    pub fn step(&mut self) -> (r: Option<Address>)
        ensures
            old(self)@.onward.len() == 0 ==> r == None::<Address> && final(self)@ == old(self)@,
            old(self)@.onward.len() > 0 ==> r == Some(old(self)@.onward[0]) && final(self)@
                == old(self)@.hop(),
    {
        let r = self.onward_route.pop_front();
        match r {
            Some(a) => {
                self.return_route.push_front(a);
            },
            None => {},
        }
        r
    }
}

/// A copy of `b`.
fn copy_bytes(b: &Vec<u8>) -> (r: Vec<u8>)
    ensures
        r@ == b@,
{
    let mut out: Vec<u8> = Vec::new();
    let mut i: usize = 0;
    while i < b.len()
        invariant
            i <= b@.len(),
            out@ == b@.subrange(0, i as int),
        decreases b@.len() - i,
    {
        out.push(b[i]);
        i = i + 1;
        assert(out@ =~= b@.subrange(0, i as int));
    }
    assert(out@ =~= b@);
    out
}

} // verus!
