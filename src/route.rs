use vstd::prelude::*;
use crate::address::Address;

verus! {

/// An ordered path of addresses that a message traverses hop by hop.
/// An empty route means that there are no more hops.
#[derive(Debug)]
pub struct Route {
    hops: Vec<Address>,
}

impl View for Route {
    type V = Seq<Address>;

    closed spec fn view(&self) -> Seq<Address> {
        self.hops@
    }
}

impl Route {
    /// The empty route.
    pub fn new() -> (r: Route)
        ensures
            r@ == Seq::<Address>::empty(),
    {
        Route { hops: Vec::new() }
    }

    /// The route through the given addresses, in that order.
    pub fn from_vec(hops: Vec<Address>) -> (r: Route)
        ensures
            r@ == hops@,
    {
        Route { hops }
    }

    /// The addresses of the route, first hop first.
    pub fn to_vec(&self) -> (r: Vec<Address>)
        ensures
            r@ == self@,
    {
        let mut out: Vec<Address> = Vec::new();
        let mut i: usize = 0;
        while i < self.hops.len()
            invariant
                i <= self.hops@.len(),
                out@ == self.hops@.subrange(0, i as int),
            decreases self.hops@.len() - i,
        {
            out.push(self.hops[i]);
            i = i + 1;
            assert(out@ =~= self.hops@.subrange(0, i as int));
        }
        assert(out@ =~= self.hops@);
        out
    }

    /// A route equal to this one that shares nothing with it.
    pub fn duplicate(&self) -> (r: Route)
        ensures
            r@ == self@,
    {
        Route { hops: self.to_vec() }
    }

    /// Number of hops left.
    pub fn len(&self) -> (r: usize)
        ensures
            r == self@.len(),
    {
        self.hops.len()
    }

    /// Whether no hop is left.
    pub fn is_empty(&self) -> (r: bool)
        ensures
            r == (self@.len() == 0),
    {
        self.hops.len() == 0
    }

    /// The next hop, without removing it.
    pub fn next(&self) -> (r: Option<Address>)
        ensures
            self@.len() == 0 ==> r == None::<Address>,
            self@.len() > 0 ==> r == Some(self@[0]),
    {
        if self.hops.len() == 0 {
            None
        } else {
            Some(self.hops[0])
        }
    }

    /// Appends an address as the last hop.
    pub fn push_back(&mut self, a: Address)
        ensures
            final(self)@ == old(self)@.push(a),
    {
        self.hops.push(a);
    }

    /// Prepends an address as the first hop.
    pub fn push_front(&mut self, a: Address)
        ensures
            final(self)@ == seq![a] + old(self)@,
    {
        self.hops.insert(0, a);
        assert(self.hops@ =~= seq![a] + old(self)@);
    }

    /// Removes and returns the first hop; `None`, with the route left as it
    /// was, when the route is empty.
    pub fn pop_front(&mut self) -> (r: Option<Address>)
        ensures
            old(self)@.len() == 0 ==> r == None::<Address> && final(self)@ == old(self)@,
            old(self)@.len() > 0 ==> r == Some(old(self)@[0]) && final(self)@ == old(self)@.drop_first(),
    {
        if self.hops.len() == 0 {
            None
        } else {
            let a = self.hops.remove(0);
            assert(self.hops@ =~= old(self)@.drop_first());
            Some(a)
        }
    }
}

} // verus!
