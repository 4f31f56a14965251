use vstd::prelude::*;
use crate::address::Address;
use crate::route::Route;

verus! {

/// A pure authorization predicate over an envelope's declared provenance
/// (the chain of addresses it came through, nearest first), composable into
/// a tree that is evaluated left to right with short-circuit.
#[derive(Debug)]
pub enum AccessControl {
    /// Every envelope is allowed.
    AllowAll,
    /// No envelope is allowed.
    DenyAll,
    /// The envelope is allowed when its source, the first address of its
    /// provenance, is one of these.
    AllowList(Vec<Address>),
    /// Both policies must allow.
    And(Box<AccessControl>, Box<AccessControl>),
    /// Either policy must allow.
    Or(Box<AccessControl>, Box<AccessControl>),
}

impl View for AccessControl {
    /// A policy is seen as the predicate it decides.
    type V = spec_fn(Seq<Address>) -> bool;

    open spec fn view(&self) -> spec_fn(Seq<Address>) -> bool {
        |p: Seq<Address>| self.allows(p)
    }
}

impl AccessControl {
    /// Whether the policy lets through an envelope with this provenance.
    pub open spec fn allows(&self, provenance: Seq<Address>) -> bool
        decreases self,
    {
        match self {
            AccessControl::AllowAll => true,
            AccessControl::DenyAll => false,
            AccessControl::AllowList(list) => provenance.len() > 0 && list@.contains(provenance[0]),
            AccessControl::And(a, b) => a.allows(provenance) && b.allows(provenance),
            AccessControl::Or(a, b) => a.allows(provenance) || b.allows(provenance),
        }
    }

    /// The policy that allows what both `a` and `b` allow.
    pub fn and(a: AccessControl, b: AccessControl) -> (r: AccessControl)
        ensures
            forall|p: Seq<Address>| r.allows(p) == (a.allows(p) && b.allows(p)),
    {
        AccessControl::And(Box::new(a), Box::new(b))
    }

    /// The policy that allows what `a` or `b` allows.
    pub fn or(a: AccessControl, b: AccessControl) -> (r: AccessControl)
        ensures
            forall|p: Seq<Address>| r.allows(p) == (a.allows(p) || b.allows(p)),
    {
        AccessControl::Or(Box::new(a), Box::new(b))
    }

    /// A policy that decides as this one does and shares nothing with it.
    pub fn duplicate(&self) -> (r: AccessControl)
        ensures
            forall|p: Seq<Address>| r.allows(p) == self.allows(p),
            r@ == self@,
        decreases self,
    {
        let r = match self {
            AccessControl::AllowAll => AccessControl::AllowAll,
            AccessControl::DenyAll => AccessControl::DenyAll,
            AccessControl::AllowList(list) => AccessControl::AllowList(copy_addresses(list)),
            AccessControl::And(a, b) => {
                let a2 = a.duplicate();
                let b2 = b.duplicate();
                let r = AccessControl::And(Box::new(a2), Box::new(b2));
                assert forall|p: Seq<Address>| r.allows(p) == self.allows(p) by {
                    assert(a2.allows(p) == a.allows(p));
                    assert(b2.allows(p) == b.allows(p));
                }
                r
            },
            AccessControl::Or(a, b) => {
                let a2 = a.duplicate();
                let b2 = b.duplicate();
                let r = AccessControl::Or(Box::new(a2), Box::new(b2));
                assert forall|p: Seq<Address>| r.allows(p) == self.allows(p) by {
                    assert(a2.allows(p) == a.allows(p));
                    assert(b2.allows(p) == b.allows(p));
                }
                r
            },
        };
        assert forall|p: Seq<Address>| r.allows(p) == self.allows(p) by {}
        assert(r@ =~= self@);
        r
    }

    /// Decides whether an envelope whose return route is `provenance` may
    /// reach the destination guarded by this policy.
    pub fn is_authorized(&self, provenance: &Route) -> (r: bool)
        ensures
            r == self.allows(provenance@),
        decreases self,
    {
        match self {
            AccessControl::AllowAll => true,
            AccessControl::DenyAll => false,
            AccessControl::AllowList(list) => {
                match provenance.next() {
                    None => false,
                    Some(source) => contains(list, source),
                }
            },
            AccessControl::And(a, b) => a.is_authorized(provenance) && b.is_authorized(provenance),
            AccessControl::Or(a, b) => a.is_authorized(provenance) || b.is_authorized(provenance),
        }
    }
}

/// A copy of `list`.
fn copy_addresses(list: &Vec<Address>) -> (r: Vec<Address>)
    ensures
        r@ == list@,
{
    let mut out: Vec<Address> = Vec::new();
    let mut i: usize = 0;
    while i < list.len()
        invariant
            i <= list@.len(),
            out@ == list@.subrange(0, i as int),
        decreases list@.len() - i,
    {
        out.push(list[i]);
        i = i + 1;
        assert(out@ =~= list@.subrange(0, i as int));
    }
    assert(out@ =~= list@);
    out
}

/// Whether `x` is one of `list`.
fn contains(list: &Vec<Address>, x: Address) -> (r: bool)
    ensures
        r == list@.contains(x),
{
    let mut i: usize = 0;
    while i < list.len()
        invariant
            i <= list@.len(),
            forall|j: int| 0 <= j < i ==> list@[j] != x,
        decreases list@.len() - i,
    {
        if list[i] == x {
            return true;
        }
        i = i + 1;
    }
    false
}

/// A conjunction of allow-all and deny-all denies every envelope.
pub proof fn lemma_and_allow_deny_denies(provenance: Seq<Address>)
    ensures
        !AccessControl::And(Box::new(AccessControl::AllowAll), Box::new(AccessControl::DenyAll)).allows(
            provenance,
        ),
{
    reveal_with_fuel(AccessControl::allows, 2);
}

/// A disjunction of allow-all and deny-all allows every envelope.
pub proof fn lemma_or_allow_deny_allows(provenance: Seq<Address>)
    ensures
        AccessControl::Or(Box::new(AccessControl::AllowAll), Box::new(AccessControl::DenyAll)).allows(
            provenance,
        ),
{
    reveal_with_fuel(AccessControl::allows, 2);
}

} // verus!
