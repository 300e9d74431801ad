//! The set of blocked destination addresses, backed by `ahash::AHashSet`.
//!
//! The hash set itself is an outside type; the declarations below give it
//! to the verifier as an opaque type whose contents are named by
//! `ahash_set_view`, and each method the inspector needs is wrapped with
//! the contract that the standard `HashSet` operations it forwards to
//! document: `insert` adds the value, `contains` is membership.

use vstd::prelude::*;

verus! {

#[verifier::external_type_specification]
#[verifier::external_body]
#[verifier::reject_recursive_types(T)]
#[verifier::reject_recursive_types(S)]
pub struct ExAHashSet<T, S>(ahash::AHashSet<T, S>);

#[verifier::external_type_specification]
#[verifier::external_body]
pub struct ExAHashRandomState(ahash::RandomState);

/// The mathematical contents of an `ahash` set of addresses.
pub uninterp spec fn ahash_set_view(s: &ahash::AHashSet<u32, ahash::RandomState>) -> Set<u32>;

/// Relies on `ahash::AHashSet::new`: a freshly created set is empty.
#[verifier::external_body]
fn ahash_set_new() -> (s: ahash::AHashSet<u32, ahash::RandomState>)
    ensures
        ahash_set_view(&s) == Set::<u32>::empty(),
{
    ahash::AHashSet::new()
}

/// Relies on `HashSet::insert` (reached through `AHashSet`'s `DerefMut`):
/// after the call the set contains exactly the old values and `v`.
#[verifier::external_body]
fn ahash_set_insert(s: &mut ahash::AHashSet<u32, ahash::RandomState>, v: u32)
    ensures
        ahash_set_view(final(s)) == ahash_set_view(old(s)).insert(v),
{
    s.insert(v);
}

/// Relies on `HashSet::contains` (reached through `AHashSet`'s `Deref`):
/// the result is membership of `v` in the set's contents.
#[verifier::external_body]
fn ahash_set_contains(s: &ahash::AHashSet<u32, ahash::RandomState>, v: u32) -> (r: bool)
    ensures
        r == ahash_set_view(s).contains(v),
{
    s.contains(&v)
}

/// The set of IPv4 addresses (as 32-bit values) that the packet
/// inspector treats as malicious destinations. Membership is exact;
/// there are no wildcards or CIDR ranges.
pub struct ThreatIpSet {
    set: ahash::AHashSet<u32, ahash::RandomState>,
}

impl View for ThreatIpSet {
    type V = Set<u32>;

    closed spec fn view(&self) -> Set<u32> {
        ahash_set_view(&self.set)
    }
}

impl ThreatIpSet {
    /// An empty threat set.
    pub fn new() -> (r: ThreatIpSet)
        ensures
            r@ == Set::<u32>::empty(),
    {
        ThreatIpSet { set: ahash_set_new() }
    }

    /// Add one address to the set.
    pub fn add(&mut self, ip: u32)
        ensures
            final(self)@ == old(self)@.insert(ip),
    {
        ahash_set_insert(&mut self.set, ip);
    }

    /// Exact membership test.
    pub fn contains(&self, ip: u32) -> (r: bool)
        ensures
            r == self@.contains(ip),
    {
        ahash_set_contains(&self.set, ip)
    }

    /// Replace the contents with the given list of addresses, so a
    /// reload installs a complete new set.
    pub fn load(&mut self, ips: &Vec<u32>)
        ensures
            final(self)@ == ips@.to_set(),
    {
        let mut fresh = ahash_set_new();
        let n = ips.len();
        for i in 0..n
            invariant
                n == ips@.len(),
                ahash_set_view(&fresh) == ips@.take(i as int).to_set(),
        {
            proof {
                let s1 = ips@.take(i + 1);
                let s0 = ips@.take(i as int);
                let cur = ips@[i as int];
                assert forall|x: u32| s1.contains(x) implies (s0.contains(x) || x == cur) by {
                    let j = choose|j: int| 0 <= j < s1.len() && s1[j] == x;
                    if j < i {
                        assert(s0[j] == x);
                    }
                }
                assert forall|x: u32| s0.contains(x) implies s1.contains(x) by {
                    let j = choose|j: int| 0 <= j < s0.len() && s0[j] == x;
                    assert(s1[j] == x);
                }
                assert(s1[i as int] == ips@[i as int]);
                assert(s1.contains(ips@[i as int]));
                assert(s1.to_set() =~= s0.to_set().insert(ips@[i as int]));
            }
            ahash_set_insert(&mut fresh, ips[i]);
        }
        proof {
            assert(ips@.take(n as int) =~= ips@);
        }
        self.set = fresh;
    }
}

} // verus!
