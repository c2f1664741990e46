//! Network allocations as the provider reports them, and the canonical
//! address a created server is bound to.
use vstd::prelude::*;

verus! {

/// An allocation as listed by the provider for a node.
pub struct BAllocation {
    pub id: u32,
    pub ip: String,
    pub port: u16,
    pub assigned: bool,
}

/// An allocation as attached to a created server.
pub struct BCAllocation {
    pub id: u32,
    pub ip: String,
    pub port: u16,
    pub is_default: bool,
}

/// The canonical network address of a server.
pub struct Address {
    pub ip: String,
    pub port: u16,
}

impl BAllocation {
    /// Whether this allocation sits on the same ip and port as `other`.
    pub open spec fn same_endpoint(&self, other: &BAllocation) -> bool {
        self.ip@ == other.ip@ && self.port == other.port
    }

    pub fn has_same_endpoint(&self, other: &BAllocation) -> (r: bool)
        ensures
            r == self.same_endpoint(other),
    {
        self.port == other.port && self.ip == other.ip
    }

    /// A copy that keeps every field.
    pub fn duplicate(&self) -> (r: BAllocation)
        ensures
            r == *self,
    {
        BAllocation { id: self.id, ip: self.ip.clone(), port: self.port, assigned: self.assigned }
    }
}

/// Whether `a` may be handed out: the provider has not assigned it and no
/// allocation in `used` sits on its endpoint.
pub open spec fn acceptable(a: BAllocation, used: Seq<BAllocation>) -> bool {
    !a.assigned && forall|j: int| 0 <= j < used.len() ==> !(#[trigger] used[j]).same_endpoint(&a)
}

/// The acceptable allocations of `s`, in order.
pub open spec fn free_of(s: Seq<BAllocation>, used: Seq<BAllocation>) -> Seq<BAllocation>
    decreases s.len(),
{
    if s.len() == 0 {
        seq![]
    } else if acceptable(s.last(), used) {
        free_of(s.drop_last(), used).push(s.last())
    } else {
        free_of(s.drop_last(), used)
    }
}

/// At most `amount` of the acceptable allocations of `s`, the first ones.
pub open spec fn first_free(s: Seq<BAllocation>, used: Seq<BAllocation>, amount: nat) -> Seq<
    BAllocation,
> {
    let f = free_of(s, used);
    if f.len() <= amount {
        f
    } else {
        f.take(amount as int)
    }
}

pub(crate) proof fn lemma_free_of_append(a: Seq<BAllocation>, b: Seq<BAllocation>, used: Seq<BAllocation>)
    ensures
        free_of(a + b, used) == free_of(a, used) + free_of(b, used),
    decreases b.len(),
{
    if b.len() == 0 {
        assert(a + b =~= a);
        assert(free_of(a, used) + free_of(b, used) =~= free_of(a, used));
    } else {
        lemma_free_of_append(a, b.drop_last(), used);
        assert((a + b).drop_last() =~= a + b.drop_last());
        assert((a + b).last() == b.last());
        if acceptable(b.last(), used) {
            assert(free_of(a, used) + free_of(b, used) =~= (free_of(a, used) + free_of(
                b.drop_last(),
                used,
            )).push(b.last()));
        }
    }
}

/// Once a prefix yields `amount` acceptable allocations, nothing after it
/// changes the first `amount`.
pub(crate) proof fn lemma_first_free_prefix(
    prefix: Seq<BAllocation>,
    tail: Seq<BAllocation>,
    used: Seq<BAllocation>,
    amount: nat,
)
    requires
        free_of(prefix, used).len() == amount,
    ensures
        first_free(prefix + tail, used, amount) == free_of(prefix, used),
{
    lemma_free_of_append(prefix, tail, used);
    assert((free_of(prefix, used) + free_of(tail, used)).take(amount as int) =~= free_of(prefix, used));
    if free_of(tail, used).len() == 0 {
        assert(free_of(prefix, used) + free_of(tail, used) =~= free_of(prefix, used));
    }
}

/// Whether some allocation of `used` sits on the endpoint of `a`.
pub fn is_used(used: &[BAllocation], a: &BAllocation) -> (r: bool)
    ensures
        r == exists|j: int| 0 <= j < used@.len() && (#[trigger] used@[j]).same_endpoint(a),
{
    let mut j: usize = 0;
    while j < used.len()
        invariant
            j <= used@.len(),
            forall|k: int| 0 <= k < j ==> !(#[trigger] used@[k]).same_endpoint(a),
        decreases used@.len() - j,
    {
        if used[j].has_same_endpoint(a) {
            return true;
        }
        j = j + 1;
    }
    false
}

impl From<BCAllocation> for Address {
    fn from(val: BCAllocation) -> (r: Address)
        ensures
            r.ip == val.ip,
            r.port == val.port,
    {
        Address { ip: val.ip, port: val.port }
    }
}

impl vstd::std_specs::convert::FromSpecImpl<BCAllocation> for Address {
    open spec fn obeys_from_spec() -> bool {
        true
    }

    open spec fn from_spec(val: BCAllocation) -> Address {
        Address { ip: val.ip, port: val.port }
    }
}

/// Converting an attached allocation to an address keeps its ip and port
/// exactly, whatever the conversion returned.
pub proof fn lemma_address_keeps_endpoint(val: BCAllocation, r: Address)
    requires
        call_ensures(<Address as From<BCAllocation>>::from, (val,), r),
    ensures
        r.ip == val.ip,
        r.port == val.port,
{
}

} // verus!
