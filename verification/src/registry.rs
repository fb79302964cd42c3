//! The pool registry: a read-mostly map from pool address to pool
//! metadata, populated once at startup and then only read. Lookups go
//! through a concurrent hash map so readers never block each other; an
//! ordered snapshot of the same pools backs the verified filtering logic.

use vstd::prelude::*;

verus! {

/// A liquidity pool the pipeline tracks: its account address and its two
/// constituent tokens, in either order.
#[derive(Clone, Copy)]
pub enum Pool {
    UniswapV2 { address: [u8; 20], token_a: [u8; 20], token_b: [u8; 20] },
    UniswapV3 { address: [u8; 20], token_a: [u8; 20], token_b: [u8; 20] },
}

impl Pool {
    /// The pool contract's account address.
    pub open spec fn address_spec(&self) -> [u8; 20] {
        match *self {
            Pool::UniswapV2 { address, .. } => address,
            Pool::UniswapV3 { address, .. } => address,
        }
    }

    /// The first constituent token.
    pub open spec fn token_a_spec(&self) -> [u8; 20] {
        match *self {
            Pool::UniswapV2 { token_a, .. } => token_a,
            Pool::UniswapV3 { token_a, .. } => token_a,
        }
    }

    /// The second constituent token.
    pub open spec fn token_b_spec(&self) -> [u8; 20] {
        match *self {
            Pool::UniswapV2 { token_b, .. } => token_b,
            Pool::UniswapV3 { token_b, .. } => token_b,
        }
    }

    /// Whether the pool holds the given token as either of its two
    /// constituents.
    pub open spec fn contains_token_spec(&self, token: [u8; 20]) -> bool {
        self.token_a_spec()@ == token@ || self.token_b_spec()@ == token@
    }

    pub fn address(&self) -> (r: [u8; 20])
        ensures
            r == self.address_spec(),
    {
        match self {
            Pool::UniswapV2 { address, .. } => *address,
            Pool::UniswapV3 { address, .. } => *address,
        }
    }

    /// Order-independent containment check over the pool's token pair.
    pub fn contains_token(&self, token: &[u8; 20]) -> (r: bool)
        ensures
            r == self.contains_token_spec(*token),
    {
        let (a, b) = match self {
            Pool::UniswapV2 { token_a, token_b, .. } => (token_a, token_b),
            Pool::UniswapV3 { token_a, token_b, .. } => (token_a, token_b),
        };
        crate::bytes::bytes20_eq(a, token) || crate::bytes::bytes20_eq(b, token)
    }
}

#[verifier::external_type_specification]
#[verifier::external_body]
#[verifier::reject_recursive_types(K)]
#[verifier::reject_recursive_types(V)]
#[verifier::reject_recursive_types(S)]
pub struct ExDashMap<K, V, S>(dashmap::DashMap<K, V, S>);

/// A 20-byte account address.
pub type Address = [u8; 20];

/// The concurrent map type the registry reads through.
pub type PoolMap = dashmap::DashMap<Address, Pool>;

/// What a concurrent pool map holds: its key-to-pool contents.
pub uninterp spec fn dash_map_view(m: PoolMap) -> Map<Address, Pool>;

/// Relies on dashmap's `DashMap::new`: a freshly created map is empty.
#[verifier::external_body]
fn dash_new() -> (r: PoolMap)
    ensures
        (dash_map_view(r) == Map::<Address, Pool>::empty()),
{
    dashmap::DashMap::new()
}

/// Relies on dashmap's `DashMap::insert`: afterwards the map holds the
/// given value under the given key and is otherwise unchanged.
#[verifier::external_body]
fn dash_insert(m: &mut PoolMap, key: Address, value: Pool)
    ensures
        (dash_map_view(*final(m)) == dash_map_view(*old(m)).insert(key, value)),
{
    m.insert(key, value);
}

/// Relies on dashmap's `DashMap::get`: returns the value stored under the
/// key, if any. The value is copied out inside the call, so no read guard
/// into the shared map outlives it.
#[verifier::external_body]
fn dash_get(m: &PoolMap, key: &Address) -> (r: Option<Pool>)
    ensures
        (r == if dash_map_view(*m).contains_key(*key) {
            Some(dash_map_view(*m)[*key])
        } else {
            None::<Pool>
        }),
{
    m.get(key).map(|p| *p.value())
}

/// The position of the pool tracked at the given address, or the length
/// of the list when no pool is tracked there.
fn find_pool_index(list: &Vec<Pool>, addr: &[u8; 20]) -> (r: usize)
    ensures
        r <= list@.len(),
        forall|j: int| 0 <= j < r ==> (#[trigger] list@[j]).address_spec()@ != addr@,
        r < list@.len() ==> list@[r as int].address_spec()@ == addr@,
{
    let n = list.len();
    let mut i: usize = 0;
    while i < n
        invariant
            n == list@.len(),
            i <= n,
            forall|j: int| 0 <= j < i ==> (#[trigger] list@[j]).address_spec()@ != addr@,
        decreases n - i,
    {
        let candidate = list[i].address();
        if crate::bytes::bytes20_eq(&candidate, addr) {
            return i;
        }
        i += 1;
    }
    n
}

/// The registry of tracked pools. The concurrent map serves address
/// lookups; the list is an equal snapshot of the same pools, one entry per
/// address, backing the verified filtering.
pub struct PoolRegistry {
    map: PoolMap,
    list: Vec<Pool>,
}

impl PoolRegistry {
    /// The tracked pools, in insertion order.
    pub closed spec fn pools(&self) -> Seq<Pool> {
        self.list@
    }

    /// Each address is tracked at most once, every listed pool sits in the
    /// concurrent map under its own address, and the map holds nothing
    /// else.
    pub closed spec fn wf(&self) -> bool {
        &&& forall|i: int, j: int|
            0 <= i < j < self.list@.len() ==> (#[trigger] self.list@[i]).address_spec()@ != (
            #[trigger] self.list@[j]).address_spec()@
        &&& forall|i: int|
            0 <= i < self.list@.len() ==> dash_map_view(self.map).contains_key(
                (#[trigger] self.list@[i]).address_spec(),
            ) && dash_map_view(self.map)[self.list@[i].address_spec()] == self.list@[i]
        &&& forall|k: Address|
            dash_map_view(self.map).contains_key(k) ==> exists|i: int|
                0 <= i < self.list@.len() && (#[trigger] self.list@[i]).address_spec() == k
    }

    /// An empty registry.
    pub fn new() -> (r: PoolRegistry)
        ensures
            r.wf(),
            r.pools() == Seq::<Pool>::empty(),
    {
        let r = PoolRegistry { map: dash_new(), list: Vec::new() };
        proof {
            assert(forall|k: Address| !dash_map_view(r.map).contains_key(k));
        }
        r
    }

    /// How many pools are tracked.
    pub fn len(&self) -> (r: usize)
        ensures
            r == self.pools().len(),
    {
        self.list.len()
    }

    /// Track a pool under its address. A pool already tracked at that
    /// address is replaced; every other address is untouched.
    pub fn insert(&mut self, pool: Pool)
        requires
            old(self).wf(),
            old(self).pools().len() < usize::MAX,
        ensures
            final(self).wf(),
            final(self).pools().contains(pool),
            forall|p: Pool|
                final(self).pools().contains(p) <==> (#[trigger] old(self).pools().contains(p)
                    && p.address_spec()@ != pool.address_spec()@) || p == pool,
            final(self).pools().len() <= old(self).pools().len() + 1,
    {
        let addr = pool.address();
        let i = find_pool_index(&self.list, &addr);
        let n = self.list.len();
        let ghost prior = self.list@;
        let ghost prior_view = dash_map_view(self.map);
        if i < n {
            self.list.set(i, pool);
        } else {
            self.list.push(pool);
        }
        dash_insert(&mut self.map, addr, pool);
        proof {
            let cur = self.list@;
            let view = dash_map_view(self.map);
            let ii = i as int;
            assert(addr == pool.address_spec());
            assert(view == prior_view.insert(addr, pool));
            // The one slot that changed holds the new pool under its own
            // address; every other slot kept its pool and its address.
            assert(cur[ii] == pool);
            assert(forall|j: int| 0 <= j < cur.len() && j != ii ==> cur[j] == prior[j]);
            assert forall|a: int, b: int| 0 <= a < b < cur.len() implies (
            #[trigger] cur[a]).address_spec()@ != (#[trigger] cur[b]).address_spec()@ by {
                if a != ii && b != ii {
                    assert(prior[a] == cur[a] && prior[b] == cur[b]);
                } else if a == ii {
                    if ii < prior.len() {
                        assert(prior[ii].address_spec()@ == addr@);
                        assert(prior[b].address_spec()@ != prior[ii].address_spec()@);
                    } else {
                        assert(false);
                    }
                } else {
                    if ii < prior.len() {
                        assert(prior[ii].address_spec()@ == addr@);
                        assert(prior[a].address_spec()@ != prior[ii].address_spec()@);
                    } else {
                        assert(cur[a].address_spec()@ != addr@);
                    }
                }
            }
            assert forall|j: int| 0 <= j < cur.len() implies view.contains_key(
                (#[trigger] cur[j]).address_spec(),
            ) && view[cur[j].address_spec()] == cur[j] by {
                if j == ii {
                    assert(cur[j].address_spec() == addr);
                } else {
                    assert(cur[j] == prior[j]);
                    if cur[j].address_spec() == addr {
                        if ii < prior.len() {
                            assert(prior[j].address_spec()@ != prior[ii].address_spec()@);
                            assert(false);
                        } else {
                            assert(prior[j].address_spec()@ != addr@);
                            assert(false);
                        }
                    }
                    assert(prior_view.contains_key(cur[j].address_spec()));
                }
            }
            assert forall|k: Address| view.contains_key(k) implies exists|j: int|
                0 <= j < cur.len() && (#[trigger] cur[j]).address_spec() == k by {
                if k == addr {
                    assert(cur[ii].address_spec() == k);
                } else {
                    assert(prior_view.contains_key(k));
                    let j = choose|j: int|
                        0 <= j < prior.len() && (#[trigger] prior[j]).address_spec() == k;
                    assert(cur[j].address_spec() == k);
                }
            }
            // The tracked set changes exactly at the inserted address.
            assert forall|p: Pool| #[trigger] cur.contains(p) implies (prior.contains(p)
                && p.address_spec()@ != pool.address_spec()@) || p == pool by {
                let k = choose|k: int| 0 <= k < cur.len() && cur[k] == p;
                if k != ii {
                    assert(prior[k] == p);
                    assert(prior.contains(p));
                    if p.address_spec()@ == addr@ {
                        if ii < prior.len() {
                            assert(prior[k].address_spec()@ != prior[ii].address_spec()@);
                        }
                        assert(false);
                    }
                }
            }
            assert forall|p: Pool| (#[trigger] prior.contains(p) && p.address_spec()@
                != pool.address_spec()@) || p == pool implies cur.contains(p) by {
                if p == pool {
                    assert(cur[ii] == p);
                } else {
                    let k = choose|k: int| 0 <= k < prior.len() && prior[k] == p;
                    assert(k != ii);
                    assert(cur[k] == p);
                }
            }
            assert(cur.contains(pool)) by {
                assert(cur[ii] == pool);
            }
        }
    }

    /// Look a pool up by its address, through the concurrent map, copying
    /// the match out rather than holding a reference into shared state.
    pub fn lookup(&self, address: &[u8; 20]) -> (r: Option<Pool>)
        requires
            self.wf(),
        ensures
            match r {
                Some(p) => self.pools().contains(p) && p.address_spec()@ == address@,
                None => forall|i: int|
                    0 <= i < self.pools().len() ==> (#[trigger] self.pools()[i]).address_spec()@
                        != address@,
            },
    {
        let r = dash_get(&self.map, address);
        proof {
            match r {
                Some(p) => {
                    assert(dash_map_view(self.map).contains_key(*address));
                    let i = choose|i: int|
                        0 <= i < self.list@.len() && (#[trigger] self.list@[i]).address_spec()
                            == *address;
                    assert(self.list@[i] == p);
                    assert(self.pools().contains(p));
                },
                None => {
                    assert forall|i: int| 0 <= i < self.pools().len() implies (
                    #[trigger] self.pools()[i]).address_spec()@ != address@ by {
                        if self.pools()[i].address_spec()@ == address@ {
                            assert(self.pools()[i].address_spec() =~= *address);
                            assert(dash_map_view(self.map).contains_key(
                                self.pools()[i].address_spec(),
                            ));
                        }
                    }
                },
            }
        }
        r
    }

    /// A well-formed registry tracks at most one pool per address: two
    /// tracked pools with the same address are the same pool.
    pub proof fn lemma_unique_addresses(&self)
        requires
            self.wf(),
        ensures
            forall|p1: Pool, p2: Pool|
                self.pools().contains(p1) && self.pools().contains(p2) && (
                #[trigger] p1.address_spec())@ == (#[trigger] p2.address_spec())@ ==> p1 == p2,
    {
        assert forall|p1: Pool, p2: Pool|
            self.pools().contains(p1) && self.pools().contains(p2) && (
            #[trigger] p1.address_spec())@ == (#[trigger] p2.address_spec())@ implies p1 == p2 by {
            let a = choose|a: int| 0 <= a < self.list@.len() && self.list@[a] == p1;
            let b = choose|b: int| 0 <= b < self.list@.len() && self.list@[b] == p2;
            if a != b {
                assert(self.list@[a].address_spec()@ != self.list@[b].address_spec()@);
            }
        }
    }

    /// All tracked pools whose token pair contains the given token, and no
    /// others. No particular order is promised.
    pub fn filter_by_token(&self, token: &[u8; 20]) -> (r: Vec<Pool>)
        requires
            self.wf(),
        ensures
            forall|k: int|
                0 <= k < r@.len() ==> (#[trigger] r@[k]).contains_token_spec(*token)
                    && self.pools().contains(r@[k]),
            forall|p: Pool|
                self.pools().contains(p) && p.contains_token_spec(*token) ==> r@.contains(p),
    {
        let mut out: Vec<Pool> = Vec::new();
        let n = self.list.len();
        let mut i: usize = 0;
        while i < n
            invariant
                self.wf(),
                n == self.list@.len(),
                i <= n,
                forall|k: int|
                    0 <= k < out@.len() ==> (#[trigger] out@[k]).contains_token_spec(*token)
                        && self.pools().contains(out@[k]),
                forall|j: int|
                    0 <= j < i && (#[trigger] self.list@[j]).contains_token_spec(*token)
                        ==> out@.contains(self.list@[j]),
            decreases n - i,
        {
            let p = self.list[i];
            if p.contains_token(token) {
                let ghost prior = out@;
                out.push(p);
                proof {
                    assert(self.pools().contains(p)) by {
                        assert(self.pools()[i as int] == p);
                    }
                    assert forall|j: int|
                        0 <= j < i + 1 && (#[trigger] self.list@[j]).contains_token_spec(
                            *token,
                        ) implies out@.contains(self.list@[j]) by {
                        if j < i {
                            let k = choose|k: int| 0 <= k < prior.len() && prior[k] == self.list@[j];
                            assert(out@[k] == self.list@[j]);
                        } else {
                            assert(out@[prior.len() as int] == self.list@[j]);
                        }
                    }
                }
            }
            i += 1;
        }
        proof {
            assert forall|p: Pool|
                self.pools().contains(p) && p.contains_token_spec(*token) implies out@.contains(
                p,
            ) by {
                let j = choose|j: int| 0 <= j < self.list@.len() && self.list@[j] == p;
                assert(self.list@[j].contains_token_spec(*token));
            }
        }
        out
    }
}

} // verus!
