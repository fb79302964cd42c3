//! The state-diff analyzer: given the simulated execution of one pending
//! transaction (a per-account storage diff) and the target token, it finds
//! the tracked pools the transaction touches, derives each pool's balance
//! slot in the target token's balance mapping, and reports every pool whose
//! balance of the target token strictly increases.

use vstd::prelude::*;
use crate::bytes::{be_nat, be_bytes_gt, bytes20_eq, bytes32_eq};
use crate::registry::{Pool, PoolRegistry};

verus! {

/// The mapping slot index assumed for a standard fungible token's balance
/// mapping. A token laid out differently simply yields no match at the
/// derived slot — a documented heuristic, not a hard failure.
pub const BALANCE_MAPPING_SLOT: u8 = 3;

/// How one storage slot moved in a simulated execution.
#[derive(Clone, Copy)]
pub enum StorageChange {
    Same,
    Born([u8; 32]),
    Changed([u8; 32], [u8; 32]),
    Died([u8; 32]),
}

/// One observed storage slot of one account: the slot key and how its
/// value moved.
#[derive(Clone, Copy)]
pub struct StorageEntry {
    pub slot: [u8; 32],
    pub change: StorageChange,
}

/// Everything the simulation observed of one account.
pub struct AccountDiff {
    pub address: [u8; 20],
    pub storage: Vec<StorageEntry>,
}

/// A whole simulated state diff: one record per touched account.
pub struct StateDiff {
    pub accounts: Vec<AccountDiff>,
}

/// A detected balance movement: a tracked pool whose balance of the target
/// token strictly increased, with the balance words before and after.
#[derive(Clone, Copy)]
pub struct PoolBalanceChange {
    pub pool: Pool,
    pub before: [u8; 32],
    pub after: [u8; 32],
}

impl StateDiff {
    /// A diff carries at most one record per account.
    pub open spec fn wf(&self) -> bool {
        forall|i: int, j: int|
            0 <= i < j < self.accounts@.len() ==> (#[trigger] self.accounts@[i]).address@ != (
            #[trigger] self.accounts@[j]).address@
    }

    /// Whether the simulated execution touched the given account.
    pub open spec fn touches(&self, addr: [u8; 20]) -> bool {
        exists|i: int| 0 <= i < self.accounts@.len() && (#[trigger] self.accounts@[i]).address@ == addr@
    }

    /// The storage entries recorded for the given account (meaningful only
    /// when the diff touches it).
    pub open spec fn storage_of(&self, addr: [u8; 20]) -> Seq<StorageEntry> {
        let i = choose|i: int|
            0 <= i < self.accounts@.len() && (#[trigger] self.accounts@[i]).address@ == addr@;
        self.accounts@[i].storage@
    }
}

/// The first recorded change at the given slot, if any.
pub open spec fn change_at(entries: Seq<StorageEntry>, slot: Seq<u8>) -> Option<StorageChange>
    decreases entries.len(),
{
    if entries.len() == 0 {
        None
    } else if entries[0].slot@ == slot {
        Some(entries[0].change)
    } else {
        change_at(entries.drop_first(), slot)
    }
}

/// What the Keccak-256 digest of a byte string is: 32 bytes, a function of
/// the input alone.
pub uninterp spec fn keccak_of(input: Seq<u8>) -> Seq<u8>;

/// Relies on ethers' `keccak256`: the Keccak-256 digest of the input, 32
/// bytes, depending on the input bytes alone.
#[verifier::external_body]
fn keccak256(input: &Vec<u8>) -> (r: [u8; 32])
    ensures
        (r@ == keccak_of(input@)),
{
    ethers::utils::keccak256(input.as_slice())
}

/// The 64-byte preimage hashed to locate a key's value in a token's
/// balance mapping: the key (here a pool address) left-padded to 32 bytes,
/// then the mapping's slot index as a 32-byte word.
pub open spec fn slot_preimage(pool_address: Seq<u8>) -> Seq<u8> {
    Seq::new(12, |j: int| 0u8) + pool_address + Seq::new(31, |j: int| 0u8) + seq![
        BALANCE_MAPPING_SLOT,
    ]
}

/// The storage slot holding the given pool's balance in the target token's
/// balance mapping.
pub open spec fn balance_slot_of(pool_address: Seq<u8>) -> Seq<u8> {
    keccak_of(slot_preimage(pool_address))
}

/// Derive the storage slot of a pool's balance in the target token's
/// balance mapping: the hash of the pool address and the mapping's slot
/// index, each as a 32-byte word.
pub fn balance_slot(pool_address: &[u8; 20]) -> (r: [u8; 32])
    ensures
        r@ == balance_slot_of(pool_address@),
{
    let mut buf: Vec<u8> = Vec::new();
    let mut i: usize = 0;
    while i < 12
        invariant
            i <= 12,
            buf@ == Seq::new(i as nat, |j: int| 0u8),
        decreases 12 - i,
    {
        buf.push(0u8);
        proof {
            assert(buf@ =~= Seq::new(i as nat + 1, |j: int| 0u8));
        }
        i += 1;
    }
    i = 0;
    while i < 20
        invariant
            i <= 20,
            buf@ == Seq::new(12, |j: int| 0u8) + pool_address@.subrange(0, i as int),
        decreases 20 - i,
    {
        buf.push(pool_address[i]);
        proof {
            assert(buf@ =~= Seq::new(12, |j: int| 0u8) + pool_address@.subrange(0, i as int + 1));
        }
        i += 1;
    }
    proof {
        assert(pool_address@.subrange(0, 20) =~= pool_address@);
    }
    i = 0;
    while i < 31
        invariant
            i <= 31,
            buf@ == Seq::new(12, |j: int| 0u8) + pool_address@ + Seq::new(i as nat, |j: int| 0u8),
        decreases 31 - i,
    {
        buf.push(0u8);
        proof {
            assert(buf@ =~= Seq::new(12, |j: int| 0u8) + pool_address@ + Seq::new(
                i as nat + 1,
                |j: int| 0u8,
            ));
        }
        i += 1;
    }
    buf.push(BALANCE_MAPPING_SLOT);
    proof {
        assert(buf@ =~= slot_preimage(pool_address@));
    }
    keccak256(&buf)
}

/// The first recorded change at the given slot, if any.
fn find_change(entries: &Vec<StorageEntry>, slot: &[u8; 32]) -> (r: Option<StorageChange>)
    ensures
        r == change_at(entries@, slot@),
{
    let n = entries.len();
    let mut i: usize = 0;
    proof {
        assert(entries@.skip(0) =~= entries@);
    }
    while i < n
        invariant
            n == entries@.len(),
            i <= n,
            change_at(entries@, slot@) == change_at(entries@.skip(i as int), slot@),
        decreases n - i,
    {
        proof {
            assert(entries@.skip(i as int)[0] == entries@[i as int]);
        }
        if bytes32_eq(&entries[i].slot, slot) {
            proof {
                assert(change_at(entries@.skip(i as int), slot@) == Some(
                    entries@[i as int].change,
                ));
            }
            return Some(entries[i].change);
        }
        proof {
            assert(entries@.skip(i as int).drop_first() =~= entries@.skip(i as int + 1));
            assert(change_at(entries@.skip(i as int), slot@) == change_at(
                entries@.skip(i as int + 1),
                slot@,
            ));
        }
        i += 1;
    }
    proof {
        assert(entries@.skip(n as int) =~= Seq::<StorageEntry>::empty());
    }
    None
}

/// The position of the diff record for the given account, or the number of
/// records when the diff does not touch it.
fn find_account(diff: &StateDiff, addr: &[u8; 20]) -> (r: usize)
    ensures
        r <= diff.accounts@.len(),
        forall|j: int| 0 <= j < r ==> (#[trigger] diff.accounts@[j]).address@ != addr@,
        r < diff.accounts@.len() ==> diff.accounts@[r as int].address@ == addr@,
{
    let n = diff.accounts.len();
    let mut i: usize = 0;
    while i < n
        invariant
            n == diff.accounts@.len(),
            i <= n,
            forall|j: int| 0 <= j < i ==> (#[trigger] diff.accounts@[j]).address@ != addr@,
        decreases n - i,
    {
        if bytes20_eq(&diff.accounts[i].address, addr) {
            return i;
        }
        i += 1;
    }
    n
}

/// What the analyzer reports of one pool, if anything: the before and
/// after words at the pool's balance slot in the target token's account,
/// provided that slot changed and strictly increased.
pub open spec fn reported_change(diff: &StateDiff, target: [u8; 20], pool: Pool) -> Option<
    ([u8; 32], [u8; 32]),
> {
    if !diff.touches(target) {
        None
    } else {
        match change_at(diff.storage_of(target), balance_slot_of(pool.address_spec()@)) {
            Some(StorageChange::Changed(from, to)) => if be_nat(to@) > be_nat(from@) {
                Some((from, to))
            } else {
                None
            },
            _ => None,
        }
    }
}

/// Whether the analyzer reports the given pool at all: the pool is
/// tracked, the simulated execution touched its account, its token pair
/// contains the target token, and its balance of the target token strictly
/// increased.
pub open spec fn is_match(diff: &StateDiff, pools: Seq<Pool>, target: [u8; 20], pool: Pool) -> bool {
    &&& pools.contains(pool)
    &&& diff.touches(pool.address_spec())
    &&& pool.contains_token_spec(target)
    &&& reported_change(diff, target, pool) is Some
}

/// Cross-reference a simulated state diff against the pool registry.
///
/// Reported are exactly the tracked pools whose account the execution
/// touched, whose token pair contains the target token, and whose balance
/// slot in the target token's account strictly increased; each report
/// carries the balance words before and after. A diff with no record for
/// the target token's account yields an empty report, not an error. Each
/// matching pool is copied out of the registry, never referenced into it.
pub fn analyze_state_diff(diff: &StateDiff, registry: &PoolRegistry, target_token: &[u8; 20]) -> (r:
    Vec<PoolBalanceChange>)
    requires
        diff.wf(),
        registry.wf(),
    ensures
        forall|k: int|
            0 <= k < r@.len() ==> is_match(diff, registry.pools(), *target_token, (#[trigger] r@[k]).pool)
                && reported_change(diff, *target_token, r@[k].pool) == Some((r@[k].before, r@[k].after)),
        forall|p: Pool|
            is_match(diff, registry.pools(), *target_token, p) ==> exists|k: int|
                0 <= k < r@.len() && (#[trigger] r@[k]).pool == p,
        !diff.touches(*target_token) ==> r@.len() == 0,
{
    proof {
        registry.lemma_unique_addresses();
    }
    let n = diff.accounts.len();
    // Take an owned copy of every tracked pool the execution touched whose
    // token pair contains the target token.
    let mut touched: Vec<Pool> = Vec::new();
    let mut i: usize = 0;
    while i < n
        invariant
            diff.wf(),
            registry.wf(),
            n == diff.accounts@.len(),
            i <= n,
            forall|k: int|
                0 <= k < touched@.len() ==> registry.pools().contains((#[trigger] touched@[k]))
                    && touched@[k].contains_token_spec(*target_token) && diff.touches(
                    touched@[k].address_spec(),
                ),
            forall|p: Pool|
                (exists|j: int|
                    0 <= j < i && (#[trigger] diff.accounts@[j]).address@ == p.address_spec()@)
                    && registry.pools().contains(p) && p.contains_token_spec(*target_token)
                    ==> touched@.contains(p),
            forall|p1: Pool, p2: Pool|
                registry.pools().contains(p1) && registry.pools().contains(p2) && (
                #[trigger] p1.address_spec())@ == (#[trigger] p2.address_spec())@ ==> p1 == p2,
        decreases n - i,
    {
        let ghost prior = touched@;
        let looked = registry.lookup(&diff.accounts[i].address);
        match looked {
            Some(p) => {
                if p.contains_token(target_token) {
                    proof {
                        assert(diff.touches(p.address_spec())) by {
                            assert(diff.accounts@[i as int].address@ == p.address_spec()@);
                        }
                    }
                    touched.push(p);
                }
            },
            None => {},
        }
        proof {
            assert forall|p: Pool|
                (exists|j: int|
                    0 <= j < i + 1 && (#[trigger] diff.accounts@[j]).address@
                        == p.address_spec()@) && registry.pools().contains(p)
                    && p.contains_token_spec(*target_token) implies touched@.contains(p) by {
                let j = choose|j: int|
                    0 <= j < i + 1 && (#[trigger] diff.accounts@[j]).address@ == p.address_spec()@;
                if j < i {
                    assert(prior.contains(p));
                    let k = choose|k: int| 0 <= k < prior.len() && prior[k] == p;
                    assert(touched@[k] == p);
                } else {
                    // The lookup at this record found exactly this pool.
                    assert(touched@[touched@.len() - 1] == p);
                }
            }
        }
        i += 1;
    }
    let mut out: Vec<PoolBalanceChange> = Vec::new();
    if touched.len() == 0 {
        proof {
            assert forall|p: Pool|
                is_match(diff, registry.pools(), *target_token, p) implies exists|k: int|
                0 <= k < out@.len() && (#[trigger] out@[k]).pool == p by {
                assert(touched@.contains(p));
            }
        }
        return out;
    }
    // Locate the target token's own account in the diff; nothing recorded
    // there means nothing to report.
    let ti = find_account(diff, target_token);
    if ti == n {
        proof {
            assert(!diff.touches(*target_token));
            assert forall|p: Pool|
                is_match(diff, registry.pools(), *target_token, p) implies exists|k: int|
                0 <= k < out@.len() && (#[trigger] out@[k]).pool == p by {
                assert(reported_change(diff, *target_token, p) is Some);
            }
        }
        return out;
    }
    proof {
        assert(diff.touches(*target_token)) by {
            assert(diff.accounts@[ti as int].address@ == target_token@);
        }
        assert(diff.storage_of(*target_token) == diff.accounts@[ti as int].storage@) by {
            let c = choose|c: int|
                0 <= c < diff.accounts@.len() && (#[trigger] diff.accounts@[c]).address@
                    == target_token@;
            if c != ti {
                assert(diff.accounts@[c].address@ != diff.accounts@[ti as int].address@);
            }
        }
    }
    let m = touched.len();
    let mut k: usize = 0;
    while k < m
        invariant
            diff.wf(),
            registry.wf(),
            ti < diff.accounts@.len(),
            diff.storage_of(*target_token) == diff.accounts@[ti as int].storage@,
            diff.touches(*target_token),
            m == touched@.len(),
            k <= m,
            forall|q: int|
                0 <= q < touched@.len() ==> registry.pools().contains((#[trigger] touched@[q]))
                    && touched@[q].contains_token_spec(*target_token) && diff.touches(
                    touched@[q].address_spec(),
                ),
            forall|q: int|
                0 <= q < out@.len() ==> is_match(
                    diff,
                    registry.pools(),
                    *target_token,
                    (#[trigger] out@[q]).pool,
                ) && reported_change(diff, *target_token, out@[q].pool) == Some(
                    (out@[q].before, out@[q].after),
                ),
            forall|j: int|
                0 <= j < k && reported_change(diff, *target_token, (#[trigger] touched@[j])) is Some
                    ==> out@.contains(
                    PoolBalanceChange {
                        pool: touched@[j],
                        before: reported_change(diff, *target_token, touched@[j])->Some_0.0,
                        after: reported_change(diff, *target_token, touched@[j])->Some_0.1,
                    },
                ),
        decreases m - k,
    {
        let pool = touched[k];
        let addr = pool.address();
        let slot = balance_slot(&addr);
        let ghost prior_out = out@;
        let change = find_change(&diff.accounts[ti].storage, &slot);
        match change {
            Some(StorageChange::Changed(from, to)) => {
                if be_bytes_gt(&to, &from) {
                    out.push(PoolBalanceChange { pool, before: from, after: to });
                }
            },
            _ => {},
        }
        proof {
            assert forall|j: int|
                0 <= j < k + 1 && reported_change(
                    diff,
                    *target_token,
                    (#[trigger] touched@[j]),
                ) is Some implies out@.contains(
                PoolBalanceChange {
                    pool: touched@[j],
                    before: reported_change(diff, *target_token, touched@[j])->Some_0.0,
                    after: reported_change(diff, *target_token, touched@[j])->Some_0.1,
                },
            ) by {
                if j < k {
                    let w = PoolBalanceChange {
                        pool: touched@[j],
                        before: reported_change(diff, *target_token, touched@[j])->Some_0.0,
                        after: reported_change(diff, *target_token, touched@[j])->Some_0.1,
                    };
                    let q = choose|q: int| 0 <= q < prior_out.len() && prior_out[q] == w;
                    assert(out@.contains(w)) by {
                        assert(out@[q] == w);
                    }
                } else {
                    assert(out@[out@.len() - 1] == PoolBalanceChange {
                        pool: touched@[j],
                        before: reported_change(diff, *target_token, touched@[j])->Some_0.0,
                        after: reported_change(diff, *target_token, touched@[j])->Some_0.1,
                    });
                }
            }
        }
        k += 1;
    }
    proof {
        assert forall|p: Pool|
            is_match(diff, registry.pools(), *target_token, p) implies exists|q: int|
            0 <= q < out@.len() && (#[trigger] out@[q]).pool == p by {
            assert(touched@.contains(p));
            let j = choose|j: int| 0 <= j < touched@.len() && touched@[j] == p;
            let w = PoolBalanceChange {
                pool: p,
                before: reported_change(diff, *target_token, p)->Some_0.0,
                after: reported_change(diff, *target_token, p)->Some_0.1,
            };
            assert(out@.contains(w));
            let q = choose|q: int| 0 <= q < out@.len() && out@[q] == w;
            assert(out@[q].pool == p);
        }
    }
    out
}

} // verus!
