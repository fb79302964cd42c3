use poolwatch::analyzer::{
    analyze_state_diff, AccountDiff, StateDiff, StorageChange, StorageEntry,
};
use poolwatch::registry::{Pool, PoolRegistry};

fn word(value: u128) -> [u8; 32] {
    let mut w = [0u8; 32];
    w[16..].copy_from_slice(&value.to_be_bytes());
    w
}

// The slot of `balanceOf[pool]` with mapping slot index 3, computed here
// independently with the real hash, as a token contract lays it out.
fn expected_balance_slot(pool_address: &[u8; 20]) -> [u8; 32] {
    let mut preimage = [0u8; 64];
    preimage[12..32].copy_from_slice(pool_address);
    preimage[63] = 3;
    ethers::utils::keccak256(preimage)
}

fn tracked_pool(address: [u8; 20], token_a: [u8; 20], token_b: [u8; 20]) -> Pool {
    Pool::UniswapV2 { address, token_a, token_b }
}

fn registry_with(pools: Vec<Pool>) -> PoolRegistry {
    let mut registry = PoolRegistry::new();
    for p in pools {
        registry.insert(p);
    }
    registry
}

// A pool holding the target token whose balance slot moves 1000 -> 1500 is
// reported once, with both balance words; a decrease reports nothing.
#[test]
fn balance_increase_is_reported_and_decrease_is_not() {
    let pool_address = [0xaau8; 20];
    let target = [0xbbu8; 20];
    let other = [0xccu8; 20];
    let registry = registry_with(vec![tracked_pool(pool_address, target, other)]);
    let slot = expected_balance_slot(&pool_address);

    let increase = StateDiff {
        accounts: vec![
            AccountDiff { address: pool_address, storage: vec![] },
            AccountDiff {
                address: target,
                storage: vec![StorageEntry {
                    slot,
                    change: StorageChange::Changed(word(1000), word(1500)),
                }],
            },
        ],
    };
    let reports = analyze_state_diff(&increase, &registry, &target);
    assert_eq!(reports.len(), 1);
    assert_eq!(reports[0].pool.address(), pool_address);
    assert_eq!(reports[0].before, word(1000));
    assert_eq!(reports[0].after, word(1500));

    let decrease = StateDiff {
        accounts: vec![
            AccountDiff { address: pool_address, storage: vec![] },
            AccountDiff {
                address: target,
                storage: vec![StorageEntry {
                    slot,
                    change: StorageChange::Changed(word(1500), word(1000)),
                }],
            },
        ],
    };
    assert!(analyze_state_diff(&decrease, &registry, &target).is_empty());
}

// A diff with no record for the target token's account yields an empty
// report, not an error, even when tracked pools were touched.
#[test]
fn missing_target_account_yields_empty_report() {
    let pool_address = [0xaau8; 20];
    let target = [0xbbu8; 20];
    let other = [0xccu8; 20];
    let registry = registry_with(vec![tracked_pool(pool_address, target, other)]);
    let diff = StateDiff {
        accounts: vec![AccountDiff { address: pool_address, storage: vec![] }],
    };
    assert!(analyze_state_diff(&diff, &registry, &target).is_empty());
    let empty = StateDiff { accounts: vec![] };
    assert!(analyze_state_diff(&empty, &registry, &target).is_empty());
}

// Only pools whose token pair contains the target token are reported: a
// touched pool of two other tokens stays silent even if its derived slot
// moves, and untracked touched addresses are skipped.
#[test]
fn pools_without_the_target_token_are_not_reported() {
    let pool_address = [0xaau8; 20];
    let target = [0xbbu8; 20];
    let other_a = [0xccu8; 20];
    let other_b = [0xddu8; 20];
    let registry = registry_with(vec![tracked_pool(pool_address, other_a, other_b)]);
    let slot = expected_balance_slot(&pool_address);
    let diff = StateDiff {
        accounts: vec![
            AccountDiff { address: pool_address, storage: vec![] },
            AccountDiff { address: [0x11u8; 20], storage: vec![] },
            AccountDiff {
                address: target,
                storage: vec![StorageEntry {
                    slot,
                    change: StorageChange::Changed(word(1), word(2)),
                }],
            },
        ],
    };
    assert!(analyze_state_diff(&diff, &registry, &target).is_empty());
}

// The target token's account must show a change at the pool's own derived
// slot: a change at some other slot, or an unchanged recorded slot, is no
// match.
#[test]
fn only_the_derived_slot_counts() {
    let pool_address = [0xaau8; 20];
    let target = [0xbbu8; 20];
    let other = [0xccu8; 20];
    let registry = registry_with(vec![tracked_pool(pool_address, other, target)]);
    let right_slot = expected_balance_slot(&pool_address);
    let wrong_slot = expected_balance_slot(&[0x12u8; 20]);
    let diff = StateDiff {
        accounts: vec![
            AccountDiff { address: pool_address, storage: vec![] },
            AccountDiff {
                address: target,
                storage: vec![
                    StorageEntry { slot: wrong_slot, change: StorageChange::Changed(word(1), word(2)) },
                    StorageEntry { slot: right_slot, change: StorageChange::Same },
                ],
            },
        ],
    };
    assert!(analyze_state_diff(&diff, &registry, &target).is_empty());
}
