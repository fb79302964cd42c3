use poolwatch::registry::{Pool, PoolRegistry};

fn v2(address: u8, token_a: u8, token_b: u8) -> Pool {
    Pool::UniswapV2 {
        address: [address; 20],
        token_a: [token_a; 20],
        token_b: [token_b; 20],
    }
}

fn v3(address: u8, token_a: u8, token_b: u8) -> Pool {
    Pool::UniswapV3 {
        address: [address; 20],
        token_a: [token_a; 20],
        token_b: [token_b; 20],
    }
}

// Filtering returns exactly the pools (by address) whose token pair
// contains the queried token, in either slot, across mixed pool variants.
#[test]
fn filter_by_token_returns_exactly_the_matching_pools() {
    let mut registry = PoolRegistry::new();
    registry.insert(v2(1, 10, 11));
    registry.insert(v3(2, 11, 12));
    registry.insert(v2(3, 12, 13));
    registry.insert(v3(4, 11, 14));
    let matching = registry.filter_by_token(&[11u8; 20]);
    let mut addresses: Vec<u8> = matching.iter().map(|p| p.address()[0]).collect();
    addresses.sort();
    assert_eq!(addresses, vec![1, 2, 4]);
}

#[test]
fn lookup_finds_tracked_pools_only() {
    let mut registry = PoolRegistry::new();
    registry.insert(v2(1, 10, 11));
    assert_eq!(registry.len(), 1);
    let found = registry.lookup(&[1u8; 20]).expect("the tracked address is found");
    assert_eq!(found.address(), [1u8; 20]);
    assert!(registry.lookup(&[9u8; 20]).is_none());
}

// Inserting at an already-tracked address replaces the pool instead of
// tracking the address twice.
#[test]
fn insert_replaces_at_same_address() {
    let mut registry = PoolRegistry::new();
    registry.insert(v2(1, 10, 11));
    registry.insert(v3(1, 20, 21));
    assert_eq!(registry.len(), 1);
    let found = registry.lookup(&[1u8; 20]).unwrap();
    assert!(found.contains_token(&[20u8; 20]));
    assert!(!found.contains_token(&[10u8; 20]));
}
