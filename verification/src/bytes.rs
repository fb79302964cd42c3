//! Fixed-width byte strings read as big-endian unsigned integers: the
//! form in which storage slots, storage values and account addresses
//! travel through the pipeline.

use vstd::prelude::*;

verus! {

/// The unsigned integer a byte string denotes in big-endian order.
pub open spec fn be_nat(s: Seq<u8>) -> nat
    decreases s.len(),
{
    if s.len() == 0 {
        0
    } else {
        be_nat(s.drop_last()) * 256 + (s.last() as nat)
    }
}

/// Two equal-length byte strings that agree before position `i`, where the
/// first holds the larger byte at `i`, denote integers in the same order.
pub proof fn lemma_be_nat_prefix_gt(a: Seq<u8>, b: Seq<u8>, i: int)
    requires
        a.len() == b.len(),
        0 <= i < a.len(),
        forall|j: int| 0 <= j < i ==> a[j] == b[j],
        a[i] > b[i],
    ensures
        be_nat(a) > be_nat(b),
    decreases a.len(),
{
    if i == a.len() - 1 {
        assert(a.drop_last() =~= b.drop_last());
    } else {
        let a2 = a.drop_last();
        let b2 = b.drop_last();
        assert(forall|j: int| 0 <= j < i ==> a2[j] == b2[j]);
        assert(a2[i] > b2[i]);
        lemma_be_nat_prefix_gt(a2, b2, i);
        assert(be_nat(a2) * 256 >= (be_nat(b2) + 1) * 256) by (nonlinear_arith)
            requires
                be_nat(a2) >= be_nat(b2) + 1,
        ;
        assert(be_nat(a) >= be_nat(a2) * 256);
        assert((be_nat(b2) + 1) * 256 == be_nat(b2) * 256 + 256);
        assert(be_nat(b) < be_nat(b2) * 256 + 256);
    }
}

/// Whether `a` denotes a strictly larger big-endian integer than `b`.
pub fn be_bytes_gt(a: &[u8; 32], b: &[u8; 32]) -> (r: bool)
    ensures
        r == (be_nat(a@) > be_nat(b@)),
{
    let mut i: usize = 0;
    while i < 32
        invariant
            i <= 32,
            forall|j: int| 0 <= j < i ==> a@[j] == b@[j],
        decreases 32 - i,
    {
        if a[i] > b[i] {
            proof {
                lemma_be_nat_prefix_gt(a@, b@, i as int);
            }
            return true;
        }
        if a[i] < b[i] {
            proof {
                lemma_be_nat_prefix_gt(b@, a@, i as int);
            }
            return false;
        }
        i += 1;
    }
    proof {
        assert(a@ =~= b@);
    }
    false
}

/// Whether two 32-byte strings are equal.
pub fn bytes32_eq(a: &[u8; 32], b: &[u8; 32]) -> (r: bool)
    ensures
        r == (a@ == b@),
{
    let mut i: usize = 0;
    while i < 32
        invariant
            i <= 32,
            forall|j: int| 0 <= j < i ==> a@[j] == b@[j],
        decreases 32 - i,
    {
        if a[i] != b[i] {
            return false;
        }
        i += 1;
    }
    proof {
        assert(a@ =~= b@);
    }
    true
}

/// Whether two 20-byte strings (account addresses) are equal.
pub fn bytes20_eq(a: &[u8; 20], b: &[u8; 20]) -> (r: bool)
    ensures
        r == (a@ == b@),
{
    let mut i: usize = 0;
    while i < 20
        invariant
            i <= 20,
            forall|j: int| 0 <= j < i ==> a@[j] == b@[j],
        decreases 20 - i,
    {
        if a[i] != b[i] {
            return false;
        }
        i += 1;
    }
    proof {
        assert(a@ =~= b@);
    }
    true
}

} // verus!
