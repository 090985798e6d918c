//! Account addresses and content hashes: fixed 32-byte values, with the
//! byte-wise order in which addresses are sorted.

use vstd::prelude::*;

verus! {

/// The number of bytes in an address and in a content hash.
pub const WIDTH: usize = 32;

/// The public address of an account.
#[derive(Clone, Copy, Debug, PartialEq, Eq)]
pub struct AccountAddress {
    pub bytes: [u8; 32],
}

impl View for AccountAddress {
    type V = Seq<u8>;

    open spec fn view(&self) -> Seq<u8> {
        self.bytes@
    }
}

/// A fixed-size digest of some encoded payload.
#[derive(Clone, Copy, Debug, PartialEq, Eq)]
pub struct ContentHash {
    pub bytes: [u8; 32],
}

impl View for ContentHash {
    type V = Seq<u8>;

    open spec fn view(&self) -> Seq<u8> {
        self.bytes@
    }
}

/// Thirty-two zero bytes.
pub open spec fn blank() -> Seq<u8> {
    Seq::new(32, |i: int| 0u8)
}

impl ContentHash {
    /// The hash of all zero bytes, which stands where no hash is known yet.
    pub fn blank() -> (hash: ContentHash)
        ensures
            hash@ == blank(),
    {
        let hash: ContentHash = ContentHash { bytes: [0u8; 32] };
        hash
    }
}

/// How one address stands to another in the byte-wise order.
#[derive(Clone, Copy, Debug, PartialEq, Eq, Structural)]
pub enum Rank {
    Before,
    Same,
    After,
}

/// `a` and `b` hold the same bytes at every index below `k`.
pub open spec fn agree_below(a: Seq<u8>, b: Seq<u8>, k: int) -> bool {
    forall|j: int| 0 <= j < k ==> a[j] == b[j]
}

/// `k` is the first index at which `a` and `b` differ, and `a` is the
/// smaller there.
pub open spec fn smaller_at(a: Seq<u8>, b: Seq<u8>, k: int) -> bool {
    &&& 0 <= k < a.len()
    &&& k < b.len()
    &&& agree_below(a, b, k)
    &&& a[k] < b[k]
}

/// The strict byte-wise (lexicographic) order on sequences of one length.
pub open spec fn precedes(a: Seq<u8>, b: Seq<u8>) -> bool {
    exists|k: int| #[trigger] smaller_at(a, b, k)
}

/// No sequence precedes itself.
pub proof fn lemma_precedes_irreflexive(a: Seq<u8>)
    ensures
        !precedes(a, a),
{
}

/// The order is transitive.
pub proof fn lemma_precedes_transitive(a: Seq<u8>, b: Seq<u8>, c: Seq<u8>)
    requires
        precedes(a, b),
        precedes(b, c),
    ensures
        precedes(a, c),
{
    let k1 = choose|k: int| #[trigger] smaller_at(a, b, k);
    let k2 = choose|k: int| #[trigger] smaller_at(b, c, k);
    let k = if k1 <= k2 { k1 } else { k2 };
    assert(smaller_at(a, c, k));
}

/// No two sequences precede each other.
pub proof fn lemma_precedes_asymmetric(a: Seq<u8>, b: Seq<u8>)
    requires
        precedes(a, b),
    ensures
        !precedes(b, a),
{
    if precedes(b, a) {
        lemma_precedes_transitive(a, b, a);
        lemma_precedes_irreflexive(a);
    }
}

/// Of two sequences of one length, either one precedes the other or they
/// are equal.
pub proof fn lemma_precedes_total(a: Seq<u8>, b: Seq<u8>)
    requires
        a.len() == b.len(),
    ensures
        precedes(a, b) || a == b || precedes(b, a),
{
    lemma_first_difference(a, b, 0);
}

/// Two sequences that agree below `from` differ first somewhere at or
/// after `from`, or not at all.
proof fn lemma_first_difference(a: Seq<u8>, b: Seq<u8>, from: int)
    requires
        a.len() == b.len(),
        0 <= from <= a.len(),
        agree_below(a, b, from),
    ensures
        precedes(a, b) || a == b || precedes(b, a),
    decreases a.len() - from,
{
    if from == a.len() {
        assert(a =~= b);
    } else if a[from] < b[from] {
        assert(smaller_at(a, b, from));
    } else if b[from] < a[from] {
        assert(smaller_at(b, a, from));
    } else {
        lemma_first_difference(a, b, from + 1);
    }
}

impl AccountAddress {
    /// Compares two addresses byte by byte, the first byte weighing most.
    pub fn rank(&self, other: &AccountAddress) -> (r: Rank)
        ensures
            r == Rank::Before <==> precedes(self@, other@),
            r == Rank::Same <==> *self == *other,
            r == Rank::After <==> precedes(other@, self@),
    {
        let mut i: usize = 0;
        while i < WIDTH
            invariant
                i <= WIDTH,
                agree_below(self@, other@, i as int),
            decreases WIDTH - i,
        {
            if self.bytes[i] < other.bytes[i] {
                proof {
                    assert(smaller_at(self@, other@, i as int));
                    lemma_precedes_asymmetric(self@, other@);
                    lemma_precedes_irreflexive(self@);
                }
                return Rank::Before;
            }
            if self.bytes[i] > other.bytes[i] {
                proof {
                    assert(smaller_at(other@, self@, i as int));
                    lemma_precedes_asymmetric(other@, self@);
                    lemma_precedes_irreflexive(self@);
                }
                return Rank::After;
            }
            i += 1;
        }
        proof {
            assert(self.bytes =~= other.bytes);
            lemma_precedes_irreflexive(self@);
        }
        Rank::Same
    }

    /// Whether two addresses hold the same bytes.
    pub fn same(&self, other: &AccountAddress) -> (r: bool)
        ensures
            r == (*self == *other),
    {
        match self.rank(other) {
            Rank::Same => true,
            _ => false,
        }
    }
}

} // verus!
