//! Content hashes of encoded payloads.

use vstd::prelude::*;
use subxt::ext::sp_runtime::traits::BlakeTwo256;
use crate::address::ContentHash;

verus! {

/// The 32-byte Blake2b digest of a byte string.
pub uninterp spec fn blake2_256(bytes: Seq<u8>) -> Seq<u8>;

/// Calls `BlakeTwo256::hash` of sp-runtime on the bytes. The digest is a
/// function of the bytes alone; nothing more is claimed of it than that it
/// is the value named [`blake2_256`].
#[verifier::external_body]
pub(crate) fn digest(bytes: &[u8]) -> (hash: ContentHash)
    ensures
        hash@ == blake2_256(bytes@),
{
    ContentHash { bytes: <BlakeTwo256 as subxt::ext::sp_runtime::traits::Hash>::hash(bytes).0 }
}

/// The content hash of a byte string: the one hash that holds its
/// Blake2b digest.
pub open spec fn hash_of(bytes: Seq<u8>) -> ContentHash {
    choose|hash: ContentHash| hash@ == blake2_256(bytes)
}

/// The content hash by which an encoded payload is known on the chain.
pub fn content_hash(bytes: &[u8]) -> (hash: ContentHash)
    ensures
        hash == hash_of(bytes@),
        hash@ == blake2_256(bytes@),
{
    let hash: ContentHash = digest(bytes);
    proof {
        let chosen = hash_of(bytes@);
        assert(chosen@ == blake2_256(bytes@));
        assert(chosen.bytes =~= hash.bytes);
    }
    hash
}

} // verus!
