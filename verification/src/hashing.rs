//! Content hashing (BLAKE3) and the keys used to detect duplicate captures.
use vstd::prelude::*;

verus! {

/// The lowercase hexadecimal BLAKE3 digest of `bytes`.
pub uninterp spec fn blake3_hex(bytes: Seq<u8>) -> Seq<char>;

pub open spec fn is_lower_hex(c: char) -> bool {
    ('0' as u32 <= c as u32 <= '9' as u32) || ('a' as u32 <= c as u32 <= 'f' as u32)
}

/// Computes a deterministic, storable content hash for the given bytes:
/// `blake3::hash(bytes).to_hex()`. The digest itself is not stated; its
/// text is 64 lowercase hexadecimal digits (32 bytes, two digits each, as
/// `Hash::to_hex` writes them).
#[verifier::external_body]
pub fn hash_content(bytes: &[u8]) -> (h: String)
    ensures
        h@ == blake3_hex(bytes@),
        h@.len() == 64,
        forall|i: int| 0 <= i < h@.len() ==> is_lower_hex(#[trigger] h@[i]),
{
    blake3::hash(bytes).to_hex().to_string()
}

pub open spec fn dedup_key_of(hash: Seq<char>, mime: Seq<char>) -> Seq<char> {
    hash + ":"@ + mime
}

/// Combines a content hash with a normalized MIME type into a dedup key.
pub fn dedup_key(hash: &str, mime: &str) -> (key: String)
    ensures
        key@ == dedup_key_of(hash@, mime@),
{
    let mut key = hash.to_string();
    key.append(":");
    key.append(mime);
    key
}

/// Two dedup keys built from hashes of the same length (every content hash
/// has 64 digits) are equal exactly when both the hashes and the MIME types
/// are: a key identifies its content and its type.
pub proof fn lemma_dedup_key_injective(h1: Seq<char>, m1: Seq<char>, h2: Seq<char>, m2: Seq<char>)
    requires
        h1.len() == h2.len(),
    ensures
        (dedup_key_of(h1, m1) == dedup_key_of(h2, m2)) <==> (h1 == h2 && m1 == m2),
{
    reveal_strlit(":");
    let k1 = dedup_key_of(h1, m1);
    let k2 = dedup_key_of(h2, m2);
    let n = h1.len() + 1;
    if k1 == k2 {
        assert(h1 =~= k1.subrange(0, h1.len() as int));
        assert(h2 =~= k2.subrange(0, h2.len() as int));
        assert(m1 =~= k1.subrange(n as int, k1.len() as int));
        assert(m2 =~= k2.subrange(n as int, k2.len() as int));
    }
}

} // verus!
