use vstd::prelude::*;

verus! {

/// Value of one ASCII hexadecimal digit, either case.
pub open spec fn hex_val(c: u8) -> Option<u8> {
    if 48 <= c <= 57 {
        Some((c - 48) as u8)
    } else if 97 <= c <= 102 {
        Some((c - 87) as u8)
    } else if 65 <= c <= 70 {
        Some((c - 55) as u8)
    } else {
        None
    }
}

/// Bytes written as pairs of hexadecimal digits, high digit first.
pub open spec fn hex_decode(t: Seq<u8>) -> Option<Seq<u8>>
    decreases t.len(),
{
    if t.len() % 2 != 0 {
        None
    } else if t.len() == 0 {
        Some(Seq::empty())
    } else {
        match (hex_val(t[0]), hex_val(t[1]), hex_decode(t.subrange(2, t.len() as int))) {
            (Some(h), Some(l), Some(rest)) => Some(seq![(h * 16 + l) as u8] + rest),
            _ => None,
        }
    }
}

/// Relies on hex::decode: pairs of hexadecimal digits, either case, become
/// bytes; an odd length or any other character is an error.
#[verifier::external_body]
pub(crate) fn decode_hex(text: &Vec<u8>) -> (r: Option<Vec<u8>>)
    ensures
        match r {
            Some(v) => hex_decode(text@) == Some(v@),
            None => hex_decode(text@) is None,
        },
{
    hex::decode(text).ok()
}

/// The keyed permutation of the node indices `0..n` that a 32-byte key selects.
pub uninterp spec fn node_order_of(n: nat, key: Seq<u8>) -> Seq<usize>;

/// Relies on permutation_iterator::Permutor::new_with_slice_key: iterating it
/// yields each index below `max` exactly once, in an order fixed by the key
/// (a Feistel network keyed with it).
#[verifier::external_body]
pub(crate) fn permute_nodes(n: usize, key: &[u8; 32]) -> (r: Vec<usize>)
    ensures
        r@ == node_order_of(n as nat, key@),
        r@.len() == n,
        forall|i: int| 0 <= i < r@.len() ==> r@[i] < n,
        r@.no_duplicates(),
{
    permutation_iterator::Permutor::new_with_slice_key(n as u64, *key).map(|i| i as usize).collect()
}

/// The first 32 bytes of the SHA-512 digest of `data`.
pub uninterp spec fn sha512_head_of(data: Seq<u8>) -> Seq<u8>;

/// Relies on ed25519_dalek::Sha512 (sha2's SHA-512) through the Digest trait:
/// the digest of `data`, of which the first 32 of its 64 bytes are kept.
#[verifier::external_body]
pub(crate) fn sha512_head(data: &Vec<u8>) -> (r: [u8; 32])
    ensures
        r@ == sha512_head_of(data@),
{
    let h = <ed25519_dalek::Sha512 as ed25519_dalek::Digest>::digest(data);
    let mut out = [0u8; 32];
    out.copy_from_slice(&h[..32]);
    out
}

/// Relies on Vec::capacity: how many bytes the vector can hold without
/// reallocating, never fewer than it holds.
#[verifier::external_body]
pub(crate) fn vec_capacity(v: &Vec<u8>) -> (r: usize)
    ensures
        r >= v@.len(),
{
    v.capacity()
}

} // verus!
