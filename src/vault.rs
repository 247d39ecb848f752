//! The owner's vault key: where it is derived from, and how its public key is
//! shown.
use vstd::prelude::*;

use crate::identity::{copy_bytes, Identity};

verus! {

/// The lowercase hexadecimal digit for a nibble.
pub open spec fn hex_digit(n: int) -> char {
    seq!['0', '1', '2', '3', '4', '5', '6', '7', '8', '9', 'a', 'b', 'c', 'd', 'e', 'f'][n]
}

/// `b` in lowercase hexadecimal, two digits per byte, high nibble first.
pub open spec fn hex_of(b: Seq<u8>) -> Seq<char>
    decreases b.len(),
{
    if b.len() == 0 {
        Seq::empty()
    } else {
        seq![hex_digit(b[0] as int / 16), hex_digit(b[0] as int % 16)] + hex_of(b.subrange(1, b.len() as int))
    }
}

/// Relies on hex::encode: each byte becomes two lowercase hexadecimal digits,
/// high nibble first, in the order of the input.
#[verifier::external_body]
fn encode_hex(b: &[u8]) -> (r: String)
    ensures
        r@ == hex_of(b@),
{
    hex::encode(b)
}

/// The derivation path of `owner`'s vault key: a single segment holding the
/// owner's identity bytes.
pub fn vault_derivation_path(owner: &Identity) -> (r: Vec<Vec<u8>>)
    ensures
        r@.len() == 1,
        r@[0]@ == owner@,
{
    let mut path: Vec<Vec<u8>> = Vec::new();
    path.push(copy_bytes(owner.as_bytes()));
    path
}

/// The textual form of a vault's public key: its bytes in hexadecimal.
pub fn vault_key_text(public_key: &[u8]) -> (r: String)
    ensures
        r@ == hex_of(public_key@),
        r@.len() == 2 * public_key@.len(),
{
    proof {
        lemma_hex_len(public_key@);
    }
    encode_hex(public_key)
}

proof fn lemma_hex_len(b: Seq<u8>)
    ensures
        hex_of(b).len() == 2 * b.len(),
    decreases b.len(),
{
    if b.len() > 0 {
        lemma_hex_len(b.subrange(1, b.len() as int));
    }
}

} // verus!
