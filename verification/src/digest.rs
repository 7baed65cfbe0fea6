//! SHA-256 digests and their lowercase hexadecimal rendering.

use sha2::{Digest, Sha256};
use crate::codec::{ascii_text, be_u64, extend_bytes, hex_lower, push_u64, to_lower_hex};
use vstd::prelude::*;

verus! {

/// The SHA-256 digest that the `sha2` crate computes for `data`.
pub uninterp spec fn sha256_of(data: Seq<u8>) -> Seq<u8>;

/// SHA-256 of `data` through `sha2::Sha256::digest`. The contract names the
/// result and states its documented 32-byte length; the digest values
/// themselves are not described.
#[verifier::external_body]
pub(crate) fn sha256(data: &[u8]) -> (digest: Vec<u8>)
    ensures
        digest@ == sha256_of(data@),
        digest@.len() == 32,
{
    Sha256::digest(data).to_vec()
}

/// The lowercase hexadecimal SHA-256 of `data`.
pub fn sha256_hex(data: &[u8]) -> (text: String)
    ensures
        text@ == ascii_text(hex_lower(sha256_of(data@))),
{
    let digest = sha256(data);
    to_lower_hex(digest.as_slice())
}

/// The digest input of block `block` of a keyed value: the tag, then the
/// seed, the ordinal and the block index in big-endian.
pub open spec fn block_preimage(tag: Seq<u8>, seed: u64, ordinal: u64, block: u64) -> Seq<u8> {
    tag + be_u64(seed) + be_u64(ordinal) + be_u64(block)
}

/// The concatenated digests of blocks `0..blocks`.
pub open spec fn digest_stream(tag: Seq<u8>, seed: u64, ordinal: u64, blocks: nat) -> Seq<u8>
    decreases blocks,
{
    if blocks == 0 {
        Seq::empty()
    } else {
        digest_stream(tag, seed, ordinal, (blocks - 1) as nat) + sha256_of(
            block_preimage(tag, seed, ordinal, (blocks - 1) as u64),
        )
    }
}

/// The number of 32-byte blocks that cover `length` bytes.
pub open spec fn blocks_for(length: nat) -> nat {
    (length + 31) / 32
}

/// A value of `value_bytes` bytes drawn from the digest stream of the tag,
/// seed and ordinal: the first `value_bytes` bytes of the digests of blocks
/// `0, 1, 2, ...`.
pub fn digest_value(tag: &[u8], seed: u64, ordinal: u64, value_bytes: usize) -> (value: Vec<u8>)
    requires
        value_bytes + 32 <= usize::MAX,
    ensures
        value@ == digest_stream(tag@, seed, ordinal, blocks_for(value_bytes as nat)).take(value_bytes as int),
        value@.len() == value_bytes,
{
    let mut value: Vec<u8> = Vec::new();
    let mut block: u64 = 0;
    while value.len() < value_bytes
        invariant
            value_bytes + 32 <= usize::MAX,
            value@ == digest_stream(tag@, seed, ordinal, block as nat),
            value@.len() == 32 * block,
            32 * block < value_bytes + 32,
        decreases value_bytes + 32 - value@.len(),
    {
        let mut preimage: Vec<u8> = Vec::new();
        extend_bytes(&mut preimage, tag);
        push_u64(&mut preimage, seed);
        push_u64(&mut preimage, ordinal);
        push_u64(&mut preimage, block);
        assert(preimage@ =~= block_preimage(tag@, seed, ordinal, block));
        let digest = sha256(preimage.as_slice());
        extend_bytes(&mut value, digest.as_slice());
        block = block + 1;
    }
    assert(block == blocks_for(value_bytes as nat)) by (nonlinear_arith)
        requires
            32 * block >= value_bytes,
            32 * block < value_bytes + 32,
    ;
    value.truncate(value_bytes);
    value
}

} // verus!
