//! Workload keys shared by the transaction contracts.

use crate::codec::{decimal, extend_bytes, push_decimal, push_zero_padded, zero_padded};
use vstd::prelude::*;
use vstd::string::StringSliceAdditionalSpecFns;

verus! {

/// The key of slot `index` in the first range: `range/0001/key/` followed by
/// the index in eight or more decimal digits.
pub open spec fn range_key_spec(index: nat) -> Seq<u8> {
    "range/0001/key/"@.map_values(|c: char| c as u8) + zero_padded(index, 8)
}

/// The key of slot `index` in the first range.
pub fn range_key(index: u64) -> (key: Vec<u8>)
    ensures
        key@ == range_key_spec(index as nat),
{
    let prefix = "range/0001/key/";
    proof {
        reveal_strlit("range/0001/key/");
        vstd::string::is_ascii_spec_bytes(prefix);
    }
    assert(prefix.is_ascii());
    let mut key: Vec<u8> = Vec::new();
    crate::codec::extend_bytes(&mut key, prefix.as_bytes());
    push_zero_padded(&mut key, index, 8);
    key
}

/// The number that a string of ASCII decimal digits denotes.
pub open spec fn digits_value(digits: Seq<u8>) -> int
    decreases digits.len(),
{
    if digits.len() == 0 {
        0
    } else {
        digits_value(digits.drop_last()) * 10 + (digits.last() - 48)
    }
}

proof fn lemma_decimal_value(n: nat)
    ensures
        digits_value(decimal(n)) == n,
    decreases n,
{
    if n >= 10 {
        lemma_decimal_value(n / 10);
        assert(decimal(n).drop_last() =~= decimal(n / 10));
        assert(decimal(n).last() == (48 + n % 10) as u8);
        assert(decimal(n).last() - 48 == n % 10);
        assert((n / 10) * 10 + n % 10 == n);
        assert(decimal(n).len() > 0);
        assert(digits_value(decimal(n)) == digits_value(decimal(n).drop_last()) * 10 + (decimal(n).last() - 48));
    } else {
        assert(decimal(n).len() > 0);
        assert(digits_value(decimal(n)) == digits_value(decimal(n).drop_last()) * 10 + (decimal(n).last() - 48));
        assert(decimal(n).drop_last() =~= Seq::<u8>::empty());
        assert(decimal(n).last() - 48 == n);
    }
}

proof fn lemma_leading_zeros_value(zeros: nat, digits: Seq<u8>)
    ensures
        digits_value(Seq::new(zeros, |i: int| 48u8) + digits) == digits_value(digits),
    decreases digits.len(), zeros,
{
    let padded = Seq::new(zeros, |i: int| 48u8) + digits;
    if digits.len() == 0 {
        assert(padded =~= Seq::new(zeros, |i: int| 48u8));
        if zeros > 0 {
            assert(padded.drop_last() =~= Seq::new((zeros - 1) as nat, |i: int| 48u8) + digits);
            lemma_leading_zeros_value((zeros - 1) as nat, digits);
        }
    } else {
        assert(padded.drop_last() =~= Seq::new(zeros, |i: int| 48u8) + digits.drop_last());
        lemma_leading_zeros_value(zeros, digits.drop_last());
    }
}

/// Zero-padding keeps the value of the digits.
proof fn lemma_zero_padded_value(n: nat, width: nat)
    ensures
        digits_value(zero_padded(n, width)) == n,
{
    lemma_decimal_value(n);
    if decimal(n).len() < width {
        lemma_leading_zeros_value((width - decimal(n).len()) as nat, decimal(n));
    }
}

/// Distinct slots have distinct keys.
pub proof fn lemma_range_key_injective(i: nat, j: nat)
    requires
        range_key_spec(i) == range_key_spec(j),
    ensures
        i == j,
{
    let prefix = "range/0001/key/"@.map_values(|c: char| c as u8);
    let n = prefix.len() as int;
    assert(range_key_spec(i).subrange(n, range_key_spec(i).len() as int) =~= zero_padded(i, 8));
    assert(range_key_spec(j).subrange(n, range_key_spec(j).len() as int) =~= zero_padded(j, 8));
    lemma_zero_padded_value(i, 8);
    lemma_zero_padded_value(j, 8);
}

/// The bytes of ASCII text.
pub open spec fn ascii_bytes(text: Seq<char>) -> Seq<u8> {
    text.map_values(|c: char| c as u8)
}

/// A per-seed key: the prefix, the seed in decimal, `/`, and the index in
/// eight or more digits.
pub open spec fn seeded_key_spec(prefix: Seq<char>, seed: u64, index: u64) -> Seq<u8> {
    ascii_bytes(prefix) + decimal(seed as nat) + seq![47u8] + zero_padded(index as nat, 8)
}

/// Build a per-seed key under an ASCII prefix.
pub fn seeded_key(prefix: &str, seed: u64, index: u64) -> (key: Vec<u8>)
    requires
        prefix.is_ascii(),
    ensures
        key@ == seeded_key_spec(prefix@, seed, index),
{
    proof {
        vstd::string::is_ascii_spec_bytes(prefix);
    }
    let mut key: Vec<u8> = Vec::new();
    extend_bytes(&mut key, prefix.as_bytes());
    push_decimal(&mut key, seed);
    key.push(47u8);
    push_zero_padded(&mut key, index, 8);
    assert(key@ =~= seeded_key_spec(prefix@, seed, index));
    key
}

} // verus!
