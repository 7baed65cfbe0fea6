//! Canonical big-endian and length-prefixed byte encodings, decimal and
//! hexadecimal renderings, and ASCII text construction.

use vstd::prelude::*;
use vstd::string::StringSliceAdditionalSpecFns;
use vstd::string::StringExecFns;

verus! {

/// Big-endian encoding of a `u64`.
pub open spec fn be_u64(v: u64) -> Seq<u8> {
    seq![
        (v >> 56u64) as u8, (v >> 48u64) as u8, (v >> 40u64) as u8, (v >> 32u64) as u8,
        (v >> 24u64) as u8, (v >> 16u64) as u8, (v >> 8u64) as u8, v as u8,
    ]
}

/// Big-endian encoding of a `u32`.
pub open spec fn be_u32(v: u32) -> Seq<u8> {
    seq![(v >> 24u32) as u8, (v >> 16u32) as u8, (v >> 8u32) as u8, v as u8]
}

/// Big-endian encoding of a `u16`.
pub open spec fn be_u16(v: u16) -> Seq<u8> {
    seq![(v >> 8u16) as u8, v as u8]
}

/// A length-prefixed field: the big-endian length followed by the bytes.
pub open spec fn framed(value: Seq<u8>) -> Seq<u8> {
    be_u64(value.len() as u64) + value
}

/// The characters of an ASCII byte string.
pub open spec fn ascii_text(bytes: Seq<u8>) -> Seq<char> {
    bytes.map_values(|b: u8| b as char)
}

pub open spec fn is_ascii_bytes(bytes: Seq<u8>) -> bool {
    forall|i: int| 0 <= i < bytes.len() ==> bytes[i] < 128
}

/// Append the big-endian encoding of `value`.
pub fn push_u64(bytes: &mut Vec<u8>, value: u64)
    ensures
        final(bytes)@ == old(bytes)@ + be_u64(value),
{
    bytes.push((value >> 56u64) as u8);
    bytes.push((value >> 48u64) as u8);
    bytes.push((value >> 40u64) as u8);
    bytes.push((value >> 32u64) as u8);
    bytes.push((value >> 24u64) as u8);
    bytes.push((value >> 16u64) as u8);
    bytes.push((value >> 8u64) as u8);
    bytes.push(value as u8);
}

/// Append the big-endian encoding of `value`.
pub fn push_u32(bytes: &mut Vec<u8>, value: u32)
    ensures
        final(bytes)@ == old(bytes)@ + be_u32(value),
{
    bytes.push((value >> 24u32) as u8);
    bytes.push((value >> 16u32) as u8);
    bytes.push((value >> 8u32) as u8);
    bytes.push(value as u8);
}

/// Append the big-endian encoding of `value`.
pub fn push_u16(bytes: &mut Vec<u8>, value: u16)
    ensures
        final(bytes)@ == old(bytes)@ + be_u16(value),
{
    bytes.push((value >> 8u16) as u8);
    bytes.push(value as u8);
}

/// Append every byte of `value` in order.
pub fn extend_bytes(bytes: &mut Vec<u8>, value: &[u8])
    ensures
        final(bytes)@ == old(bytes)@ + value@,
{
    let ghost start = bytes@;
    let mut index: usize = 0;
    while index < value.len()
        invariant
            index <= value@.len(),
            bytes@ == start + value@.subrange(0, index as int),
        decreases value@.len() - index,
    {
        bytes.push(value[index]);
        index = index + 1;
        assert(value@.subrange(0, index as int) =~= value@.subrange(0, index - 1 as int).push(
            value@[index - 1],
        ));
    }
    assert(value@.subrange(0, value@.len() as int) =~= value@);
}

/// Append one length-prefixed byte field.
pub fn push_bytes(bytes: &mut Vec<u8>, value: &[u8])
    requires
        value@.len() <= u64::MAX,
    ensures
        final(bytes)@ == old(bytes)@ + framed(value@),
{
    push_u64(bytes, value.len() as u64);
    extend_bytes(bytes, value);
    assert(old(bytes)@ + be_u64(value@.len() as u64) + value@ =~= old(bytes)@ + framed(value@));
}

/// Append one length-prefixed UTF-8 text field.
pub fn push_string(bytes: &mut Vec<u8>, value: &str)
    requires
        value.spec_bytes().len() <= u64::MAX,
    ensures
        final(bytes)@ == old(bytes)@ + framed(value.spec_bytes()),
{
    push_bytes(bytes, value.as_bytes());
}

/// Build a `String` from ASCII bytes; each byte becomes the character of the
/// same code. Wraps `String::from_utf8`, which accepts every ASCII byte string
/// and keeps its bytes unchanged.
#[verifier::external_body]
pub(crate) fn ascii_string(bytes: Vec<u8>) -> (text: String)
    requires
        is_ascii_bytes(bytes@),
    ensures
        text@ == ascii_text(bytes@),
{
    String::from_utf8(bytes).unwrap()
}


/// Append `tail` to `text`.
pub(crate) fn append_text(text: &mut String, tail: &str)
    ensures
        final(text)@ == old(text)@ + tail@,
{
    text.append(tail);
}

/// The decimal digits of `n` as ASCII bytes, most significant first.
pub open spec fn decimal(n: nat) -> Seq<u8>
    decreases n,
{
    if n < 10 {
        seq![(48 + n) as u8]
    } else {
        decimal(n / 10).push((48 + n % 10) as u8)
    }
}

/// The decimal digits of `n`, left-padded with ASCII zeros to `width`.
pub open spec fn zero_padded(n: nat, width: nat) -> Seq<u8> {
    let digits = decimal(n);
    if digits.len() < width {
        Seq::new((width - digits.len()) as nat, |i: int| 48u8) + digits
    } else {
        digits
    }
}

pub open spec fn pow10(k: nat) -> nat
    decreases k,
{
    if k == 0 {
        1
    } else {
        10 * pow10((k - 1) as nat)
    }
}

proof fn lemma_decimal_len_pow(n: nat, k: nat)
    requires
        k >= 1,
        n < pow10(k),
    ensures
        decimal(n).len() <= k,
    decreases k,
{
    if n >= 10 {
        assert(k >= 2) by {
            if k == 1 {
                assert(pow10(1) == 10 * pow10(0));
            }
        }
        assert(n / 10 < pow10((k - 1) as nat)) by {
            assert(pow10(k) == 10 * pow10((k - 1) as nat));
        }
        lemma_decimal_len_pow(n / 10, (k - 1) as nat);
    }
}

pub proof fn lemma_decimal_len_bound(n: nat)
    ensures
        decimal(n).len() >= 1,
        n <= u64::MAX ==> decimal(n).len() <= 20,
    decreases n,
{
    if n >= 10 {
        lemma_decimal_len_bound(n / 10);
    }
    if n <= u64::MAX {
        reveal_with_fuel(pow10, 21);
        assert(pow10(20) == 100000000000000000000nat);
        lemma_decimal_len_pow(n, 20);
    }
}

pub proof fn lemma_decimal_is_ascii(n: nat)
    ensures
        is_ascii_bytes(decimal(n)),
    decreases n,
{
    if n >= 10 {
        lemma_decimal_is_ascii(n / 10);
    }
}

/// Append the decimal rendering of `n`.
pub fn push_decimal(bytes: &mut Vec<u8>, n: u64)
    ensures
        final(bytes)@ == old(bytes)@ + decimal(n as nat),
    decreases n,
{
    if n >= 10 {
        push_decimal(bytes, n / 10);
    }
    bytes.push((48 + n % 10) as u8);
    proof {
        if n >= 10 {
            assert(decimal(n as nat) == decimal((n / 10) as nat).push((48 + n % 10) as u8));
        }
    }
}

/// The decimal rendering of `n` as text.
pub fn decimal_text(n: u64) -> (text: String)
    ensures
        text@ == ascii_text(decimal(n as nat)),
{
    let mut bytes: Vec<u8> = Vec::new();
    push_decimal(&mut bytes, n);
    proof {
        lemma_decimal_is_ascii(n as nat);
        assert(bytes@ =~= decimal(n as nat));
    }
    ascii_string(bytes)
}

/// The number of decimal digits of `n`.
pub fn decimal_width(n: u64) -> (width: usize)
    ensures
        width == decimal(n as nat).len(),
    decreases n,
{
    proof {
        lemma_decimal_len_bound(n as nat);
    }
    if n < 10 {
        1
    } else {
        proof {
            lemma_decimal_len_bound((n / 10) as nat);
        }
        decimal_width(n / 10) + 1
    }
}

/// Append the decimal rendering of `n`, left-padded with zeros to `width`.
pub fn push_zero_padded(bytes: &mut Vec<u8>, n: u64, width: usize)
    ensures
        final(bytes)@ == old(bytes)@ + zero_padded(n as nat, width as nat),
{
    let digits = decimal_width(n);
    let ghost start = bytes@;
    if digits < width {
        let pad = width - digits;
        let mut index: usize = 0;
        while index < pad
            invariant
                index <= pad,
                bytes@ == start + Seq::new(index as nat, |i: int| 48u8),
            decreases pad - index,
        {
            bytes.push(48u8);
            index = index + 1;
            assert(Seq::new(index as nat, |i: int| 48u8) =~= Seq::new(
                (index - 1) as nat,
                |i: int| 48u8,
            ).push(48u8));
        }
        push_decimal(bytes, n);
        assert(bytes@ =~= start + zero_padded(n as nat, width as nat));
    } else {
        push_decimal(bytes, n);
    }
}

/// The lowercase hexadecimal digit for a nibble.
pub open spec fn hex_digit(nibble: u8) -> u8 {
    if nibble < 10 {
        (48 + nibble) as u8
    } else {
        (87 + nibble) as u8
    }
}

/// Lowercase hexadecimal rendering, two digits per byte.
pub open spec fn hex_lower(bytes: Seq<u8>) -> Seq<u8>
    decreases bytes.len(),
{
    if bytes.len() == 0 {
        Seq::empty()
    } else {
        let last = bytes.last();
        hex_lower(bytes.drop_last()) + seq![hex_digit(last / 16), hex_digit(last % 16)]
    }
}

/// A lowercase hexadecimal digit byte.
pub open spec fn is_lower_hex_byte(b: u8) -> bool {
    (48 <= b <= 57) || (97 <= b <= 102)
}

pub proof fn lemma_hex_lower_shape(bytes: Seq<u8>)
    ensures
        hex_lower(bytes).len() == 2 * bytes.len(),
        forall|i: int| 0 <= i < hex_lower(bytes).len() ==> is_lower_hex_byte(#[trigger] hex_lower(bytes)[i]),
    decreases bytes.len(),
{
    if bytes.len() > 0 {
        lemma_hex_lower_shape(bytes.drop_last());
        let prior = hex_lower(bytes.drop_last());
        let last = bytes.last();
        let tail = seq![hex_digit(last / 16), hex_digit(last % 16)];
        assert forall|i: int| 0 <= i < hex_lower(bytes).len() implies is_lower_hex_byte(
            #[trigger] hex_lower(bytes)[i],
        ) by {
            if i < prior.len() {
                assert(hex_lower(bytes)[i] == prior[i]);
            } else {
                assert(hex_lower(bytes)[i] == tail[i - prior.len()]);
            }
        }
    }
}

/// Render bytes as lowercase hexadecimal digit bytes.
pub fn lower_hex_bytes(bytes: &[u8]) -> (out: Vec<u8>)
    ensures
        out@ == hex_lower(bytes@),
{
    let mut out: Vec<u8> = Vec::new();
    let mut index: usize = 0;
    while index < bytes.len()
        invariant
            index <= bytes@.len(),
            out@ == hex_lower(bytes@.subrange(0, index as int)),
        decreases bytes@.len() - index,
    {
        let b = bytes[index];
        let high = b / 16;
        let low = b % 16;
        let high_digit = if high < 10 { 48 + high } else { 87 + high };
        let low_digit = if low < 10 { 48 + low } else { 87 + low };
        out.push(high_digit);
        out.push(low_digit);
        index = index + 1;
        assert(bytes@.subrange(0, index as int).drop_last() =~= bytes@.subrange(0, index - 1 as int));
    }
    assert(bytes@.subrange(0, bytes@.len() as int) =~= bytes@);
    out
}

/// Render bytes as lowercase hexadecimal text.
pub fn to_lower_hex(bytes: &[u8]) -> (text: String)
    ensures
        text@ == ascii_text(hex_lower(bytes@)),
{
    let out = lower_hex_bytes(bytes);
    proof {
        lemma_hex_lower_shape(bytes@);
    }
    ascii_string(out)
}


/// `a * b`, or `u64::MAX` when the product does not fit.
pub open spec fn sat_mul(a: u64, b: u64) -> u64 {
    if a * b > u64::MAX {
        u64::MAX
    } else {
        (a * b) as u64
    }
}

/// `a + b`, or `u64::MAX` when the sum does not fit.
pub open spec fn sat_add(a: u64, b: u64) -> u64 {
    if a + b > u64::MAX {
        u64::MAX
    } else {
        (a + b) as u64
    }
}

/// Saturating multiplication of two counters.
pub fn saturating_mul_u64(a: u64, b: u64) -> (product: u64)
    ensures
        product == sat_mul(a, b),
{
    match a.checked_mul(b) {
        Some(product) => product,
        None => u64::MAX,
    }
}


/// Lexicographic order on byte strings, as `Ord` for `[u8]` orders them: the
/// first differing byte decides, and a proper prefix comes first.
pub open spec fn lex_le(a: Seq<u8>, b: Seq<u8>) -> bool
    decreases a.len(),
{
    if a.len() == 0 {
        true
    } else if b.len() == 0 {
        false
    } else if a[0] < b[0] {
        true
    } else if a[0] > b[0] {
        false
    } else {
        lex_le(a.drop_first(), b.drop_first())
    }
}

pub open spec fn lex_lt(a: Seq<u8>, b: Seq<u8>) -> bool {
    lex_le(a, b) && a != b
}

pub proof fn lemma_lex_le_total(a: Seq<u8>, b: Seq<u8>)
    ensures
        lex_le(a, b) || lex_le(b, a),
    decreases a.len(),
{
    if a.len() > 0 && b.len() > 0 && a[0] == b[0] {
        lemma_lex_le_total(a.drop_first(), b.drop_first());
    }
}

pub proof fn lemma_lex_le_trans(a: Seq<u8>, b: Seq<u8>, c: Seq<u8>)
    requires
        lex_le(a, b),
        lex_le(b, c),
    ensures
        lex_le(a, c),
    decreases a.len(),
{
    if a.len() > 0 && b.len() > 0 && c.len() > 0 && a[0] == b[0] && b[0] == c[0] {
        lemma_lex_le_trans(a.drop_first(), b.drop_first(), c.drop_first());
    }
}

pub proof fn lemma_lex_le_antisym(a: Seq<u8>, b: Seq<u8>)
    requires
        lex_le(a, b),
        lex_le(b, a),
    ensures
        a == b,
    decreases a.len(),
{
    if a.len() > 0 && b.len() > 0 {
        lemma_lex_le_antisym(a.drop_first(), b.drop_first());
        assert(a =~= seq![a[0]] + a.drop_first());
        assert(b =~= seq![b[0]] + b.drop_first());
    } else {
        assert(a =~= b);
    }
}

/// Compare two byte strings lexicographically.
pub fn bytes_le(a: &[u8], b: &[u8]) -> (le: bool)
    ensures
        le == lex_le(a@, b@),
{
    let mut index: usize = 0;
    assert(a@.subrange(0, a@.len() as int) =~= a@);
    assert(b@.subrange(0, b@.len() as int) =~= b@);
    while index < a.len()
        invariant
            index <= a@.len(),
            index <= b@.len(),
            a@.subrange(0, index as int) == b@.subrange(0, index as int),
            lex_le(a@, b@) == lex_le(a@.subrange(index as int, a@.len() as int), b@.subrange(index as int, b@.len() as int)),
        decreases a@.len() - index,
    {
        if index >= b.len() {
            return false;
        }
        if a[index] < b[index] {
            return true;
        }
        if a[index] > b[index] {
            return false;
        }
        let ghost ra = a@.subrange(index as int, a@.len() as int);
        let ghost rb = b@.subrange(index as int, b@.len() as int);
        assert(ra.drop_first() =~= a@.subrange(index + 1, a@.len() as int));
        assert(rb.drop_first() =~= b@.subrange(index + 1, b@.len() as int));
        assert(a@.subrange(0, index + 1) =~= a@.subrange(0, index as int).push(a@[index as int]));
        assert(b@.subrange(0, index + 1) =~= b@.subrange(0, index as int).push(b@[index as int]));
        index = index + 1;
    }
    true
}

/// `needle` occurs in `haystack` starting at `at`.
pub open spec fn occurs_at(haystack: Seq<u8>, needle: Seq<u8>, at: int) -> bool {
    0 <= at && at + needle.len() <= haystack.len() && haystack.subrange(at, at + needle.len()) == needle
}

/// `needle` occurs somewhere in `haystack`.
pub open spec fn contains_bytes(haystack: Seq<u8>, needle: Seq<u8>) -> bool {
    exists|at: int| occurs_at(haystack, needle, at)
}

/// Whether `needle` occurs in `haystack` at position `at`.
fn matches_at(haystack: &[u8], needle: &[u8], at: usize) -> (found: bool)
    requires
        at + needle@.len() <= haystack@.len(),
    ensures
        found == occurs_at(haystack@, needle@, at as int),
{
    let hlen = haystack.len();
    let mut index: usize = 0;
    while index < needle.len()
        invariant
            at + needle@.len() <= haystack@.len(),
            hlen == haystack@.len(),
            index <= needle@.len(),
            forall|k: int| 0 <= k < index ==> haystack@[at + k] == needle@[k],
        decreases needle@.len() - index,
    {
        if haystack[at + index] != needle[index] {
            assert(haystack@.subrange(at as int, at + needle@.len())[index as int] != needle@[index as int]);
            return false;
        }
        index = index + 1;
    }
    assert(haystack@.subrange(at as int, at + needle@.len()) =~= needle@);
    true
}

/// Whether `needle` occurs in `haystack`.
pub fn find_bytes(haystack: &[u8], needle: &[u8]) -> (found: bool)
    ensures
        found == contains_bytes(haystack@, needle@),
{
    if needle.len() > haystack.len() {
        assert(forall|at: int| !occurs_at(haystack@, needle@, at));
        return false;
    }
    let last = haystack.len() - needle.len();
    let mut at: usize = 0;
    while at < last
        invariant
            at <= last,
            last + needle@.len() == haystack@.len(),
            forall|k: int| 0 <= k < at ==> !occurs_at(haystack@, needle@, k),
        decreases last - at,
    {
        if matches_at(haystack, needle, at) {
            return true;
        }
        at = at + 1;
    }
    if matches_at(haystack, needle, last) {
        return true;
    }
    assert forall|k: int| !occurs_at(haystack@, needle@, k) by {
        if occurs_at(haystack@, needle@, k) {
            assert(k <= last);
        }
    }
    false
}

/// Rotate a word left by `n` bits (`u64::rotate_left`).
pub open spec fn rotl(x: u64, n: u64) -> u64 {
    (x << n) | (x >> (64 - n) as u64)
}

/// `x.rotate_left(17)`.
pub fn rotate_left_17(x: u64) -> (r: u64)
    ensures
        r == rotl(x, 17),
{
    (x << 17u64) | (x >> 47u64)
}

/// One when the condition holds, else zero.
pub open spec fn flag(b: bool) -> int {
    if b { 1 } else { 0 }
}

/// One when the condition holds, else zero.
pub fn count_if(condition: bool) -> (count: u64)
    ensures
        count == flag(condition),
{
    if condition { 1 } else { 0 }
}

} // verus!
