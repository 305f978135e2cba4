//! Utility functions: decimal text for integers, and integers from
//! decimal text.

use vstd::prelude::*;

verus! {

/// The decimal digit characters of `v`, least significant digit first;
/// empty for zero.
pub open spec fn dec_digits(v: nat) -> Seq<u8>
    decreases v,
{
    if v == 0 {
        Seq::empty()
    } else {
        seq![(48 + v % 10) as u8] + dec_digits(v / 10)
    }
}

/// Ten to the power `n`.
pub open spec fn pow10(n: nat) -> nat
    decreases n,
{
    if n == 0 {
        1
    } else {
        10 * pow10((n - 1) as nat)
    }
}

/// The buffer an integer-to-text conversion fills: the digit characters
/// right-aligned (most significant first), every byte before them zero; a
/// lone `b'0'` in the first byte when the value is zero.
pub open spec fn dec_buf(v: nat, n: nat) -> Seq<u8> {
    if v == 0 {
        seq![48u8] + Seq::new((n - 1) as nat, |i: int| 0u8)
    } else {
        Seq::new((n - dec_digits(v).len()) as nat, |i: int| 0u8) + dec_digits(v).reverse()
    }
}

pub proof fn lemma_dec_digits_len(v: nat, len: nat)
    requires
        v < pow10(len),
    ensures
        dec_digits(v).len() <= len,
    decreases v,
{
    if v > 0 {
        assert(len > 0) by {
            if len == 0 {
                assert(pow10(0nat) == 1);
            }
        }
        assert(v / 10 < pow10((len - 1) as nat)) by {
            assert(pow10(len) == 10 * pow10((len - 1) as nat));
            assert(v < 10 * pow10((len - 1) as nat));
        }
        lemma_dec_digits_len(v / 10, (len - 1) as nat);
    }
}

pub proof fn lemma_u64_digits_fit(v: u64)
    ensures
        dec_digits(v as nat).len() <= 20,
{
    assert(pow10(20) == 0x56bc75e2d63100000) by {
        assert(pow10(1nat) == 10 * pow10(0nat));
        assert(pow10(2nat) == 10 * pow10(1nat));
        assert(pow10(3nat) == 10 * pow10(2nat));
        assert(pow10(4nat) == 10 * pow10(3nat));
        assert(pow10(5nat) == 10 * pow10(4nat));
        assert(pow10(6nat) == 10 * pow10(5nat));
        assert(pow10(7nat) == 10 * pow10(6nat));
        assert(pow10(8nat) == 10 * pow10(7nat));
        assert(pow10(9nat) == 10 * pow10(8nat));
        assert(pow10(10nat) == 10 * pow10(9nat));
        assert(pow10(11nat) == 10 * pow10(10nat));
        assert(pow10(12nat) == 10 * pow10(11nat));
        assert(pow10(13nat) == 10 * pow10(12nat));
        assert(pow10(14nat) == 10 * pow10(13nat));
        assert(pow10(15nat) == 10 * pow10(14nat));
        assert(pow10(16nat) == 10 * pow10(15nat));
        assert(pow10(17nat) == 10 * pow10(16nat));
        assert(pow10(18nat) == 10 * pow10(17nat));
        assert(pow10(19nat) == 10 * pow10(18nat));
        assert(pow10(20nat) == 10 * pow10(19nat));
    }
    lemma_dec_digits_len(v as nat, 20);
}

pub proof fn lemma_small_digits_fit(v: nat, len: nat)
    requires
        len >= 3,
        len <= 20,
        v < 0x100000000,
        len >= 10 || v < 0x10000,
        len >= 5 || v < 0x100,
    ensures
        dec_digits(v).len() <= len,
{
    assert(pow10(3) == 1000 && pow10(5) == 100000 && pow10(10) == 10000000000) by {
        assert(pow10(1nat) == 10 * pow10(0nat));
        assert(pow10(2nat) == 10 * pow10(1nat));
        assert(pow10(3nat) == 10 * pow10(2nat));
        assert(pow10(4nat) == 10 * pow10(3nat));
        assert(pow10(5nat) == 10 * pow10(4nat));
        assert(pow10(6nat) == 10 * pow10(5nat));
        assert(pow10(7nat) == 10 * pow10(6nat));
        assert(pow10(8nat) == 10 * pow10(7nat));
        assert(pow10(9nat) == 10 * pow10(8nat));
        assert(pow10(10nat) == 10 * pow10(9nat));
    }
    if v < 0x100 {
        lemma_dec_digits_len(v, 3);
    } else if v < 0x10000 {
        lemma_dec_digits_len(v, 5);
    } else {
        lemma_dec_digits_len(v, 10);
    }
}

/// Fills an `N`-byte buffer with the decimal text of `value`, digits
/// right-aligned, as every `*_as_u8_slice` conversion does.
fn dec_fill<const N: usize>(value: u64) -> (buf: [u8; N])
    requires
        1 <= N,
        dec_digits(value as nat).len() <= N,
    ensures
        buf@ == dec_buf(value as nat, N as nat),
{
    let mut buf = [0u8; N];
    if value == 0 {
        buf[0] = 48u8;
        assert(buf@ =~= dec_buf(0, N as nat));
        return buf;
    }
    let mut v: u64 = value;
    let mut i: usize = N - 1;
    let ghost all = dec_digits(value as nat);
    while v >= 10
        invariant
            1 <= N,
            i < N,
            v > 0,
            all == dec_digits(value as nat),
            all.len() == (N - 1) - i + dec_digits(v as nat).len(),
            dec_digits(v as nat).len() <= i + 1,
            forall|m: int|
                0 <= m < dec_digits(v as nat).len() ==> dec_digits(v as nat)[m] == all[(N - 1) - i
                    + m],
            forall|k: int| 0 <= k < (N - 1) - i ==> buf@[(N - 1) - k] == all[k],
            forall|j: int| 0 <= j <= i ==> buf@[j] == 0u8,
        decreases v,
    {
        let digit: u64 = v % 10;
        buf[i] = 48u8 + (digit as u8);
        proof {
            assert(dec_digits(v as nat) == seq![(48 + v as nat % 10) as u8] + dec_digits(
                (v as nat) / 10,
            ));
            assert(dec_digits(v as nat)[0] == (48 + v as nat % 10) as u8);
            assert(forall|m: int|
                0 <= m < dec_digits((v as nat) / 10).len() ==> #[trigger] dec_digits(
                    (v as nat) / 10,
                )[m] == dec_digits(v as nat)[m + 1]);
            assert(dec_digits((v as nat) / 10).len() >= 1);
        }
        v = v / 10;
        i = i - 1;
    }
    let ghost iexit = i as int;
    buf[i] = 48u8 + (v as u8);
    proof {
        assert(dec_digits(v as nat) == seq![(48 + v as nat % 10) as u8] + dec_digits(0nat));
        assert(dec_digits(v as nat).len() == 1);
        assert(all.len() == N - iexit);
        assert(all[(N - 1) - iexit] == dec_digits(v as nat)[0]);
        assert(v as nat % 10 == v as nat);
        assert(buf@[iexit] == (48 + v as nat % 10) as u8);
        assert(buf@[(N - 1) - ((N - 1) - iexit)] == all[(N - 1) - iexit]);
        assert(forall|k: int| 0 <= k < all.len() ==> buf@[(N - 1) - k] == all[k]);
        assert(buf@ =~= dec_buf(value as nat, N as nat)) by {
            assert(forall|k: int|
                0 <= k < all.len() ==> all.reverse()[all.len() - 1 - k] == all[k]);
            assert(forall|j: int|
                iexit <= j < N ==> #[trigger] dec_buf(value as nat, N as nat)[j] == all.reverse()[j
                    - iexit]);
        }
    }
    buf
}

/// Converts an u8 to an [u8; 3].
pub fn u8_as_u8_slice(value: u8) -> (buf: [u8; 3])
    ensures
        buf@ == dec_buf(value as nat, 3),
{
    proof {
        lemma_small_digits_fit(value as nat, 3);
    }
    dec_fill::<3>(value as u64)
}

/// Converts an u16 to an [u8; 5].
pub fn u16_as_u8_slice(value: u16) -> (buf: [u8; 5])
    ensures
        buf@ == dec_buf(value as nat, 5),
{
    proof {
        lemma_small_digits_fit(value as nat, 5);
    }
    dec_fill::<5>(value as u64)
}

/// Converts an u32 to an [u8; 10].
pub fn u32_as_u8_slice(value: u32) -> (buf: [u8; 10])
    ensures
        buf@ == dec_buf(value as nat, 10),
{
    proof {
        lemma_small_digits_fit(value as nat, 10);
    }
    dec_fill::<10>(value as u64)
}

/// Converts an u64 to an [u8; 20].
pub fn u64_as_u8_slice(value: u64) -> (buf: [u8; 20])
    ensures
        buf@ == dec_buf(value as nat, 20),
{
    proof {
        lemma_u64_digits_fit(value);
    }
    dec_fill::<20>(value)
}

/// Converts an usize to an [u8; 20].
pub fn usize_as_u8_slice(value: usize) -> (buf: [u8; 20])
    ensures
        buf@ == dec_buf(value as nat, 20),
{
    proof {
        lemma_u64_digits_fit(value as u64);
    }
    dec_fill::<20>(value as u64)
}

/// The buffer [`i16_as_u8_slice`] fills: a leading `b'-'` for a negative
/// value, then the digit characters of the magnitude right-aligned.
pub open spec fn i16_buf(value: int) -> Seq<u8> {
    if value >= 0 {
        dec_buf(value as nat, 6)
    } else {
        seq![45u8] + dec_buf((-value) as nat, 6).skip(1)
    }
}

/// Converts an i16 to an [u8; 6].
pub fn i16_as_u8_slice(value: i16) -> (buf: [u8; 6])
    requires
        value != i16::MIN,
    ensures
        buf@ == i16_buf(value as int),
{
    let mag: u16 = if value < 0 {
        (-value) as u16
    } else {
        value as u16
    };
    proof {
        lemma_small_digits_fit(mag as nat, 6);
    }
    let mut buf = dec_fill::<6>(mag as u64);
    if value < 0 {
        proof {
            assert(dec_digits(mag as nat).len() <= 5) by {
                lemma_small_digits_fit(mag as nat, 5);
            }
            assert(dec_buf(mag as nat, 6)[0] == 0u8);
        }
        buf[0] = 45u8;
        assert(buf@ =~= seq![45u8] + dec_buf((mag as nat), 6).skip(1));
    }
    buf
}

/// `acc` after folding in the decimal digits of `n`, least significant
/// digit of `n` first: the arithmetic a digit-reversal loop performs.
pub open spec fn rev_acc(n: nat, acc: nat) -> nat
    decreases n,
{
    if n == 0 {
        acc
    } else {
        rev_acc(n / 10, acc * 10 + n % 10)
    }
}

/// The decimal digits of `n` read back to front as a number.
pub open spec fn rev_dec(n: nat) -> nat {
    rev_acc(n, 0)
}

/// Whether `b` is an ASCII decimal digit character.
pub open spec fn is_digit(b: u8) -> bool {
    48 <= b <= 57
}

/// The value accumulated by reading the ASCII digits of `s` left to
/// right (`acc * 10 + digit` for each), ignoring every other byte.
pub open spec fn fold_digits(s: Seq<u8>) -> nat
    decreases s.len(),
{
    if s.len() == 0 {
        0
    } else {
        let prev = fold_digits(s.drop_last());
        if is_digit(s.last()) {
            prev * 10 + (s.last() - 48) as nat
        } else {
            prev
        }
    }
}

proof fn lemma_fold_prefix_le(s: Seq<u8>, k: int)
    requires
        0 <= k <= s.len(),
    ensures
        fold_digits(s.subrange(0, k)) <= fold_digits(s),
    decreases s.len() - k,
{
    if k < s.len() {
        lemma_fold_prefix_le(s, k + 1);
        assert(s.subrange(0, k + 1).drop_last() =~= s.subrange(0, k));
        assert(fold_digits(s.subrange(0, k)) <= fold_digits(s.subrange(0, k + 1)));
    } else {
        assert(s.subrange(0, k) =~= s);
    }
}

proof fn lemma_rev_acc_ge(n: nat, acc: nat)
    ensures
        rev_acc(n, acc) >= acc,
    decreases n,
{
    if n > 0 {
        lemma_rev_acc_ge(n / 10, acc * 10 + n % 10);
    }
}

/// The value the parse of `s` returns: its digits folded left to right,
/// then read back in reverse.
pub open spec fn parsed_rev(s: Seq<u8>) -> nat {
    rev_dec(fold_digits(s))
}

/// Converts an &\[u8] to a u32.
pub fn str_as_u32(value: &[u8]) -> (out: u32)
    requires
        fold_digits(value@) <= u32::MAX,
        parsed_rev(value@) <= u32::MAX,
    ensures
        out == parsed_rev(value@),
{
    let mut out: u32 = 0;
    let mut idx: usize = 0;
    while idx < value.len()
        invariant
            idx <= value@.len(),
            out == fold_digits(value@.subrange(0, idx as int)),
            fold_digits(value@) <= u32::MAX,
            parsed_rev(value@) <= u32::MAX,
        decreases value@.len() - idx,
    {
        let byte = value[idx];
        proof {
            lemma_fold_prefix_le(value@, idx + 1);
            assert(value@.subrange(0, idx + 1).drop_last() =~= value@.subrange(0, idx as int));
            assert(value@.subrange(0, idx + 1).last() == value@[idx as int]);
        }
        if byte >= 48 && byte <= 57 {
            out = out * 10;
            out = out + (byte - 48) as u32;
        }
        idx = idx + 1;
    }
    assert(value@.subrange(0, value@.len() as int) =~= value@);
    let ghost folded = fold_digits(value@);
    let mut reversed: u32 = 0;
    while out != 0
        invariant
            rev_acc(out as nat, reversed as nat) == rev_dec(folded),
            rev_dec(folded) <= u32::MAX,
        decreases out,
    {
        proof {
            lemma_rev_acc_ge((out / 10) as nat, (reversed * 10 + out % 10) as nat);
        }
        reversed = reversed * 10 + out % 10;
        out = out / 10;
    }
    reversed
}

/// Converts an &\[u8] to a u64.
pub fn str_as_u64(value: &[u8]) -> (out: u64)
    requires
        fold_digits(value@) <= u64::MAX,
        parsed_rev(value@) <= u64::MAX,
    ensures
        out == parsed_rev(value@),
{
    let mut out: u64 = 0;
    let mut idx: usize = 0;
    while idx < value.len()
        invariant
            idx <= value@.len(),
            out == fold_digits(value@.subrange(0, idx as int)),
            fold_digits(value@) <= u64::MAX,
            parsed_rev(value@) <= u64::MAX,
        decreases value@.len() - idx,
    {
        let byte = value[idx];
        proof {
            lemma_fold_prefix_le(value@, idx + 1);
            assert(value@.subrange(0, idx + 1).drop_last() =~= value@.subrange(0, idx as int));
            assert(value@.subrange(0, idx + 1).last() == value@[idx as int]);
        }
        if byte >= 48 && byte <= 57 {
            out = out * 10;
            out = out + (byte - 48) as u64;
        }
        idx = idx + 1;
    }
    assert(value@.subrange(0, value@.len() as int) =~= value@);
    let ghost folded = fold_digits(value@);
    let mut reversed: u64 = 0;
    while out != 0
        invariant
            rev_acc(out as nat, reversed as nat) == rev_dec(folded),
            rev_dec(folded) <= u64::MAX,
        decreases out,
    {
        proof {
            lemma_rev_acc_ge((out / 10) as nat, (reversed * 10 + out % 10) as nat);
        }
        reversed = reversed * 10 + out % 10;
        out = out / 10;
    }
    reversed
}

/// Converts an &\[u8] to a u128.
pub fn str_as_u128(value: &[u8]) -> (out: u128)
    requires
        fold_digits(value@) <= u128::MAX,
        parsed_rev(value@) <= u128::MAX,
    ensures
        out == parsed_rev(value@),
{
    let mut out: u128 = 0;
    let mut idx: usize = 0;
    while idx < value.len()
        invariant
            idx <= value@.len(),
            out == fold_digits(value@.subrange(0, idx as int)),
            fold_digits(value@) <= u128::MAX,
            parsed_rev(value@) <= u128::MAX,
        decreases value@.len() - idx,
    {
        let byte = value[idx];
        proof {
            lemma_fold_prefix_le(value@, idx + 1);
            assert(value@.subrange(0, idx + 1).drop_last() =~= value@.subrange(0, idx as int));
            assert(value@.subrange(0, idx + 1).last() == value@[idx as int]);
        }
        if byte >= 48 && byte <= 57 {
            out = out * 10;
            out = out + (byte - 48) as u128;
        }
        idx = idx + 1;
    }
    assert(value@.subrange(0, value@.len() as int) =~= value@);
    let ghost folded = fold_digits(value@);
    let mut reversed: u128 = 0;
    while out != 0
        invariant
            rev_acc(out as nat, reversed as nat) == rev_dec(folded),
            rev_dec(folded) <= u128::MAX,
        decreases out,
    {
        proof {
            lemma_rev_acc_ge((out / 10) as nat, (reversed * 10 + out % 10) as nat);
        }
        reversed = reversed * 10 + out % 10;
        out = out / 10;
    }
    reversed
}

/// The byte view of `value` with a single leading `b'-'` removed: what
/// [`str_as_i16`] actually folds digits from.
pub open spec fn i16_digit_bytes(s: Seq<u8>) -> Seq<u8> {
    if s.len() > 0 && s[0] == 45 {
        s.skip(1)
    } else {
        s
    }
}

/// Converts an &\[u8] to a i16. A leading `b'-'` is skipped but the
/// result is never negated, exactly as the digits are never reordered:
/// the digits are folded left to right and then read back in reverse.
pub fn str_as_i16(value: &[u8]) -> (out: i16)
    requires
        fold_digits(i16_digit_bytes(value@)) <= i16::MAX,
        parsed_rev(i16_digit_bytes(value@)) <= i16::MAX,
    ensures
        out == parsed_rev(i16_digit_bytes(value@)),
{
    let mut start: usize = 0;
    if value.len() > 0 && value[0] == 45 {
        start = 1;
    }
    let ghost digits = i16_digit_bytes(value@);
    let mut out: i16 = 0;
    let mut idx: usize = start;
    while idx < value.len()
        invariant
            start <= idx <= value@.len(),
            start == 0 || start == 1,
            start <= value@.len(),
            digits == i16_digit_bytes(value@),
            digits == value@.skip(start as int),
            out == fold_digits(digits.subrange(0, idx - start)),
            out >= 0,
            fold_digits(digits) <= i16::MAX,
            parsed_rev(digits) <= i16::MAX,
        decreases value@.len() - idx,
    {
        let byte = value[idx];
        proof {
            lemma_fold_prefix_le(digits, idx - start + 1);
            assert(digits.subrange(0, idx - start + 1).drop_last() =~= digits.subrange(
                0,
                idx - start,
            ));
            assert(digits.subrange(0, idx - start + 1).last() == value@[idx as int]);
        }
        if byte >= 48 && byte <= 57 {
            out = out * 10;
            out = out + (byte - 48) as i16;
        }
        idx = idx + 1;
    }
    assert(digits.subrange(0, digits.len() as int) =~= digits);
    let ghost folded = fold_digits(digits);
    let mut reversed: i16 = 0;
    while out != 0
        invariant
            out >= 0,
            reversed >= 0,
            rev_acc(out as nat, reversed as nat) == rev_dec(folded),
            rev_dec(folded) <= i16::MAX,
        decreases out,
    {
        proof {
            lemma_rev_acc_ge((out / 10) as nat, (reversed * 10 + out % 10) as nat);
        }
        reversed = reversed * 10 + out % 10;
        out = out / 10;
    }
    reversed
}

} // verus!
