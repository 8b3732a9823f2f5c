use vstd::prelude::*;

verus! {

use crate::scan::is_digit;

/// Numeric value of one digit byte.
pub open spec fn digit_val(b: u8) -> nat {
    (b - 48) as nat
}

/// Value of a run of digit bytes read as a decimal number. Leading zeros
/// are allowed and do not change the value.
pub open spec fn dec_value(s: Seq<u8>) -> nat
    decreases s.len(),
{
    if s.len() == 0 {
        0
    } else {
        dec_value(s.drop_last()) * 10 + digit_val(s.last())
    }
}

/// Shortest decimal digit run denoting `n`: no leading zeros, `"0"` for 0.
pub open spec fn dec_digits(n: nat) -> Seq<u8>
    decreases n,
{
    if n < 10 {
        seq![(48 + n) as u8]
    } else {
        dec_digits(n / 10).push((48 + n % 10) as u8)
    }
}

/// A decimal number never shrinks when more digits are appended: the value
/// of a prefix bounds the value of the whole run from below.
pub proof fn lemma_dec_value_take_le(s: Seq<u8>, k: int)
    requires
        0 <= k <= s.len(),
    ensures
        dec_value(s.take(k)) <= dec_value(s),
    decreases s.len() - k,
{
    if k == s.len() {
        assert(s.take(k) =~= s);
    } else {
        assert(s.take(k + 1).drop_last() =~= s.take(k));
        assert(dec_value(s.take(k)) <= dec_value(s.take(k + 1)));
        lemma_dec_value_take_le(s, k + 1);
    }
}

/// `dec_digits` emits at least one byte and nothing but digit bytes.
pub proof fn lemma_dec_digits_are_digits(n: nat)
    ensures
        dec_digits(n).len() >= 1,
        forall|i: int| 0 <= i < dec_digits(n).len() ==> is_digit(#[trigger] dec_digits(n)[i]),
    decreases n,
{
    if n >= 10 {
        lemma_dec_digits_are_digits(n / 10);
    }
}

/// Reads the digit run `s[a..b]` as a decimal `u32`, or reports that its
/// value does not fit.
pub fn read_u32(s: &[u8], a: usize, b: usize) -> (r: Option<u32>)
    requires
        a <= b <= s@.len(),
        forall|k: int| a <= k < b ==> is_digit(#[trigger] s@[k]),
    ensures
        match r {
            Some(v) => v == dec_value(s@.subrange(a as int, b as int)),
            None => dec_value(s@.subrange(a as int, b as int)) > u32::MAX,
        },
{
    let mut acc: u64 = 0;
    let mut k = a;
    while k < b
        invariant
            a <= k <= b <= s@.len(),
            forall|j: int| a <= j < b ==> is_digit(#[trigger] s@[j]),
            acc == dec_value(s@.subrange(a as int, k as int)),
            acc <= u32::MAX,
        decreases b - k,
    {
        let d = s[k] - 48;
        acc = acc * 10 + d as u64;
        proof {
            assert(s@.subrange(a as int, k + 1).drop_last() =~= s@.subrange(a as int, k as int));
        }
        k = k + 1;
        if acc > 0xFFFF_FFFF {
            proof {
                let full = s@.subrange(a as int, b as int);
                assert(s@.subrange(a as int, k as int) =~= full.take(k - a));
                lemma_dec_value_take_le(full, k - a);
            }
            return None;
        }
    }
    Some(acc as u32)
}

/// Reads the digit run `s[a..b]` as a decimal `u8`, or reports that its
/// value does not fit.
pub fn read_u8(s: &[u8], a: usize, b: usize) -> (r: Option<u8>)
    requires
        a <= b <= s@.len(),
        forall|k: int| a <= k < b ==> is_digit(#[trigger] s@[k]),
    ensures
        match r {
            Some(v) => v == dec_value(s@.subrange(a as int, b as int)),
            None => dec_value(s@.subrange(a as int, b as int)) > u8::MAX,
        },
{
    match read_u32(s, a, b) {
        Some(v) => if v <= 255 {
            Some(v as u8)
        } else {
            None
        },
        None => None,
    }
}

/// Appends the decimal digits of `v` to `out`.
pub fn push_decimal(out: &mut Vec<u8>, v: u32)
    ensures
        final(out)@ == old(out)@ + dec_digits(v as nat),
    decreases v,
{
    if v < 10 {
        out.push(48 + v as u8);
        proof {
            assert(out@ =~= old(out)@ + dec_digits(v as nat));
        }
    } else {
        push_decimal(out, v / 10);
        out.push(48 + (v % 10) as u8);
        proof {
            assert(out@ =~= old(out)@ + dec_digits(v as nat));
        }
    }
}

} // verus!
