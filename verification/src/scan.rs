use vstd::prelude::*;

verus! {

use vstd::utf8::is_ascii_chars;
use vstd::utf8::is_ascii_chars_encode_utf8;

// Byte classes of the status layout. The matcher works on the raw bytes of
// the captured text, so the classes are the ASCII ones.

/// An ASCII decimal digit.
pub open spec fn is_digit(b: u8) -> bool {
    48 <= b <= 57
}

/// An ASCII whitespace byte: space, tab, line feed, vertical tab, form feed
/// or carriage return.
pub open spec fn is_space(b: u8) -> bool {
    b == 32 || 9 <= b <= 13
}

/// A dot or a space: the filler between a field label and its value.
pub open spec fn is_dot_or_space(b: u8) -> bool {
    b == 46 || b == 32
}

pub open spec fn digit_pred() -> spec_fn(u8) -> bool {
    |b: u8| is_digit(b)
}

pub open spec fn space_pred() -> spec_fn(u8) -> bool {
    |b: u8| is_space(b)
}

pub open spec fn dot_space_pred() -> spec_fn(u8) -> bool {
    |b: u8| is_dot_or_space(b)
}

/// First position at or after `i` whose byte fails `p`, or the end of `s`.
pub open spec fn skip_while(s: Seq<u8>, i: int, p: spec_fn(u8) -> bool) -> int
    decreases s.len() - i,
{
    if 0 <= i < s.len() && p(s[i]) {
        skip_while(s, i + 1, p)
    } else {
        i
    }
}

/// End of the whitespace run starting at `i`.
pub open spec fn spaces_end(s: Seq<u8>, i: int) -> int {
    skip_while(s, i, space_pred())
}

/// End of the dot-or-space run starting at `i`.
pub open spec fn dots_spaces_end(s: Seq<u8>, i: int) -> int {
    skip_while(s, i, dot_space_pred())
}

/// End of the digit run starting at `i`.
pub open spec fn digits_end(s: Seq<u8>, i: int) -> int {
    skip_while(s, i, digit_pred())
}

/// `skip_while` lands on the first failing byte: everything before it in the
/// run satisfies `p`, and the byte it stops on (if any) does not.
pub proof fn lemma_skip_while(s: Seq<u8>, i: int, p: spec_fn(u8) -> bool)
    requires
        0 <= i <= s.len(),
    ensures
        i <= skip_while(s, i, p) <= s.len(),
        forall|k: int| i <= k < skip_while(s, i, p) ==> p(s[k]),
        skip_while(s, i, p) < s.len() ==> !p(s[skip_while(s, i, p)]),
    decreases s.len() - i,
{
    if i < s.len() && p(s[i]) {
        lemma_skip_while(s, i + 1, p);
    }
}

/// Conversely, a run of `p`-bytes that stops right before a failing byte (or
/// the end of `s`) pins `skip_while` down exactly.
pub proof fn lemma_skip_while_run(s: Seq<u8>, i: int, j: int, p: spec_fn(u8) -> bool)
    requires
        0 <= i <= j <= s.len(),
        forall|k: int| i <= k < j ==> p(s[k]),
        j == s.len() || !p(s[j]),
    ensures
        skip_while(s, i, p) == j,
    decreases j - i,
{
    if i < j {
        lemma_skip_while_run(s, i + 1, j, p);
    }
}

/// The literal `lit` occurs in `s` at position `i`.
pub open spec fn lit_at(s: Seq<u8>, i: int, lit: Seq<u8>) -> bool {
    &&& 0 <= i
    &&& i + lit.len() <= s.len()
    &&& s.subrange(i, i + lit.len()) == lit
}

/// The bytes of an ASCII character sequence, one byte per character.
pub open spec fn ascii_seq(s: Seq<char>) -> Seq<u8> {
    Seq::new(s.len(), |i: int| s[i] as u8)
}

// Executable counterparts.

pub fn is_digit_byte(b: u8) -> (r: bool)
    ensures
        r == is_digit(b),
{
    48 <= b && b <= 57
}

pub fn is_space_byte(b: u8) -> (r: bool)
    ensures
        r == is_space(b),
{
    b == 32 || (9 <= b && b <= 13)
}

pub fn is_dot_or_space_byte(b: u8) -> (r: bool)
    ensures
        r == is_dot_or_space(b),
{
    b == 46 || b == 32
}

pub fn skip_spaces(s: &[u8], i: usize) -> (j: usize)
    requires
        i <= s@.len(),
    ensures
        i <= j <= s@.len(),
        j == spaces_end(s@, i as int),
{
    let mut j = i;
    while j < s.len() && is_space_byte(s[j])
        invariant
            i <= j <= s@.len(),
            spaces_end(s@, i as int) == spaces_end(s@, j as int),
        decreases s@.len() - j,
    {
        j = j + 1;
    }
    j
}

pub fn skip_dots_spaces(s: &[u8], i: usize) -> (j: usize)
    requires
        i <= s@.len(),
    ensures
        i <= j <= s@.len(),
        j == dots_spaces_end(s@, i as int),
{
    let mut j = i;
    while j < s.len() && is_dot_or_space_byte(s[j])
        invariant
            i <= j <= s@.len(),
            dots_spaces_end(s@, i as int) == dots_spaces_end(s@, j as int),
        decreases s@.len() - j,
    {
        j = j + 1;
    }
    j
}

pub fn skip_digits(s: &[u8], i: usize) -> (j: usize)
    requires
        i <= s@.len(),
    ensures
        i <= j <= s@.len(),
        j == digits_end(s@, i as int),
{
    let mut j = i;
    while j < s.len() && is_digit_byte(s[j])
        invariant
            i <= j <= s@.len(),
            digits_end(s@, i as int) == digits_end(s@, j as int),
        decreases s@.len() - j,
    {
        j = j + 1;
    }
    j
}

/// Whether `lit` occurs in `s` at position `i`.
pub fn has_lit_at(s: &[u8], i: usize, lit: &[u8]) -> (r: bool)
    requires
        i <= s@.len(),
    ensures
        r == lit_at(s@, i as int, lit@),
{
    if s.len() - i < lit.len() {
        return false;
    }
    let mut j: usize = 0;
    while j < lit.len()
        invariant
            0 <= j <= lit@.len(),
            i + lit@.len() <= s@.len(),
            s@.len() <= usize::MAX,
            forall|k: int| 0 <= k < j ==> s@[i + k] == lit@[k],
        decreases lit@.len() - j,
    {
        if s[i + j] != lit[j] {
            proof {
                assert(s@.subrange(i as int, i + lit@.len())[j as int] != lit@[j as int]);
            }
            return false;
        }
        j = j + 1;
    }
    proof {
        assert(s@.subrange(i as int, i + lit@.len()) =~= lit@);
    }
    true
}

/// The bytes of an ASCII string slice.
pub fn ascii_bytes(s: &str) -> (r: &[u8])
    requires
        is_ascii_chars(s@),
    ensures
        r@ == ascii_seq(s@),
{
    proof {
        is_ascii_chars_encode_utf8(s@);
    }
    let r = s.as_bytes();
    proof {
        assert(r@ =~= ascii_seq(s@));
    }
    r
}

} // verus!
