//! Core character classes of the wire grammar (the ABNF core rules the
//! protocol parser builds on), together with the CRLF scanner.

use vstd::prelude::*;

verus! {

/// ALPHA: `A`-`Z` or `a`-`z`.
pub open spec fn spec_is_alpha(c: char) -> bool {
    (0x41 <= c as u32 && c as u32 <= 0x5A) || (0x61 <= c as u32 && c as u32 <= 0x7A)
}

#[verifier::when_used_as_spec(spec_is_alpha)]
pub fn is_alpha(c: char) -> (b: bool)
    ensures
        b == spec_is_alpha(c),
{
    (0x41 <= c as u32 && c as u32 <= 0x5A) || (0x61 <= c as u32 && c as u32 <= 0x7A)
}

/// DIGIT: `0`-`9`.
pub open spec fn spec_is_digit(c: char) -> bool {
    0x30 <= c as u32 && c as u32 <= 0x39
}

#[verifier::when_used_as_spec(spec_is_digit)]
pub fn is_digit(c: char) -> (b: bool)
    ensures
        b == spec_is_digit(c),
{
    0x30 <= c as u32 && c as u32 <= 0x39
}

/// ALPHA or DIGIT.
pub open spec fn spec_is_alnum(c: char) -> bool {
    spec_is_alpha(c) || spec_is_digit(c)
}

#[verifier::when_used_as_spec(spec_is_alnum)]
pub fn is_alnum(c: char) -> (b: bool)
    ensures
        b == spec_is_alnum(c),
{
    is_alpha(c) || is_digit(c)
}

/// VCHAR: the visible (printing) characters, `0x21`-`0x7E`.
pub open spec fn spec_is_vchar(c: char) -> bool {
    0x21 <= c as u32 && c as u32 <= 0x7E
}

#[verifier::when_used_as_spec(spec_is_vchar)]
pub fn is_vchar(c: char) -> (b: bool)
    ensures
        b == spec_is_vchar(c),
{
    0x21 <= c as u32 && c as u32 <= 0x7E
}

/// obs-text: the high-bit code points `0x80`-`0xFF`, which a byte-wise
/// decoded buffer can carry inside header values.
pub open spec fn spec_is_obs_text(c: char) -> bool {
    0x80 <= c as u32 && c as u32 <= 0xFF
}

#[verifier::when_used_as_spec(spec_is_obs_text)]
pub fn is_obs_text(c: char) -> (b: bool)
    ensures
        b == spec_is_obs_text(c),
{
    0x80 <= c as u32 && c as u32 <= 0xFF
}

/// Position of the first CRLF at or after `i`, if any.
pub open spec fn spec_find_crlf_from(s: Seq<char>, i: int) -> Option<int>
    decreases s.len() - i when 0 <= i
{
    if i + 2 > s.len() {
        None
    } else if s[i] == '\r' && s[i + 1] == '\n' {
        Some(i)
    } else {
        spec_find_crlf_from(s, i + 1)
    }
}

/// Position of the first CRLF in `s`, if any.
pub open spec fn spec_find_crlf(s: Seq<char>) -> Option<int> {
    spec_find_crlf_from(s, 0)
}

/// Scan for the first CRLF pair.
pub fn find_crlf(s: &str) -> (r: Option<usize>)
    ensures
        match r {
            Some(i) => spec_find_crlf(s@) == Some(i as int),
            None => spec_find_crlf(s@) == None::<int>,
        },
{
    let n = s.unicode_len();
    let mut i: usize = 0;
    while n - i >= 2
        invariant
            n == s@.len(),
            0 <= i <= n,
            spec_find_crlf(s@) == spec_find_crlf_from(s@, i as int),
        decreases n - i,
    {
        if s.get_char(i) == '\r' && s.get_char(i + 1) == '\n' {
            return Some(i);
        }
        i = i + 1;
    }
    None
}

} // verus!
