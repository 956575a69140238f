//! Character classes for URI path segments.
//!
//! Path-parameter segments accept the p-char repertoire taken per character:
//! unreserved, sub-delimiters, `%` (the lead of a percent-encoding), `:` and
//! `@`.

use vstd::prelude::*;
use crate::abnf;

verus! {

/// unreserved: ALPHA / DIGIT / `-` / `.` / `_` / `~`.
pub open spec fn spec_is_unreserved(c: char) -> bool {
    abnf::spec_is_alnum(c) || c == '-' || c == '.' || c == '_' || c == '~'
}

#[verifier::when_used_as_spec(spec_is_unreserved)]
pub fn is_unreserved(c: char) -> (b: bool)
    ensures
        b == spec_is_unreserved(c),
{
    abnf::is_alnum(c) || c == '-' || c == '.' || c == '_' || c == '~'
}

/// sub-delims: `!` / `$` / `&` / `'` / `(` / `)` / `*` / `+` / `,` / `;` / `=`.
pub open spec fn spec_is_sub_delim(c: char) -> bool {
    c == '!' || c == '$' || c == '&' || c == '\'' || c == '(' || c == ')' || c == '*' || c == '+'
        || c == ',' || c == ';' || c == '='
}

#[verifier::when_used_as_spec(spec_is_sub_delim)]
pub fn is_sub_delim(c: char) -> (b: bool)
    ensures
        b == spec_is_sub_delim(c),
{
    c == '!' || c == '$' || c == '&' || c == '\'' || c == '(' || c == ')' || c == '*' || c == '+'
        || c == ',' || c == ';' || c == '='
}

/// The characters accepted inside one captured path segment.
pub open spec fn spec_is_pchar(c: char) -> bool {
    spec_is_unreserved(c) || spec_is_sub_delim(c) || c == '%' || c == ':' || c == '@'
}

#[verifier::when_used_as_spec(spec_is_pchar)]
pub fn is_pchar(c: char) -> (b: bool)
    ensures
        b == spec_is_pchar(c),
{
    is_unreserved(c) || is_sub_delim(c) || c == '%' || c == ':' || c == '@'
}

} // verus!
