//! The HTTP/1.1 request grammar: request line, header lines and body.
//!
//! The wire shapes are stated as specification functions over character
//! sequences; the executable scanners are proved to return exactly what
//! those functions describe.

use vstd::prelude::*;
use vstd::string::*;
use crate::abnf;
use crate::abnf::{spec_find_crlf, spec_find_crlf_from, find_crlf};

verus! {

/// tchar: the characters a method or header-name token is made of.
pub open spec fn spec_is_tchar(c: char) -> bool {
    abnf::spec_is_alnum(c) || c == '!' || c == '#' || c == '$' || c == '%' || c == '&'
        || c == '\'' || c == '*' || c == '+' || c == '-' || c == '.' || c == '^' || c == '_'
        || c == '`' || c == '|' || c == '~'
}

#[verifier::when_used_as_spec(spec_is_tchar)]
pub fn is_tchar(c: char) -> (b: bool)
    ensures
        b == spec_is_tchar(c),
{
    abnf::is_alnum(c) || c == '!' || c == '#' || c == '$' || c == '%' || c == '&' || c == '\''
        || c == '*' || c == '+' || c == '-' || c == '.' || c == '^' || c == '_' || c == '`'
        || c == '|' || c == '~'
}

/// A header value accepts visible characters and the high-bit range.
pub open spec fn spec_is_fieldchar(c: char) -> bool {
    abnf::spec_is_vchar(c) || abnf::spec_is_obs_text(c)
}

#[verifier::when_used_as_spec(spec_is_fieldchar)]
pub fn is_fieldchar(c: char) -> (b: bool)
    ensures
        b == spec_is_fieldchar(c),
{
    abnf::is_vchar(c) || abnf::is_obs_text(c)
}

/// First position of `c` at or after `i`, if any.
pub open spec fn spec_find_from(s: Seq<char>, c: char, i: int) -> Option<int>
    decreases s.len() - i when 0 <= i
{
    if i >= s.len() {
        None
    } else if s[i] == c {
        Some(i)
    } else {
        spec_find_from(s, c, i + 1)
    }
}

/// Position of the last space in `s`, if any.
pub open spec fn spec_last_sp(s: Seq<char>) -> Option<int>
    decreases s.len(),
{
    if s.len() == 0 {
        None
    } else if s[s.len() - 1] == ' ' {
        Some(s.len() - 1)
    } else {
        spec_last_sp(s.drop_last())
    }
}

/// End of the run of token characters starting at `i`.
pub open spec fn spec_token_end(s: Seq<char>, i: int) -> int
    decreases s.len() - i when 0 <= i
{
    if i < s.len() && spec_is_tchar(s[i]) {
        spec_token_end(s, i + 1)
    } else {
        i
    }
}

/// End of the run of spaces starting at `i`.
pub open spec fn spec_sp_end(s: Seq<char>, i: int) -> int
    decreases s.len() - i when 0 <= i
{
    if i < s.len() && s[i] == ' ' {
        spec_sp_end(s, i + 1)
    } else {
        i
    }
}

/// End of the run of header-value characters starting at `i`.
pub open spec fn spec_value_end(s: Seq<char>, i: int) -> int
    decreases s.len() - i when 0 <= i
{
    if i < s.len() && spec_is_fieldchar(s[i]) {
        spec_value_end(s, i + 1)
    } else {
        i
    }
}

/// A version marker: `HTTP/` then one-or-more digits, a dot, one-or-more
/// digits.
pub open spec fn spec_version_ok(v: Seq<char>) -> bool {
    &&& v.len() >= 8
    &&& v.take(5) == seq!['H', 'T', 'T', 'P', '/']
    &&& match spec_find_from(v, '.', 5) {
        None => false,
        Some(d) => {
            &&& d >= 6
            &&& d + 1 < v.len()
            &&& (forall|i: int| 5 <= i < d ==> abnf::spec_is_digit(v[i]))
            &&& (forall|i: int| d < i < v.len() ==> abnf::spec_is_digit(v[i]))
        },
    }
}

/// What one request line denotes: method, target and version, if the line
/// has the shape `method SP target SP version`.
pub open spec fn spec_parse_line(line: Seq<char>) -> Option<(Seq<char>, Seq<char>, Seq<char>)> {
    match spec_last_sp(line) {
        None => None,
        Some(j) => {
            let version = line.skip(j + 1);
            let prefix = line.take(j);
            if !spec_version_ok(version) {
                None
            } else {
                match spec_find_from(prefix, ' ', 0) {
                    None => None,
                    Some(k) => if k >= 1 && (forall|i: int|
                        0 <= i < k ==> spec_is_tchar(prefix[i])) {
                        Some((prefix.take(k), prefix.skip(k + 1), version))
                    } else {
                        None
                    },
                }
            }
        },
    }
}

/// What the buffer's request line denotes: the part before the first CRLF,
/// parsed as a request line.
pub open spec fn spec_request_line(s: Seq<char>) -> Option<(Seq<char>, Seq<char>, Seq<char>)> {
    match spec_find_crlf(s) {
        None => None,
        Some(e) => spec_parse_line(s.take(e)),
    }
}

/// First position of `c` at or after `i`.
pub(crate) fn find_from(s: &str, c: char, i: usize) -> (r: Option<usize>)
    requires
        i <= s@.len(),
    ensures
        match r {
            Some(j) => spec_find_from(s@, c, i as int) == Some(j as int),
            None => spec_find_from(s@, c, i as int) == None::<int>,
        },
{
    let n = s.unicode_len();
    let mut j: usize = i;
    while j < n
        invariant
            n == s@.len(),
            i <= j <= n,
            spec_find_from(s@, c, i as int) == spec_find_from(s@, c, j as int),
        decreases n - j,
    {
        if s.get_char(j) == c {
            return Some(j);
        }
        j = j + 1;
    }
    None
}

/// Position of the last space in `s`.
fn last_sp(s: &str) -> (r: Option<usize>)
    ensures
        match r {
            Some(j) => spec_last_sp(s@) == Some(j as int),
            None => spec_last_sp(s@) == None::<int>,
        },
{
    let n = s.unicode_len();
    proof {
        assert(s@.take(n as int) =~= s@);
    }
    let mut j: usize = n;
    while j > 0
        invariant
            n == s@.len(),
            0 <= j <= n,
            spec_last_sp(s@) == spec_last_sp(s@.take(j as int)),
        decreases j,
    {
        proof {
            assert(s@.take(j as int).drop_last() =~= s@.take(j as int - 1));
        }
        if s.get_char(j - 1) == ' ' {
            proof {
                assert(s@.take(j as int)[j - 1] == s@[j - 1]);
            }
            return Some(j - 1);
        }
        j = j - 1;
    }
    proof {
        assert(s@.take(0) =~= Seq::<char>::empty());
    }
    None
}

/// End of the token run starting at `i`.
fn token_end(s: &str, i: usize) -> (e: usize)
    requires
        i <= s@.len(),
    ensures
        e == spec_token_end(s@, i as int),
        i <= e <= s@.len(),
{
    let n = s.unicode_len();
    let mut j: usize = i;
    while j < n && is_tchar(s.get_char(j))
        invariant
            n == s@.len(),
            i <= j <= n,
            spec_token_end(s@, i as int) == spec_token_end(s@, j as int),
        decreases n - j,
    {
        j = j + 1;
    }
    j
}

/// End of the space run starting at `i`.
fn sp_end(s: &str, i: usize) -> (e: usize)
    requires
        i <= s@.len(),
    ensures
        e == spec_sp_end(s@, i as int),
        i <= e <= s@.len(),
{
    let n = s.unicode_len();
    let mut j: usize = i;
    while j < n && s.get_char(j) == ' '
        invariant
            n == s@.len(),
            i <= j <= n,
            spec_sp_end(s@, i as int) == spec_sp_end(s@, j as int),
        decreases n - j,
    {
        j = j + 1;
    }
    j
}

/// End of the header-value run starting at `i`.
fn value_end(s: &str, i: usize) -> (e: usize)
    requires
        i <= s@.len(),
    ensures
        e == spec_value_end(s@, i as int),
        i <= e <= s@.len(),
{
    let n = s.unicode_len();
    let mut j: usize = i;
    while j < n && is_fieldchar(s.get_char(j))
        invariant
            n == s@.len(),
            i <= j <= n,
            spec_value_end(s@, i as int) == spec_value_end(s@, j as int),
        decreases n - j,
    {
        j = j + 1;
    }
    j
}

/// Check that `v` is a version marker.
fn version_ok(v: &str) -> (b: bool)
    ensures
        b == spec_version_ok(v@),
{
    let n = v.unicode_len();
    if n < 8 {
        return false;
    }
    if !(v.get_char(0) == 'H' && v.get_char(1) == 'T' && v.get_char(2) == 'T' && v.get_char(3)
        == 'P' && v.get_char(4) == '/') {
        proof {
            assert(v@.take(5)[0] == v@[0]);
            assert(v@.take(5)[1] == v@[1]);
            assert(v@.take(5)[2] == v@[2]);
            assert(v@.take(5)[3] == v@[3]);
            assert(v@.take(5)[4] == v@[4]);
        }
        return false;
    }
    proof {
        assert(v@.take(5) =~= seq!['H', 'T', 'T', 'P', '/']);
    }
    let d = match find_from(v, '.', 5) {
        None => {
            return false;
        },
        Some(d) => d,
    };
    proof {
        lemma_find_from_bounds(v@, '.', 5);
    }
    if d < 6 || d + 1 >= n {
        return false;
    }
    let mut i: usize = 5;
    while i < d
        invariant
            n == v@.len(),
            5 <= i <= d,
            d < n,
            spec_find_from(v@, '.', 5) == Some(d as int),
            forall|m: int| 5 <= m < i ==> abnf::spec_is_digit(v@[m]),
        decreases d - i,
    {
        if !abnf::is_digit(v.get_char(i)) {
            proof {
                assert(5 <= i < d && !abnf::spec_is_digit(v@[i as int]));
            }
            return false;
        }
        i = i + 1;
    }
    let mut i2: usize = d + 1;
    while i2 < n
        invariant
            n == v@.len(),
            d + 1 <= i2 <= n,
            d < n,
            spec_find_from(v@, '.', 5) == Some(d as int),
            forall|m: int| d < m < i2 ==> abnf::spec_is_digit(v@[m]),
        decreases n - i2,
    {
        if !abnf::is_digit(v.get_char(i2)) {
            proof {
                assert(d < i2 < n && !abnf::spec_is_digit(v@[i2 as int]));
            }
            return false;
        }
        i2 = i2 + 1;
    }
    true
}

/// Whether every character before `k` is a token character.
fn all_tchar_until(s: &str, k: usize) -> (b: bool)
    requires
        k <= s@.len(),
    ensures
        b == (forall|i: int| 0 <= i < k ==> spec_is_tchar(s@[i])),
{
    let mut i: usize = 0;
    while i < k
        invariant
            k <= s@.len(),
            0 <= i <= k,
            forall|m: int| 0 <= m < i ==> spec_is_tchar(s@[m]),
        decreases k - i,
    {
        if !is_tchar(s.get_char(i)) {
            return false;
        }
        i = i + 1;
    }
    true
}

/// Extract the request line from the front of the buffer: method, target
/// and version, exactly as `spec_request_line` describes, or nothing when
/// the buffer does not begin with a well-formed request line.
pub fn parse_request_line(request: &str) -> (r: Option<(String, String, String)>)
    ensures
        match r {
            Some(p) => spec_request_line(request@) == Some((p.0@, p.1@, p.2@)),
            None => spec_request_line(request@) == None::<(Seq<char>, Seq<char>, Seq<char>)>,
        },
{
    let e = match find_crlf(request) {
        None => {
            return None;
        },
        Some(e) => e,
    };
    proof {
        lemma_find_crlf_bounds(request@, 0);
    }
    let line = request.substring_char(0, e);
    proof {
        assert(line@ =~= request@.take(e as int));
    }
    let j = match last_sp(line) {
        None => {
            return None;
        },
        Some(j) => j,
    };
    proof {
        lemma_last_sp_bounds(line@);
    }
    let version = line.substring_char(j + 1, e);
    proof {
        assert(version@ =~= line@.skip(j + 1));
    }
    if !version_ok(version) {
        return None;
    }
    let prefix = line.substring_char(0, j);
    proof {
        assert(prefix@ =~= line@.take(j as int));
    }
    let k = match find_from(prefix, ' ', 0) {
        None => {
            return None;
        },
        Some(k) => k,
    };
    proof {
        lemma_find_from_bounds(prefix@, ' ', 0);
    }
    if k < 1 {
        return None;
    }
    if !all_tchar_until(prefix, k) {
        return None;
    }
    let method = prefix.substring_char(0, k);
    let target = prefix.substring_char(k + 1, j);
    proof {
        assert(method@ =~= prefix@.take(k as int));
        assert(target@ =~= prefix@.skip(k + 1));
    }
    Some((method.to_owned(), target.to_owned(), version.to_owned()))
}

/// What a header line starting exactly at `i` yields: its name, its value,
/// and the position just past its CRLF. The shape is `name ":" SP+ value
/// CRLF` with a non-empty token name and a non-empty value.
pub open spec fn spec_header_match_at(s: Seq<char>, i: int) -> Option<(Seq<char>, Seq<char>, int)> {
    let ne = spec_token_end(s, i);
    if ne == i || ne >= s.len() || s[ne] != ':' {
        None
    } else {
        let se = spec_sp_end(s, ne + 1);
        if se == ne + 1 {
            None
        } else {
            let ve = spec_value_end(s, se);
            if ve == se || ve + 2 > s.len() || s[ve] != '\r' || s[ve + 1] != '\n' {
                None
            } else {
                Some((s.subrange(i, ne), s.subrange(se, ve), ve + 2))
            }
        }
    }
}

/// Every run end lies at or after its start.
pub proof fn lemma_run_ends(s: Seq<char>, i: int)
    requires
        0 <= i,
    ensures
        spec_token_end(s, i) >= i,
        spec_sp_end(s, i) >= i,
        spec_value_end(s, i) >= i,
        spec_token_end(s, i) <= s.len() || spec_token_end(s, i) == i,
        spec_sp_end(s, i) <= s.len() || spec_sp_end(s, i) == i,
        spec_value_end(s, i) <= s.len() || spec_value_end(s, i) == i,
    decreases s.len() - i,
{
    if i < s.len() {
        lemma_run_ends(s, i + 1);
    }
}

/// A matched header line ends past where it starts, within the buffer.
pub proof fn lemma_header_match_bounds(s: Seq<char>, i: int)
    requires
        0 <= i,
    ensures
        match spec_header_match_at(s, i) {
            Some(r) => i < r.2 && r.2 <= s.len(),
            None => true,
        },
{
    lemma_run_ends(s, i);
    let ne = spec_token_end(s, i);
    if !(ne == i || ne >= s.len() || s[ne] != ':') {
        lemma_run_ends(s, ne + 1);
        let se = spec_sp_end(s, ne + 1);
        if se != ne + 1 {
            lemma_run_ends(s, se);
        }
    }
}

/// The header pairs found scanning from `i`: at each position, either a
/// header line starts and is collected, with the scan resuming past it, or
/// the scan moves one character on.
pub open spec fn spec_scan_headers(s: Seq<char>, i: int) -> Seq<(Seq<char>, Seq<char>)>
    decreases s.len() - i when 0 <= i via spec_scan_headers_decreases
{
    if i >= s.len() {
        Seq::empty()
    } else {
        match spec_header_match_at(s, i) {
            Some(r) => seq![(r.0, r.1)] + spec_scan_headers(s, r.2),
            None => spec_scan_headers(s, i + 1),
        }
    }
}

#[via_fn]
proof fn spec_scan_headers_decreases(s: Seq<char>, i: int) {
    lemma_header_match_bounds(s, i);
}

/// All header pairs in the buffer, in order of appearance.
pub open spec fn spec_parse_headers(s: Seq<char>) -> Seq<(Seq<char>, Seq<char>)> {
    spec_scan_headers(s, 0)
}

/// The character-level contents of a vector of string pairs.
pub open spec fn spec_pairs_view(v: Seq<(String, String)>) -> Seq<(Seq<char>, Seq<char>)> {
    Seq::new(v.len(), |i: int| (v[i].0@, v[i].1@))
}

/// Try to read one header line starting exactly at `i`.
fn try_header_at(s: &str, i: usize) -> (r: Option<(String, String, usize)>)
    requires
        i <= s@.len(),
    ensures
        match r {
            Some(p) => {
                &&& spec_header_match_at(s@, i as int) == Some((p.0@, p.1@, p.2 as int))
                &&& i < p.2 <= s@.len()
            },
            None => spec_header_match_at(s@, i as int) == None::<(Seq<char>, Seq<char>, int)>,
        },
{
    let n = s.unicode_len();
    let ne = token_end(s, i);
    if ne == i || ne >= n || s.get_char(ne) != ':' {
        return None;
    }
    let se = sp_end(s, ne + 1);
    if se == ne + 1 {
        return None;
    }
    let ve = value_end(s, se);
    if ve == se || n - ve < 2 || s.get_char(ve) != '\r' || s.get_char(ve + 1) != '\n' {
        return None;
    }
    let name = s.substring_char(i, ne);
    let value = s.substring_char(se, ve);
    proof {
        assert(name@ =~= s@.subrange(i as int, ne as int));
        assert(value@ =~= s@.subrange(se as int, ve as int));
    }
    Some((name.to_owned(), value.to_owned(), ve + 2))
}

/// Collect every header line found anywhere in the buffer, in order of
/// appearance, exactly as `spec_parse_headers` describes.
pub fn parse_headers(request: &str) -> (headers: Vec<(String, String)>)
    ensures
        spec_pairs_view(headers@) == spec_parse_headers(request@),
{
    let n = request.unicode_len();
    let mut headers: Vec<(String, String)> = Vec::new();
    let mut i: usize = 0;
    while i < n
        invariant
            n == request@.len(),
            0 <= i <= n,
            spec_parse_headers(request@) == spec_pairs_view(headers@) + spec_scan_headers(
                request@,
                i as int,
            ),
        decreases n - i,
    {
        match try_header_at(request, i) {
            Some(p) => {
                let ghost before = headers@;
                headers.push((p.0, p.1));
                proof {
                    assert(spec_pairs_view(headers@) =~= spec_pairs_view(before).push(
                        (headers@[before.len() as int].0@, headers@[before.len() as int].1@),
                    ));
                    assert(spec_pairs_view(before).push(
                        (headers@[before.len() as int].0@, headers@[before.len() as int].1@),
                    ) + spec_scan_headers(request@, p.2 as int) =~= spec_pairs_view(before)
                        + (seq![
                        (headers@[before.len() as int].0@, headers@[before.len() as int].1@),
                    ] + spec_scan_headers(request@, p.2 as int)));
                }
                i = p.2;
            },
            None => {
                i = i + 1;
            },
        }
    }
    proof {
        assert(spec_scan_headers(request@, i as int) =~= Seq::<(Seq<char>, Seq<char>)>::empty());
        assert(spec_parse_headers(request@) =~= spec_pairs_view(headers@));
    }
    headers
}

/// Shifting the start of the scan and dropping a prefix agree: the token
/// run form.
proof fn lemma_token_end_shift(s: Seq<char>, p: int, q: int)
    requires
        0 <= p <= s.len(),
        0 <= q,
    ensures
        spec_token_end(s, p + q) == p + spec_token_end(s.skip(p), q),
    decreases s.len() - (p + q),
{
    let r = s.skip(p);
    if p + q < s.len() {
        assert(r[q] == s[p + q]);
        if spec_is_tchar(s[p + q]) {
            lemma_token_end_shift(s, p, q + 1);
        }
    }
}

/// The space form.
proof fn lemma_sp_end_shift(s: Seq<char>, p: int, q: int)
    requires
        0 <= p <= s.len(),
        0 <= q,
    ensures
        spec_sp_end(s, p + q) == p + spec_sp_end(s.skip(p), q),
    decreases s.len() - (p + q),
{
    let r = s.skip(p);
    if p + q < s.len() {
        assert(r[q] == s[p + q]);
        if s[p + q] == ' ' {
            lemma_sp_end_shift(s, p, q + 1);
        }
    }
}

/// The header-value form.
proof fn lemma_value_end_shift(s: Seq<char>, p: int, q: int)
    requires
        0 <= p <= s.len(),
        0 <= q,
    ensures
        spec_value_end(s, p + q) == p + spec_value_end(s.skip(p), q),
    decreases s.len() - (p + q),
{
    let r = s.skip(p);
    if p + q < s.len() {
        assert(r[q] == s[p + q]);
        if spec_is_fieldchar(s[p + q]) {
            lemma_value_end_shift(s, p, q + 1);
        }
    }
}

/// A header line found after a dropped prefix is the same header line,
/// shifted.
proof fn lemma_header_match_shift(s: Seq<char>, p: int, q: int)
    requires
        0 <= p <= s.len(),
        0 <= q,
    ensures
        spec_header_match_at(s, p + q) == (match spec_header_match_at(s.skip(p), q) {
            None => None::<(Seq<char>, Seq<char>, int)>,
            Some(r) => Some((r.0, r.1, r.2 + p)),
        }),
{
    let r = s.skip(p);
    lemma_run_ends(r, q);
    lemma_token_end_shift(s, p, q);
    let ne = spec_token_end(r, q);
    if ne == q || ne >= r.len() || r[ne] != ':' {
        if !(ne == q) && !(ne >= r.len()) {
            assert(s[p + ne] == r[ne]);
        }
    } else {
        assert(s[p + ne] == r[ne]);
        lemma_run_ends(r, ne + 1);
        lemma_sp_end_shift(s, p, ne + 1);
        let se = spec_sp_end(r, ne + 1);
        if se != ne + 1 {
            lemma_run_ends(r, se);
            lemma_value_end_shift(s, p, se);
            let ve = spec_value_end(r, se);
            if !(ve == se || ve + 2 > r.len()) {
                assert(s[p + ve] == r[ve]);
                assert(s[p + ve + 1] == r[ve + 1]);
                if r[ve] == '\r' && r[ve + 1] == '\n' {
                    assert(s.subrange(p + q, p + ne) =~= r.subrange(q, ne));
                    assert(s.subrange(p + se, p + ve) =~= r.subrange(se, ve));
                }
            }
        }
    }
}

/// The header scan after a dropped prefix collects the same pairs.
proof fn lemma_scan_shift(s: Seq<char>, p: int, q: int)
    requires
        0 <= p <= s.len(),
        0 <= q,
    ensures
        spec_scan_headers(s, p + q) == spec_scan_headers(s.skip(p), q),
    decreases s.len() - (p + q),
{
    let r = s.skip(p);
    if p + q >= s.len() {
        assert(q >= r.len());
    } else {
        lemma_header_match_shift(s, p, q);
        match spec_header_match_at(r, q) {
            Some(rr) => {
                lemma_header_match_bounds(r, q);
                lemma_scan_shift(s, p, rr.2);
            },
            None => {
                lemma_scan_shift(s, p, q + 1);
            },
        }
    }
}

/// One wire header line.
pub open spec fn spec_header_line_of(name: Seq<char>, value: Seq<char>) -> Seq<char> {
    name + seq![':', ' '] + value + seq!['\r', '\n']
}

/// A block of wire header lines, in order.
pub open spec fn spec_header_block(pairs: Seq<(Seq<char>, Seq<char>)>) -> Seq<char>
    decreases pairs.len(),
{
    if pairs.len() == 0 {
        Seq::empty()
    } else {
        spec_header_line_of(pairs[0].0, pairs[0].1) + spec_header_block(pairs.drop_first())
    }
}

/// A well-formed header pair: a non-empty token name and a non-empty
/// value of header-value characters.
pub open spec fn spec_wf_header_pair(p: (Seq<char>, Seq<char>)) -> bool {
    &&& p.0.len() >= 1
    &&& (forall|i: int| 0 <= i < p.0.len() ==> spec_is_tchar(#[trigger] p.0[i]))
    &&& p.1.len() >= 1
    &&& (forall|i: int| 0 <= i < p.1.len() ==> spec_is_fieldchar(#[trigger] p.1[i]))
}

/// Law: a block of zero-or-more well-formed header lines parses to
/// exactly its pairs, in source order, dropping nothing and reordering
/// nothing.
#[verifier::rlimit(60)]
pub proof fn lemma_parse_headers_complete(pairs: Seq<(Seq<char>, Seq<char>)>)
    requires
        forall|i: int| 0 <= i < pairs.len() ==> spec_wf_header_pair(#[trigger] pairs[i]),
    ensures
        spec_parse_headers(spec_header_block(pairs)) == pairs,
    decreases pairs.len(),
{
    let block = spec_header_block(pairs);
    if pairs.len() == 0 {
        assert(spec_scan_headers(block, 0) =~= pairs);
    } else {
        let n0 = pairs[0].0;
        let v0 = pairs[0].1;
        assert(spec_wf_header_pair(pairs[0]));
        let line0 = spec_header_line_of(n0, v0);
        let rest_pairs = pairs.drop_first();
        let rest = spec_header_block(rest_pairs);
        assert(block == line0 + rest);
        let ln = n0.len() as int;
        let lv = v0.len() as int;
        let l0 = ln + 2 + lv + 2;
        assert(line0.len() == l0);
        assert forall|p: int| 0 <= p < ln implies block[p] == n0[p] by {}
        assert(block[ln] == ':');
        assert(block[ln + 1] == ' ');
        assert forall|p: int| 0 <= p < lv implies block[ln + 2 + p] == v0[p] by {}
        assert(block[ln + 2 + lv] == '\r');
        assert(block[ln + 3 + lv] == '\n');
        lemma_token_end_exact(block, 0, ln);
        lemma_sp_end_exact(block, ln + 1, ln + 2);
        lemma_value_end_exact(block, ln + 2, ln + 2 + lv);
        assert(spec_header_match_at(block, 0) == Some(
            (block.subrange(0, ln), block.subrange(ln + 2, ln + 2 + lv), l0),
        ));
        assert(block.subrange(0, ln) =~= n0);
        assert(block.subrange(ln + 2, ln + 2 + lv) =~= v0);
        assert(spec_scan_headers(block, 0) == seq![(n0, v0)] + spec_scan_headers(block, l0));
        lemma_scan_shift(block, l0, 0);
        assert(block.skip(l0) =~= rest);
        assert forall|i: int| 0 <= i < rest_pairs.len() implies spec_wf_header_pair(
            #[trigger] rest_pairs[i],
        ) by {
            assert(rest_pairs[i] == pairs[i + 1]);
        }
        lemma_parse_headers_complete(rest_pairs);
        assert(seq![(n0, v0)] + rest_pairs =~= pairs);
    }
}

/// Position of the first blank-line separator (CRLF CRLF) at or after `i`.
pub open spec fn spec_find_sep_from(s: Seq<char>, i: int) -> Option<int>
    decreases s.len() - i when 0 <= i
{
    if i + 4 > s.len() {
        None
    } else if s[i] == '\r' && s[i + 1] == '\n' && s[i + 2] == '\r' && s[i + 3] == '\n' {
        Some(i)
    } else {
        spec_find_sep_from(s, i + 1)
    }
}

/// What the buffer's body is: everything after the first blank-line
/// separator, verbatim to the end, or nothing when no separator occurs.
pub open spec fn spec_parse_body(s: Seq<char>) -> Option<Seq<char>> {
    match spec_find_sep_from(s, 0) {
        None => None,
        Some(j) => Some(s.skip(j + 4)),
    }
}

/// A successful separator search points at a separator and nothing earlier.
pub proof fn lemma_find_sep_bounds(s: Seq<char>, i: int)
    requires
        0 <= i,
    ensures
        match spec_find_sep_from(s, i) {
            Some(j) => i <= j && j + 4 <= s.len() && s[j] == '\r' && s[j + 1] == '\n' && s[j + 2]
                == '\r' && s[j + 3] == '\n' && (forall|m: int|
                i <= m < j ==> !(#[trigger] s[m] == '\r' && s[m + 1] == '\n' && s[m + 2] == '\r'
                    && s[m + 3] == '\n')),
            None => forall|m: int|
                i <= m && m + 4 <= s.len() ==> !(#[trigger] s[m] == '\r' && s[m + 1] == '\n' && s[m
                    + 2] == '\r' && s[m + 3] == '\n'),
        },
    decreases s.len() - i,
{
    if i + 4 > s.len() {
    } else if s[i] == '\r' && s[i + 1] == '\n' && s[i + 2] == '\r' && s[i + 3] == '\n' {
    } else {
        lemma_find_sep_bounds(s, i + 1);
    }
}

/// Extract the body: everything after the first blank-line separator,
/// exactly as `spec_parse_body` describes.
pub fn parse_body(request: &str) -> (r: Option<String>)
    ensures
        match r {
            Some(b) => spec_parse_body(request@) == Some(b@),
            None => spec_parse_body(request@) == None::<Seq<char>>,
        },
{
    let n = request.unicode_len();
    let mut i: usize = 0;
    while n - i >= 4
        invariant
            n == request@.len(),
            0 <= i <= n,
            spec_find_sep_from(request@, 0) == spec_find_sep_from(request@, i as int),
        decreases n - i,
    {
        if request.get_char(i) == '\r' && request.get_char(i + 1) == '\n' && request.get_char(
            i + 2,
        ) == '\r' && request.get_char(i + 3) == '\n' {
            let body = request.substring_char(i + 4, n);
            proof {
                assert(body@ =~= request@.skip(i + 4));
            }
            return Some(body.to_owned());
        }
        i = i + 1;
    }
    None
}

/// A version marker assembled from its digit runs.
pub open spec fn spec_version_of(x: Seq<char>, y: Seq<char>) -> Seq<char> {
    seq!['H', 'T', 'T', 'P', '/'] + x + seq!['.'] + y
}

/// A request line assembled from its parts.
pub open spec fn spec_request_line_of(m: Seq<char>, t: Seq<char>, v: Seq<char>) -> Seq<char> {
    m + seq![' '] + t + seq![' '] + v + seq!['\r', '\n']
}

/// Law: every valid request line `method SP target SP HTTP/x.y CRLF`
/// parses to exactly its method, target and version. (That nothing else
/// parses is what `spec_request_line`'s remaining branches state.)
#[verifier::rlimit(60)]
pub proof fn lemma_request_line_complete(m: Seq<char>, t: Seq<char>, x: Seq<char>, y: Seq<char>)
    requires
        m.len() >= 1,
        forall|i: int| 0 <= i < m.len() ==> spec_is_tchar(#[trigger] m[i]),
        forall|i: int| 0 <= i < t.len() - 1 ==> !((#[trigger] t[i]) == '\r' && t[i + 1] == '\n'),
        x.len() >= 1,
        forall|i: int| 0 <= i < x.len() ==> abnf::spec_is_digit(#[trigger] x[i]),
        y.len() >= 1,
        forall|i: int| 0 <= i < y.len() ==> abnf::spec_is_digit(#[trigger] y[i]),
    ensures
        spec_request_line(spec_request_line_of(m, t, spec_version_of(x, y))) == Some(
            (m, t, spec_version_of(x, y)),
        ),
{
    let v = spec_version_of(x, y);
    let s = spec_request_line_of(m, t, v);
    let lm = m.len() as int;
    let lt = t.len() as int;
    let lx = x.len() as int;
    let lv = v.len() as int;
    let line_len = lm + 1 + lt + 1 + lv;
    assert(s.len() == line_len + 2);
    assert forall|p: int| 0 <= p < lm implies s[p] == m[p] by {}
    assert(s[lm] == ' ');
    assert forall|p: int| 0 <= p < lt implies s[lm + 1 + p] == t[p] by {}
    assert(s[lm + 1 + lt] == ' ');
    assert forall|p: int| 0 <= p < lv implies s[lm + 2 + lt + p] == v[p] by {}
    assert(s[line_len] == '\r');
    assert(s[line_len + 1] == '\n');
    assert forall|p: int| 0 <= p < lv implies v[p] != '\r' && v[p] != '\n' && v[p] != ' ' by {
        if p < 5 {
        } else if p < 5 + lx {
            assert(v[p] == x[p - 5]);
        } else if p == 5 + lx {
        } else {
            assert(v[p] == y[p - 6 - lx]);
        }
    }
    assert forall|mm: int| 0 <= mm < line_len implies !((#[trigger] s[mm]) == '\r' && s[mm + 1]
        == '\n') by {
        if mm < lm {
            assert(s[mm] == m[mm] && spec_is_tchar(m[mm]));
        } else if mm == lm {
        } else if mm < lm + 1 + lt {
            assert(s[mm] == t[mm - lm - 1]);
            if mm + 1 < lm + 1 + lt {
                assert(s[mm + 1] == t[mm - lm]);
            } else {
                assert(s[mm + 1] == ' ');
            }
        } else if mm == lm + 1 + lt {
        } else {
            assert(s[mm] == v[mm - lm - 2 - lt]);
        }
    }
    lemma_find_crlf_exact(s, 0, line_len);
    let line = s.take(line_len);
    assert(line =~= m + seq![' '] + t + seq![' '] + v);
    let j0 = lm + 1 + lt;
    assert(line[j0] == ' ');
    assert forall|k: int| j0 < k < line_len implies line[k] != ' ' by {
        assert(line[k] == v[k - lm - 2 - lt]);
    }
    lemma_last_sp_exact(line, j0);
    let version = line.skip(j0 + 1);
    assert(version =~= v);
    assert(v.take(5) =~= seq!['H', 'T', 'T', 'P', '/']);
    let d = 5 + lx;
    assert(v[d] == '.');
    assert forall|mm: int| 5 <= mm < d implies v[mm] != '.' by {
        assert(v[mm] == x[mm - 5] && abnf::spec_is_digit(x[mm - 5]));
    }
    lemma_find_from_exact(v, '.', 5, d);
    assert forall|mm: int| 5 <= mm < d implies abnf::spec_is_digit(v[mm]) by {
        assert(v[mm] == x[mm - 5]);
    }
    assert forall|mm: int| d < mm < lv implies abnf::spec_is_digit(v[mm]) by {
        assert(v[mm] == y[mm - 6 - lx]);
    }
    assert(spec_version_ok(v));
    let prefix = line.take(j0);
    assert(prefix =~= m + seq![' '] + t);
    assert(prefix[lm] == ' ');
    assert forall|mm: int| 0 <= mm < lm implies prefix[mm] != ' ' by {
        assert(prefix[mm] == m[mm] && spec_is_tchar(m[mm]));
    }
    lemma_find_from_exact(prefix, ' ', 0, lm);
    assert forall|mm: int| 0 <= mm < lm implies spec_is_tchar(prefix[mm]) by {
        assert(prefix[mm] == m[mm]);
    }
    assert(prefix.take(lm) =~= m);
    assert(prefix.skip(lm + 1) =~= t);
}

/// The blank-line separator.
pub open spec fn spec_sep() -> Seq<char> {
    seq!['\r', '\n', '\r', '\n']
}

/// A position that holds a separator, with none earlier, is what the
/// separator search finds.
pub proof fn lemma_find_sep_exact(s: Seq<char>, i: int, j: int)
    requires
        0 <= i <= j,
        j + 4 <= s.len(),
        s[j] == '\r' && s[j + 1] == '\n' && s[j + 2] == '\r' && s[j + 3] == '\n',
        forall|m: int|
            i <= m < j ==> !(#[trigger] s[m] == '\r' && s[m + 1] == '\n' && s[m + 2] == '\r' && s[m
                + 3] == '\n'),
    ensures
        spec_find_sep_from(s, i) == Some(j),
    decreases j - i,
{
    if i < j {
        lemma_find_sep_exact(s, i + 1, j);
    }
}

/// Law: on a buffer made of a separator-free prefix, the separator, and a
/// body, the body parse returns exactly that body.
pub proof fn lemma_parse_body_complete(pre: Seq<char>, b: Seq<char>)
    requires
        forall|m: int|
            0 <= m < pre.len() ==> !((#[trigger] (pre + spec_sep() + b)[m]) == '\r' && (pre
                + spec_sep() + b)[m + 1] == '\n' && (pre + spec_sep() + b)[m + 2] == '\r' && (pre
                + spec_sep() + b)[m + 3] == '\n'),
    ensures
        spec_parse_body(pre + spec_sep() + b) == Some(b),
{
    let s = pre + spec_sep() + b;
    let j = pre.len() as int;
    assert(s[j] == '\r' && s[j + 1] == '\n' && s[j + 2] == '\r' && s[j + 3] == '\n');
    lemma_find_sep_exact(s, 0, j);
    assert(s.skip(j + 4) =~= b);
}

/// Law: a buffer with no blank-line separator has no body.
pub proof fn lemma_parse_body_none(s: Seq<char>)
    requires
        forall|m: int|
            0 <= m && m + 4 <= s.len() ==> !(#[trigger] s[m] == '\r' && s[m + 1] == '\n' && s[m
                + 2] == '\r' && s[m + 3] == '\n'),
    ensures
        spec_parse_body(s) == None::<Seq<char>>,
{
    lemma_find_sep_bounds(s, 0);
    match spec_find_sep_from(s, 0) {
        Some(j) => {
            assert(false);
        },
        None => {},
    }
}

/// A position that holds a CRLF, with none earlier, is what the CRLF
/// search finds.
pub proof fn lemma_find_crlf_exact(s: Seq<char>, i: int, j: int)
    requires
        0 <= i <= j,
        j + 2 <= s.len(),
        s[j] == '\r' && s[j + 1] == '\n',
        forall|m: int| i <= m < j ==> !(#[trigger] s[m] == '\r' && s[m + 1] == '\n'),
    ensures
        spec_find_crlf_from(s, i) == Some(j),
    decreases j - i,
{
    if i < j {
        lemma_find_crlf_exact(s, i + 1, j);
    }
}

/// A position that holds `c`, with none earlier, is what the character
/// search finds.
pub proof fn lemma_find_from_exact(s: Seq<char>, c: char, i: int, j: int)
    requires
        0 <= i <= j < s.len(),
        s[j] == c,
        forall|m: int| i <= m < j ==> s[m] != c,
    ensures
        spec_find_from(s, c, i) == Some(j),
    decreases j - i,
{
    if i < j {
        lemma_find_from_exact(s, c, i + 1, j);
    }
}

/// A position that holds a space, with none later, is what the last-space
/// search finds.
pub proof fn lemma_last_sp_exact(s: Seq<char>, j: int)
    requires
        0 <= j < s.len(),
        s[j] == ' ',
        forall|m: int| j < m < s.len() ==> s[m] != ' ',
    ensures
        spec_last_sp(s) == Some(j),
    decreases s.len(),
{
    if j == s.len() - 1 {
    } else {
        let rest = s.drop_last();
        assert(forall|m: int| #![trigger rest[m]] 0 <= m < s.len() - 1 ==> rest[m] == s[m]);
        lemma_last_sp_exact(rest, j);
    }
}

/// A run whose characters all satisfy the class, delimited by the end of
/// the string or a character outside the class, is what the run scan
/// finds: the token form.
pub proof fn lemma_token_end_exact(s: Seq<char>, i: int, e: int)
    requires
        0 <= i <= e <= s.len(),
        forall|m: int| i <= m < e ==> spec_is_tchar(#[trigger] s[m]),
        e == s.len() || !spec_is_tchar(s[e]),
    ensures
        spec_token_end(s, i) == e,
    decreases e - i,
{
    if i < e {
        lemma_token_end_exact(s, i + 1, e);
    }
}

/// The space form of the exact-run lemma.
pub proof fn lemma_sp_end_exact(s: Seq<char>, i: int, e: int)
    requires
        0 <= i <= e <= s.len(),
        forall|m: int| i <= m < e ==> s[m] == ' ',
        e == s.len() || s[e] != ' ',
    ensures
        spec_sp_end(s, i) == e,
    decreases e - i,
{
    if i < e {
        lemma_sp_end_exact(s, i + 1, e);
    }
}

/// The header-value form of the exact-run lemma.
pub proof fn lemma_value_end_exact(s: Seq<char>, i: int, e: int)
    requires
        0 <= i <= e <= s.len(),
        forall|m: int| i <= m < e ==> spec_is_fieldchar(#[trigger] s[m]),
        e == s.len() || !spec_is_fieldchar(s[e]),
    ensures
        spec_value_end(s, i) == e,
    decreases e - i,
{
    if i < e {
        lemma_value_end_exact(s, i + 1, e);
    }
}

/// A successful CRLF search points at a CRLF and nothing earlier.
pub proof fn lemma_find_crlf_bounds(s: Seq<char>, i: int)
    requires
        0 <= i,
    ensures
        match spec_find_crlf_from(s, i) {
            Some(j) => i <= j && j + 2 <= s.len() && s[j] == '\r' && s[j + 1] == '\n' && (forall|
                m: int,
            |
                i <= m < j ==> !(#[trigger] s[m] == '\r' && s[m + 1] == '\n')),
            None => forall|m: int|
                i <= m && m + 2 <= s.len() ==> !(#[trigger] s[m] == '\r' && s[m + 1] == '\n'),
        },
    decreases s.len() - i,
{
    if i + 2 > s.len() {
    } else if s[i] == '\r' && s[i + 1] == '\n' {
    } else {
        lemma_find_crlf_bounds(s, i + 1);
    }
}

/// A successful character search points at the character and nothing
/// earlier.
pub proof fn lemma_find_from_bounds(s: Seq<char>, c: char, i: int)
    requires
        0 <= i,
    ensures
        match spec_find_from(s, c, i) {
            Some(j) => i <= j && j < s.len() && s[j] == c && (forall|m: int|
                i <= m < j ==> s[m] != c),
            None => forall|m: int| i <= m < s.len() ==> s[m] != c,
        },
    decreases s.len() - i,
{
    if i >= s.len() {
    } else if s[i] == c {
    } else {
        lemma_find_from_bounds(s, c, i + 1);
    }
}

/// A successful last-space search points at a space and nothing later.
pub proof fn lemma_last_sp_bounds(s: Seq<char>)
    ensures
        match spec_last_sp(s) {
            Some(j) => 0 <= j && j < s.len() && s[j] == ' ' && (forall|m: int|
                j < m < s.len() ==> s[m] != ' '),
            None => forall|m: int| 0 <= m < s.len() ==> s[m] != ' ',
        },
    decreases s.len(),
{
    if s.len() > 0 && s[s.len() - 1] != ' ' {
        let rest = s.drop_last();
        assert(forall|m: int| #![trigger rest[m]] 0 <= m < s.len() - 1 ==> rest[m] == s[m]);
        lemma_last_sp_bounds(rest);
        match spec_last_sp(rest) {
            Some(j) => {
                assert(rest[j] == s[j]);
                assert forall|m: int| j < m < s.len() implies s[m] != ' ' by {
                    if m < s.len() - 1 {
                        assert(rest[m] == s[m]);
                    }
                }
            },
            None => {
                assert forall|m: int| 0 <= m < s.len() implies s[m] != ' ' by {
                    if m < s.len() - 1 {
                        assert(rest[m] == s[m]);
                    }
                }
            },
        }
    }
}

} // verus!
