//! The path-template engine and the router.
//!
//! A route path like `/files/{filename}` compiles into a segment matcher:
//! literal segments must match verbatim, `{name}` segments capture one
//! non-empty run of path characters. The router walks its routes in
//! registration order and dispatches the first one whose method set and
//! path both match.

use vstd::prelude::*;
use vstd::string::*;
use crate::abnf;
use crate::context::RequestContext;
use crate::http11::{find_from, lemma_find_from_bounds, spec_find_from, spec_pairs_view};
use crate::parse::spec_store_all;
use crate::server_error::{ServerError, StdServerError};
use crate::traits::{Error, Request, RouteHandler};
use crate::types::HttpMethod;
use crate::uri;

verus! {

/// The abstract form of one template segment.
pub enum SpecSegment {
    Literal(Seq<char>),
    Param(Seq<char>),
}

/// Whether a segment captures a parameter.
pub open spec fn spec_is_param(seg: SpecSegment) -> bool {
    match seg {
        SpecSegment::Param(_) => true,
        SpecSegment::Literal(_) => false,
    }
}

/// One compiled template segment: a literal to match verbatim, or a named
/// parameter capturing one path segment.
pub enum TemplateSegment {
    Literal(String),
    Param(String),
}

impl View for TemplateSegment {
    type V = SpecSegment;

    closed spec fn view(&self) -> SpecSegment {
        match self {
            TemplateSegment::Literal(s) => SpecSegment::Literal(s@),
            TemplateSegment::Param(s) => SpecSegment::Param(s@),
        }
    }
}

/// The non-empty `/`-separated components of `s` from position `i` on.
pub open spec fn spec_split_from(s: Seq<char>, i: int) -> Seq<Seq<char>>
    decreases s.len() - i when 0 <= i via spec_split_from_decreases
{
    if i >= s.len() {
        Seq::empty()
    } else {
        match spec_find_from(s, '/', i) {
            None => seq![s.subrange(i, s.len() as int)],
            Some(j) => if j == i {
                spec_split_from(s, i + 1)
            } else {
                seq![s.subrange(i, j)] + spec_split_from(s, j + 1)
            },
        }
    }
}

#[via_fn]
proof fn spec_split_from_decreases(s: Seq<char>, i: int) {
    if 0 <= i {
        lemma_find_from_bounds(s, '/', i);
    }
}

/// A template component of the shape `{name}` with a one-or-more-letter
/// name.
pub open spec fn spec_is_param_form(part: Seq<char>) -> bool {
    &&& part.len() >= 3
    &&& part[0] == '{'
    &&& part[part.len() - 1] == '}'
    &&& forall|m: int| 1 <= m < part.len() - 1 ==> abnf::spec_is_alpha(part[m])
}

/// The segment one template component compiles to.
pub open spec fn spec_segment_of(part: Seq<char>) -> SpecSegment {
    if spec_is_param_form(part) {
        SpecSegment::Param(part.subrange(1, part.len() - 1))
    } else {
        SpecSegment::Literal(part)
    }
}

/// The compiled form of a template path: one segment per non-empty
/// component.
pub open spec fn spec_compile(path: Seq<char>) -> Seq<SpecSegment> {
    Seq::new(
        spec_split_from(path, 0).len(),
        |i: int| spec_segment_of(spec_split_from(path, 0)[i]),
    )
}

/// Whether any segment captures a parameter.
pub open spec fn spec_has_param(segs: Seq<SpecSegment>) -> bool {
    exists|i: int| 0 <= i < segs.len() && spec_is_param(#[trigger] segs[i])
}

/// Where the path segment that starts after the `/` at `i` ends: at the
/// next `/`, or at the end of the path.
pub open spec fn spec_seg_end(path: Seq<char>, i: int) -> int {
    match spec_find_from(path, '/', i + 1) {
        None => path.len() as int,
        Some(j) => j,
    }
}

/// Whether one segment accepts one path component.
pub open spec fn spec_seg_matches(seg: SpecSegment, part: Seq<char>) -> bool {
    match seg {
        SpecSegment::Literal(l) => part == l,
        SpecSegment::Param(_) => part.len() >= 1 && (forall|m: int|
            0 <= m < part.len() ==> uri::spec_is_pchar(part[m])),
    }
}

/// Whether the path from position `i` on consists of exactly one `/`-led
/// component per remaining segment, each accepted by its segment.
pub open spec fn spec_match_from(segs: Seq<SpecSegment>, path: Seq<char>, i: int) -> bool
    decreases segs.len(),
{
    if segs.len() == 0 {
        i == path.len()
    } else if 0 <= i < path.len() && path[i] == '/' {
        let e = spec_seg_end(path, i);
        spec_seg_matches(segs[0], path.subrange(i + 1, e)) && spec_match_from(
            segs.drop_first(),
            path,
            e,
        )
    } else {
        false
    }
}

/// Whether the whole path matches the whole template.
pub open spec fn spec_matches(segs: Seq<SpecSegment>, path: Seq<char>) -> bool {
    spec_match_from(segs, path, 0)
}

/// The named captures collected while walking the path against the
/// template from position `i` on, in template order.
pub open spec fn spec_extract_from(segs: Seq<SpecSegment>, path: Seq<char>, i: int) -> Seq<
    (Seq<char>, Seq<char>),
>
    decreases segs.len(),
{
    if segs.len() == 0 {
        Seq::empty()
    } else if 0 <= i < path.len() && path[i] == '/' {
        let e = spec_seg_end(path, i);
        match segs[0] {
            SpecSegment::Param(name) => seq![(name, path.subrange(i + 1, e))] + spec_extract_from(
                segs.drop_first(),
                path,
                e,
            ),
            SpecSegment::Literal(_) => spec_extract_from(segs.drop_first(), path, e),
        }
    } else {
        Seq::empty()
    }
}

/// The named captures of a full match.
pub open spec fn spec_extract(segs: Seq<SpecSegment>, path: Seq<char>) -> Seq<
    (Seq<char>, Seq<char>),
> {
    spec_extract_from(segs, path, 0)
}

/// The parameter names of a template, in order.
pub open spec fn spec_param_names(segs: Seq<SpecSegment>) -> Seq<Seq<char>>
    decreases segs.len(),
{
    if segs.len() == 0 {
        Seq::empty()
    } else {
        match segs[0] {
            SpecSegment::Param(n) => seq![n] + spec_param_names(segs.drop_first()),
            SpecSegment::Literal(_) => spec_param_names(segs.drop_first()),
        }
    }
}

/// No name occurs twice.
pub open spec fn spec_names_unique(names: Seq<Seq<char>>) -> bool {
    forall|i: int, j: int| 0 <= i < j < names.len() ==> names[i] != names[j]
}

/// The character-level contents of a vector of strings.
pub open spec fn spec_strings_view(v: Seq<String>) -> Seq<Seq<char>> {
    Seq::new(v.len(), |i: int| v[i]@)
}

/// Split a path into its non-empty `/`-separated components.
fn split_path(s: &str) -> (parts: Vec<String>)
    ensures
        spec_strings_view(parts@) == spec_split_from(s@, 0),
{
    let n = s.unicode_len();
    let mut parts: Vec<String> = Vec::new();
    let ghost mut done = Seq::<Seq<char>>::empty();
    proof {
        assert(Seq::<Seq<char>>::empty() + spec_split_from(s@, 0) =~= spec_split_from(s@, 0));
    }
    let mut pos: usize = 0;
    while pos < n
        invariant
            n == s@.len(),
            0 <= pos <= n,
            spec_strings_view(parts@) == done,
            done + spec_split_from(s@, pos as int) == spec_split_from(s@, 0),
        decreases n - pos,
    {
        match find_from(s, '/', pos) {
            None => {
                let part = s.substring_char(pos, n);
                proof {
                    assert(part@ =~= s@.subrange(pos as int, n as int));
                    assert(spec_split_from(s@, pos as int) =~= seq![
                        s@.subrange(pos as int, n as int),
                    ]);
                }
                parts.push(part.to_owned());
                proof {
                    assert(spec_strings_view(parts@) =~= done.push(s@.subrange(
                        pos as int,
                        n as int,
                    )));
                    assert(done.push(s@.subrange(pos as int, n as int)) + Seq::<Seq<char>>::empty()
                        =~= done + seq![s@.subrange(pos as int, n as int)]);
                    assert(done + seq![s@.subrange(pos as int, n as int)] =~= spec_split_from(
                        s@,
                        0,
                    ));
                    done = done.push(s@.subrange(pos as int, n as int));
                    assert(done + spec_split_from(s@, n as int) =~= done
                        + Seq::<Seq<char>>::empty());
                }
                pos = n;
            },
            Some(j) => {
                proof {
                    lemma_find_from_bounds(s@, '/', pos as int);
                }
                if j == pos {
                    pos = pos + 1;
                } else {
                    let part = s.substring_char(pos, j);
                    proof {
                        assert(part@ =~= s@.subrange(pos as int, j as int));
                    }
                    parts.push(part.to_owned());
                    proof {
                        let piece = s@.subrange(pos as int, j as int);
                        assert(spec_strings_view(parts@) =~= done.push(piece));
                        assert(spec_split_from(s@, pos as int) == seq![piece] + spec_split_from(
                            s@,
                            j as int + 1,
                        ));
                        assert(done.push(piece) + spec_split_from(s@, j as int + 1) =~= done
                            + (seq![piece] + spec_split_from(s@, j as int + 1)));
                        done = done.push(piece);
                    }
                    pos = j + 1;
                }
            },
        }
    }
    proof {
        assert(done + spec_split_from(s@, pos as int) =~= done);
    }
    parts
}

/// Whether every character in `[a, b)` is a letter.
fn all_alpha_range(s: &str, a: usize, b: usize) -> (r: bool)
    requires
        a <= b <= s@.len(),
    ensures
        r == (forall|m: int| a <= m < b ==> abnf::spec_is_alpha(s@[m])),
{
    let mut i: usize = a;
    while i < b
        invariant
            a <= i <= b <= s@.len(),
            forall|m: int| a <= m < i ==> abnf::spec_is_alpha(s@[m]),
        decreases b - i,
    {
        if !abnf::is_alpha(s.get_char(i)) {
            return false;
        }
        i = i + 1;
    }
    true
}

/// Whether every character in `[a, b)` is a path character.
fn all_pchar_range(s: &str, a: usize, b: usize) -> (r: bool)
    requires
        a <= b <= s@.len(),
    ensures
        r == (forall|m: int| a <= m < b ==> uri::spec_is_pchar(s@[m])),
{
    let mut i: usize = a;
    while i < b
        invariant
            a <= i <= b <= s@.len(),
            forall|m: int| a <= m < i ==> uri::spec_is_pchar(s@[m]),
        decreases b - i,
    {
        if !uri::is_pchar(s.get_char(i)) {
            return false;
        }
        i = i + 1;
    }
    true
}

/// The parameter name of a `{name}` component, or nothing for a literal.
fn param_name_of(part: &String) -> (r: Option<String>)
    ensures
        match r {
            Some(nm) => spec_is_param_form(part@) && nm@ == part@.subrange(
                1,
                part@.len() - 1,
            ),
            None => !spec_is_param_form(part@),
        },
{
    let n = part.as_str().unicode_len();
    if n < 3 {
        return None;
    }
    if part.as_str().get_char(0) != '{' || part.as_str().get_char(n - 1) != '}' {
        return None;
    }
    if !all_alpha_range(part.as_str(), 1, n - 1) {
        return None;
    }
    let nm = part.as_str().substring_char(1, n - 1);
    proof {
        assert(nm@ =~= part@.subrange(1, part@.len() - 1));
    }
    Some(nm.to_owned())
}

/// The compiled form of a path template: its segments, able to test a
/// concrete path and extract named values.
pub struct PathMatcher {
    segments: Vec<TemplateSegment>,
}

impl View for PathMatcher {
    type V = Seq<SpecSegment>;

    closed spec fn view(&self) -> Seq<SpecSegment> {
        Seq::new(self.segments@.len(), |i: int| self.segments@[i]@)
    }
}

/// Compile a route path: a matcher when the path holds at least one
/// `{name}` segment, nothing when it is purely literal (the router then
/// compares paths verbatim).
pub fn compile_path_template(path: &str) -> (r: Option<PathMatcher>)
    ensures
        match r {
            Some(m) => m@ == spec_compile(path@) && spec_has_param(spec_compile(path@)),
            None => !spec_has_param(spec_compile(path@)),
        },
{
    let parts = split_path(path);
    let ghost cs = spec_compile(path@);
    proof {
        assert(cs.len() == parts@.len());
    }
    let n = parts.len();
    let mut segments: Vec<TemplateSegment> = Vec::new();
    let mut has_param = false;
    let mut i: usize = 0;
    while i < n
        invariant
            n == parts@.len(),
            cs == spec_compile(path@),
            cs.len() == n,
            spec_strings_view(parts@) == spec_split_from(path@, 0),
            0 <= i <= n,
            segments@.len() == i,
            forall|m: int| 0 <= m < i ==> segments@[m]@ == cs[m],
            has_param ==> (exists|m: int| 0 <= m < i && spec_is_param(#[trigger] cs[m])),
            !has_param ==> (forall|m: int| 0 <= m < i ==> !spec_is_param(#[trigger] cs[m])),
        decreases n - i,
    {
        proof {
            assert(spec_strings_view(parts@)[i as int] == parts@[i as int]@);
            assert(cs[i as int] == spec_segment_of(spec_split_from(path@, 0)[i as int]));
        }
        match param_name_of(&parts[i]) {
            Some(nm) => {
                segments.push(TemplateSegment::Param(nm));
                has_param = true;
            },
            None => {
                segments.push(TemplateSegment::Literal(parts[i].clone()));
            },
        }
        i = i + 1;
    }
    if has_param {
        let m = PathMatcher { segments };
        proof {
            assert(m@ =~= cs);
        }
        Some(m)
    } else {
        None
    }
}

/// Test a concrete path against a compiled template.
pub fn path_matches(matcher: &PathMatcher, path: &str) -> (b: bool)
    ensures
        b == spec_matches(matcher@, path@),
{
    let n = path.unicode_len();
    let nsegs = matcher.segments.len();
    let mut k: usize = 0;
    let mut pos: usize = 0;
    proof {
        assert(matcher@.skip(0) =~= matcher@);
    }
    while k < nsegs
        invariant
            n == path@.len(),
            nsegs == matcher@.len(),
            0 <= k <= nsegs,
            0 <= pos <= n,
            spec_matches(matcher@, path@) == spec_match_from(
                matcher@.skip(k as int),
                path@,
                pos as int,
            ),
        decreases nsegs - k,
    {
        proof {
            assert(matcher@.skip(k as int)[0] == matcher@[k as int]);
            assert(matcher@.skip(k as int).drop_first() =~= matcher@.skip(k as int + 1));
            assert(matcher@[k as int] == matcher.segments@[k as int]@);
        }
        if pos >= n || path.get_char(pos) != '/' {
            return false;
        }
        let e = match find_from(path, '/', pos + 1) {
            None => n,
            Some(j) => j,
        };
        proof {
            lemma_find_from_bounds(path@, '/', pos as int + 1);
            assert(e as int == spec_seg_end(path@, pos as int));
        }
        let ok = match &matcher.segments[k] {
            TemplateSegment::Literal(l) => {
                let part = path.substring_char(pos + 1, e).to_owned();
                proof {
                    assert(part@ =~= path@.subrange(pos as int + 1, e as int));
                }
                part == *l
            },
            TemplateSegment::Param(_) => {
                proof {
                    assert(forall|m: int|
                        pos + 1 <= m < e ==> path@.subrange(pos as int + 1, e as int)[m - pos - 1]
                            == path@[m]);
                }
                e - (pos + 1) >= 1 && all_pchar_range(path, pos + 1, e)
            },
        };
        if !ok {
            proof {
                assert(!spec_seg_matches(matcher@[k as int], path@.subrange(
                    pos as int + 1,
                    e as int,
                )));
            }
            return false;
        }
        k = k + 1;
        pos = e;
    }
    proof {
        assert(matcher@.skip(nsegs as int) =~= Seq::<SpecSegment>::empty());
    }
    pos == n
}

/// Re-run a compiled matcher over a concrete path and hand back its named
/// captures, in template order; a path the matcher does not accept is a
/// bad request.
pub fn extract_path_params(path: &str, matcher: &PathMatcher) -> (r: Result<
    Vec<(String, String)>,
    ServerError,
>)
    ensures
        match r {
            Ok(ps) => spec_matches(matcher@, path@) && spec_pairs_view(ps@) == spec_extract(
                matcher@,
                path@,
            ),
            Err(e) => {
                &&& !spec_matches(matcher@, path@)
                &&& e.status_view() == 400
                &&& e.detail_view() == "Bad Request"@
            },
        },
{
    let n = path.unicode_len();
    let nsegs = matcher.segments.len();
    let mut params: Vec<(String, String)> = Vec::new();
    let ghost mut done = Seq::<(Seq<char>, Seq<char>)>::empty();
    let mut k: usize = 0;
    let mut pos: usize = 0;
    proof {
        assert(matcher@.skip(0) =~= matcher@);
        assert(Seq::<(Seq<char>, Seq<char>)>::empty() + spec_extract(matcher@, path@)
            =~= spec_extract(matcher@, path@));
    }
    while k < nsegs
        invariant
            n == path@.len(),
            nsegs == matcher@.len(),
            0 <= k <= nsegs,
            0 <= pos <= n,
            spec_matches(matcher@, path@) == spec_match_from(
                matcher@.skip(k as int),
                path@,
                pos as int,
            ),
            spec_pairs_view(params@) == done,
            done + spec_extract_from(matcher@.skip(k as int), path@, pos as int) == spec_extract(
                matcher@,
                path@,
            ),
        decreases nsegs - k,
    {
        proof {
            assert(matcher@.skip(k as int)[0] == matcher@[k as int]);
            assert(matcher@.skip(k as int).drop_first() =~= matcher@.skip(k as int + 1));
            assert(matcher@[k as int] == matcher.segments@[k as int]@);
        }
        if pos >= n || path.get_char(pos) != '/' {
            proof {
                assert(spec_extract_from(matcher@.skip(k as int), path@, pos as int)
                    =~= Seq::<(Seq<char>, Seq<char>)>::empty());
            }
            return Err(StdServerError::BadRequest.to_error());
        }
        let e = match find_from(path, '/', pos + 1) {
            None => n,
            Some(j) => j,
        };
        proof {
            lemma_find_from_bounds(path@, '/', pos as int + 1);
            assert(e as int == spec_seg_end(path@, pos as int));
        }
        let part = path.substring_char(pos + 1, e);
        proof {
            assert(part@ =~= path@.subrange(pos as int + 1, e as int));
        }
        match &matcher.segments[k] {
            TemplateSegment::Literal(l) => {
                let owned = part.to_owned();
                if !(owned == *l) {
                    return Err(StdServerError::BadRequest.to_error());
                }
            },
            TemplateSegment::Param(nm) => {
                if e - (pos + 1) < 1 || !all_pchar_range(path, pos + 1, e) {
                    proof {
                        assert(forall|m: int|
                            pos + 1 <= m < e ==> path@.subrange(pos as int + 1, e as int)[m - pos
                                - 1] == path@[m]);
                        assert(!spec_seg_matches(matcher@[k as int], part@));
                    }
                    return Err(StdServerError::BadRequest.to_error());
                }
                proof {
                    assert(forall|m: int|
                        pos + 1 <= m < e ==> path@.subrange(pos as int + 1, e as int)[m - pos - 1]
                            == path@[m]);
                }
                let ghost cap = (nm@, part@);
                params.push((nm.clone(), part.to_owned()));
                proof {
                    assert(spec_pairs_view(params@) =~= done.push(cap));
                    assert(done.push(cap) + spec_extract_from(
                        matcher@.skip(k as int + 1),
                        path@,
                        e as int,
                    ) =~= done + (seq![cap] + spec_extract_from(
                        matcher@.skip(k as int + 1),
                        path@,
                        e as int,
                    )));
                    done = done.push(cap);
                }
            },
        }
        k = k + 1;
        pos = e;
    }
    proof {
        assert(matcher@.skip(nsegs as int) =~= Seq::<SpecSegment>::empty());
        assert(spec_extract_from(matcher@.skip(nsegs as int), path@, pos as int)
            =~= Seq::<(Seq<char>, Seq<char>)>::empty());
        assert(done + Seq::<(Seq<char>, Seq<char>)>::empty() =~= done);
    }
    if pos != n {
        return Err(StdServerError::BadRequest.to_error());
    }
    Ok(params)
}

/// Whether a method list holds `m`.
fn methods_contain(methods: &Vec<HttpMethod>, m: HttpMethod) -> (b: bool)
    ensures
        b == methods@.contains(m),
{
    let n = methods.len();
    let mut i: usize = 0;
    while i < n
        invariant
            n == methods@.len(),
            0 <= i <= n,
            forall|j: int| 0 <= j < i ==> methods@[j] != m,
        decreases n - i,
    {
        if methods[i] == m {
            assert(methods@[i as int] == m);
            return true;
        }
        i = i + 1;
    }
    assert(!methods@.contains(m));
    false
}

/// A registered route: a path template, the handler to run, the methods it
/// accepts, and the matcher compiled once at registration.
pub struct Route<H: RouteHandler> {
    path: String,
    func: H,
    methods: Vec<HttpMethod>,
    matcher: Option<PathMatcher>,
}

impl<H: RouteHandler> Route<H> {
    /// The route's template path.
    pub closed spec fn spec_path(&self) -> Seq<char> {
        self.path@
    }

    /// The route's accepted methods.
    pub closed spec fn spec_methods(&self) -> Seq<HttpMethod> {
        self.methods@
    }

    /// The route's compiled matcher, if the template is parameterized.
    pub closed spec fn spec_matcher(&self) -> Option<Seq<SpecSegment>> {
        match self.matcher {
            Some(m) => Some(m@),
            None => None,
        }
    }

    /// The route's handler.
    pub closed spec fn spec_func(&self) -> H {
        self.func
    }

    /// The matcher is exactly what the template compiles to.
    pub open spec fn spec_wf(&self) -> bool {
        self.spec_matcher() == if spec_has_param(spec_compile(self.spec_path())) {
            Some(spec_compile(self.spec_path()))
        } else {
            None::<Seq<SpecSegment>>
        }
    }

    /// Whether this route accepts a request with the given method and
    /// path: the method must be in the route's set, and the path must
    /// satisfy the compiled matcher, or equal the template verbatim when
    /// the template is purely literal.
    pub open spec fn spec_matches_request(&self, method: HttpMethod, path: Seq<char>) -> bool {
        self.spec_methods().contains(method) && match self.spec_matcher() {
            Some(segs) => spec_matches(segs, path),
            None => self.spec_path() == path,
        }
    }

    /// Register a route: the template is compiled here, once. Parameter
    /// names inside one template must be distinct; registration with a
    /// template that breaks that invariant is a configuration fault the
    /// caller must rule out beforehand.
    pub fn new(path: String, func: H, methods: Vec<HttpMethod>) -> (r: Self)
        requires
            spec_names_unique(spec_param_names(spec_compile(path@))),
        ensures
            r.spec_path() == path@,
            r.spec_methods() == methods@,
            r.spec_func() == func,
            r.spec_wf(),
    {
        let matcher = compile_path_template(path.as_str());
        Route { path, func, methods, matcher }
    }

    /// The compiled matcher, for callers that test paths themselves.
    pub fn get_path_matcher(&self) -> (r: &Option<PathMatcher>)
        ensures
            match r {
                Some(m) => self.spec_matcher() == Some(m@),
                None => self.spec_matcher() == None::<Seq<SpecSegment>>,
            },
    {
        &self.matcher
    }
}

/// The ordered route table: first structural-and-method match wins.
pub struct Router<H: RouteHandler> {
    routes: Vec<Route<H>>,
}

impl<H: RouteHandler> Router<H> {
    /// The routes, in registration order.
    pub closed spec fn spec_routes(&self) -> Seq<Route<H>> {
        self.routes@
    }

    /// Whether any route accepts the method and path.
    pub open spec fn spec_some_match(&self, method: HttpMethod, path: Seq<char>) -> bool {
        exists|i: int|
            0 <= i < self.spec_routes().len() && (#[trigger] self.spec_routes()[i])
                .spec_matches_request(method, path)
    }

    /// Build a router from routes in registration order.
    pub fn new(routes: Vec<Route<H>>) -> (r: Self)
        ensures
            r.spec_routes() == routes@,
    {
        Router { routes }
    }

    /// Find the first route, in registration order, that accepts the
    /// request's method and path; a miss is `NotFound`.
    pub fn match_path_to_route<Q: Request>(&self, request: &Q) -> (r: Result<usize, ServerError>)
        ensures
            match r {
                Ok(i) => {
                    &&& i < self.spec_routes().len()
                    &&& self.spec_routes()[i as int].spec_matches_request(
                        request.method_view(),
                        request.path_view(),
                    )
                    &&& forall|j: int|
                        0 <= j < i ==> !(#[trigger] self.spec_routes()[j]).spec_matches_request(
                            request.method_view(),
                            request.path_view(),
                        )
                },
                Err(e) => {
                    &&& !self.spec_some_match(request.method_view(), request.path_view())
                    &&& e.status_view() == 404
                    &&& e.detail_view() == "Not Found"@
                },
            },
    {
        let method = request.get_method();
        let path = request.get_path();
        let n = self.routes.len();
        let mut i: usize = 0;
        while i < n
            invariant
                n == self.spec_routes().len(),
                0 <= i <= n,
                method == request.method_view(),
                path@ == request.path_view(),
                forall|j: int|
                    0 <= j < i ==> !(#[trigger] self.spec_routes()[j]).spec_matches_request(
                        request.method_view(),
                        request.path_view(),
                    ),
            decreases n - i,
        {
            let route = &self.routes[i];
            if methods_contain(&route.methods, method) {
                let path_ok = match &route.matcher {
                    Some(m) => path_matches(m, path.as_str()),
                    None => route.path == path,
                };
                if path_ok {
                    return Ok(i);
                }
            }
            i = i + 1;
        }
        Err(StdServerError::NotFound.to_error())
    }

    /// Execute one dispatch: select the route, extract path parameters
    /// onto a copy of the request when the route is parameterized, and run
    /// the route's handler. A request no route accepts is `NotFound`.
    /// Select the route for the context's request and prepare the context
    /// its handler will receive: on a parameterized route, the request is
    /// value-cloned and every named capture of the matcher against the
    /// path is stored onto the copy's path parameters, in template order;
    /// on a purely literal route the context passes through unchanged. A
    /// request no route accepts is `NotFound`.
    pub fn prepare(&self, ctx: RequestContext<H::Req, H::Resp>) -> (r: Result<
        (usize, RequestContext<H::Req, H::Resp>),
        ServerError,
    >)
        ensures
            match r {
                Ok(p) => {
                    &&& p.0 < self.spec_routes().len()
                    &&& self.spec_routes()[p.0 as int].spec_matches_request(
                        ctx.spec_request().method_view(),
                        ctx.spec_request().path_view(),
                    )
                    &&& forall|j: int|
                        0 <= j < p.0 ==> !(#[trigger] self.spec_routes()[j]).spec_matches_request(
                            ctx.spec_request().method_view(),
                            ctx.spec_request().path_view(),
                        )
                    &&& p.1.spec_response() == ctx.spec_response()
                    &&& p.1.spec_request().method_view() == ctx.spec_request().method_view()
                    &&& p.1.spec_request().path_view() == ctx.spec_request().path_view()
                    &&& p.1.spec_request().headers_view() == ctx.spec_request().headers_view()
                    &&& p.1.spec_request().query_params_view() == ctx.spec_request()
                        .query_params_view()
                    &&& p.1.spec_request().body_view() == ctx.spec_request().body_view()
                    &&& match self.spec_routes()[p.0 as int].spec_matcher() {
                        Some(segs) => p.1.spec_request().path_params_view() == spec_store_all(
                            ctx.spec_request().path_params_view(),
                            spec_extract(segs, ctx.spec_request().path_view()),
                        ),
                        None => p.1.spec_request().path_params_view() == ctx.spec_request()
                            .path_params_view(),
                    }
                },
                Err(e) => {
                    &&& !self.spec_some_match(
                        ctx.spec_request().method_view(),
                        ctx.spec_request().path_view(),
                    )
                    &&& e.status_view() == 404
                    &&& e.detail_view() == "Not Found"@
                },
            },
    {
        let mut ctx = ctx;
        let i = match self.match_path_to_route(ctx.get_request()) {
            Ok(val) => val,
            Err(e) => {
                return Err(e);
            },
        };
        match &self.routes[i].matcher {
            Some(m) => {
                let path = ctx.get_request().get_path();
                match extract_path_params(path.as_str(), m) {
                    Ok(params) => {
                        let ghost extracted = spec_extract(m@, path@);
                        let mut request = ctx.get_request().clone();
                        let ghost pp0 = request.path_params_view();
                        let ghost mv = request.method_view();
                        let ghost pv = request.path_view();
                        let ghost hv = request.headers_view();
                        let ghost qv = request.query_params_view();
                        let ghost bv = request.body_view();
                        proof {
                            assert(extracted.skip(0) =~= extracted);
                        }
                        let np = params.len();
                        let mut j: usize = 0;
                        while j < np
                            invariant
                                np == params@.len(),
                                0 <= j <= np,
                                extracted == spec_pairs_view(params@),
                                extracted.len() == np,
                                spec_store_all(
                                    request.path_params_view(),
                                    extracted.skip(j as int),
                                ) == spec_store_all(pp0, extracted),
                                request.method_view() == mv,
                                request.path_view() == pv,
                                request.headers_view() == hv,
                                request.query_params_view() == qv,
                                request.body_view() == bv,
                            decreases np - j,
                        {
                            proof {
                                assert(extracted.skip(j as int)[0] == extracted[j as int]);
                                assert(extracted.skip(j as int).drop_first() =~= extracted.skip(
                                    j as int + 1,
                                ));
                                assert(extracted[j as int] == (
                                    params@[j as int].0@,
                                    params@[j as int].1@,
                                ));
                            }
                            request.set_path_param(
                                params[j].0.as_str(),
                                params[j].1.as_str(),
                            );
                            j = j + 1;
                        }
                        proof {
                            assert(extracted.skip(np as int)
                                =~= Seq::<(Seq<char>, Seq<char>)>::empty());
                        }
                        ctx.set_request(request);
                        Ok((i, ctx))
                    },
                    Err(e) => {
                        proof {
                            assert(false);
                        }
                        Err(e)
                    },
                }
            },
            None => Ok((i, ctx)),
        }
    }

    /// Execute one dispatch: prepare the context for the first route that
    /// accepts the request (`prepare` fixes exactly what the handler
    /// receives) and run that route's handler, returning its result as
    /// is. A request no route accepts is `NotFound`.
    pub fn dispatch(&self, ctx: RequestContext<H::Req, H::Resp>) -> (r: Result<
        RequestContext<H::Req, H::Resp>,
        ServerError,
    >)
        ensures
            !self.spec_some_match(
                ctx.spec_request().method_view(),
                ctx.spec_request().path_view(),
            ) ==> match r {
                Err(e) => e.status_view() == 404 && e.detail_view() == "Not Found"@,
                Ok(_) => false,
            },
            match r {
                Ok(_) => self.spec_some_match(
                    ctx.spec_request().method_view(),
                    ctx.spec_request().path_view(),
                ),
                Err(_) => true,
            },
    {
        let prepared = match self.prepare(ctx) {
            Ok(val) => val,
            Err(e) => {
                return Err(e);
            },
        };
        let f = &self.routes[prepared.0].func;
        f.handle(prepared.1)
    }
}

/// Law: router precedence. When two registered routes both accept the same
/// request, the route the router selects (the first acceptor, as
/// `match_path_to_route` ensures) is never later than the earlier of the
/// two: registration order decides.
pub proof fn lemma_router_precedence<H: RouteHandler>(
    router: Router<H>,
    method: HttpMethod,
    path: Seq<char>,
    i: int,
    j: int,
    k: int,
)
    requires
        0 <= i < j < router.spec_routes().len(),
        router.spec_routes()[i].spec_matches_request(method, path),
        router.spec_routes()[j].spec_matches_request(method, path),
        0 <= k < router.spec_routes().len(),
        router.spec_routes()[k].spec_matches_request(method, path),
        forall|q: int|
            0 <= q < k ==> !(#[trigger] router.spec_routes()[q]).spec_matches_request(
                method,
                path,
            ),
    ensures
        k <= i,
        k < j,
{
    if k > i {
        assert(!router.spec_routes()[i].spec_matches_request(method, path));
    }
}

} // verus!
