use vstd::prelude::*;

verus! {

/// One segment of a registered route pattern: a literal that matches only
/// itself, or a named parameter that matches any non-empty path segment and
/// captures it.
#[derive(Clone, Debug)]
pub enum Segment {
    Literal(String),
    Param(String),
}

/// The mathematical shape of a `Segment`.
pub enum SegView {
    Literal(Seq<char>),
    Param(Seq<char>),
}

impl View for Segment {
    type V = SegView;

    open spec fn view(&self) -> SegView {
        match self {
            Segment::Literal(l) => SegView::Literal(l@),
            Segment::Param(p) => SegView::Param(p@),
        }
    }
}

/// The views of a sequence of segments.
pub open spec fn segs_view(s: Seq<Segment>) -> Seq<SegView> {
    s.map(|i: int, x: Segment| x@)
}

/// The views of a sequence of strings.
pub open spec fn strs_view(s: Seq<String>) -> Seq<Seq<char>> {
    s.map(|i: int, x: String| x@)
}

/// A segment is well formed when its literal text or parameter name is
/// non-empty.
pub open spec fn seg_wf(s: SegView) -> bool {
    match s {
        SegView::Literal(l) => l.len() > 0,
        SegView::Param(n) => n.len() > 0,
    }
}

/// A pattern is well formed when all of its segments are.
pub open spec fn pattern_wf(p: Seq<SegView>) -> bool {
    forall|i: int| 0 <= i < p.len() ==> seg_wf(#[trigger] p[i])
}

/// The parts of `s[start..]` split on `'/'`, scanning from position `i`;
/// `start` is where the part under construction began. Splitting always
/// yields one part more than there are separators; positions outside the
/// string close the last part at once, which keeps the definition total.
pub open spec fn split_from(s: Seq<char>, start: int, i: int) -> Seq<Seq<char>>
    decreases s.len() - i,
{
    if i < start || start < 0 || i >= s.len() {
        seq![s.subrange(start, s.len() as int)]
    } else if s[i] == '/' {
        seq![s.subrange(start, i)] + split_from(s, i + 1, i + 1)
    } else {
        split_from(s, start, i + 1)
    }
}

/// The parts of `s` split on `'/'`.
pub open spec fn spec_split(s: Seq<char>) -> Seq<Seq<char>> {
    split_from(s, 0, 0)
}

/// A path or pattern with its one optional leading slash removed; segments
/// are compared without it.
pub open spec fn strip_slash(s: Seq<char>) -> Seq<char> {
    if s.len() > 0 && s[0] == '/' {
        s.drop_first()
    } else {
        s
    }
}

/// Split a path into its segments: one optional leading slash is dropped,
/// the rest is split on `'/'`.
pub fn split_path(path: &str) -> (parts: Vec<String>)
    ensures
        strs_view(parts@) == spec_split(strip_slash(path@)),
{
    let full_len = path.unicode_len();
    let s: &str = if full_len > 0 && path.get_char(0) == '/' {
        path.substring_char(1, full_len)
    } else {
        path
    };
    assert(s@ =~= strip_slash(path@));
    let len = s.unicode_len();
    let mut parts: Vec<String> = Vec::new();
    let mut start: usize = 0;
    let mut i: usize = 0;
    assert(strs_view(parts@) + split_from(s@, 0, 0) =~= split_from(s@, 0, 0));
    while i < len
        invariant
            start <= i <= len,
            len == s@.len(),
            strs_view(parts@) + split_from(s@, start as int, i as int) == spec_split(s@),
        decreases len - i,
    {
        let ghost prev = strs_view(parts@);
        let c = s.get_char(i);
        if c == '/' {
            let part = s.substring_char(start, i);
            parts.push(String::from_str(part));
            assert(strs_view(parts@) =~= prev + seq![part@]);
            assert(prev + (seq![s@.subrange(start as int, i as int)] + split_from(
                s@,
                i + 1,
                i + 1,
            )) =~= (prev + seq![part@]) + split_from(s@, i + 1, i + 1));
            start = i + 1;
        }
        i = i + 1;
    }
    let part = s.substring_char(start, len);
    parts.push(String::from_str(part));
    assert(strs_view(parts@) =~= strs_view(parts@.drop_last()) + seq![part@]);
    assert(strs_view(parts@.drop_last()) + seq![part@] =~= strs_view(parts@.drop_last())
        + split_from(s@, start as int, len as int));
    assert(strs_view(parts@) == spec_split(strip_slash(path@)));
    parts
}

/// Errors of route registration.
#[derive(Clone, Copy, Debug, PartialEq, Eq, Structural)]
pub enum RouteError {
    /// A pattern segment is empty, or a brace pair holds no parameter name.
    InvalidPattern,
    /// Two patterns of one method could both match some path equally well.
    ConflictingRoute,
}

/// What one pattern part denotes: a brace-delimited part names a parameter,
/// any other non-empty part is a literal; an empty part or an empty brace
/// pair is invalid.
pub open spec fn classify(part: Seq<char>) -> Option<SegView> {
    if part.len() == 0 {
        None
    } else if part[0] == '{' && part[part.len() - 1] == '}' {
        if part.len() >= 3 {
            Some(SegView::Param(part.subrange(1, part.len() - 1)))
        } else {
            None
        }
    } else {
        Some(SegView::Literal(part))
    }
}

/// The segments a sequence of pattern parts denotes, or `None` when any
/// part is invalid.
pub open spec fn parse_parts(parts: Seq<Seq<char>>) -> Option<Seq<SegView>>
    decreases parts.len(),
{
    if parts.len() == 0 {
        Some(Seq::<SegView>::empty())
    } else {
        match (parse_parts(parts.drop_last()), classify(parts.last())) {
            (Some(rest), Some(seg)) => Some(rest.push(seg)),
            _ => None,
        }
    }
}

/// The segments a whole pattern string denotes: one optional leading slash
/// is dropped, the rest is split on `'/'` and classified part by part.
pub open spec fn spec_parse_pattern(s: Seq<char>) -> Option<Seq<SegView>> {
    parse_parts(spec_split(strip_slash(s)))
}

/// Every parsed pattern is well formed: literals and parameter names are
/// non-empty.
pub proof fn lemma_parse_parts_wf(parts: Seq<Seq<char>>)
    requires
        parse_parts(parts) is Some,
    ensures
        pattern_wf(parse_parts(parts)->Some_0),
    decreases parts.len(),
{
    if parts.len() > 0 {
        lemma_parse_parts_wf(parts.drop_last());
    }
}

/// Parse one pattern part into a segment.
fn classify_part(part: &String) -> (r: Option<Segment>)
    ensures
        r is Some <==> classify(part@) is Some,
        r matches Some(seg) ==> seg@ == classify(part@)->Some_0,
{
    let n = part.as_str().unicode_len();
    if n == 0 {
        None
    } else if part.as_str().get_char(0) == '{' && part.as_str().get_char(n - 1) == '}' {
        if n >= 3 {
            let name = part.as_str().substring_char(1, n - 1);
            Some(Segment::Param(String::from_str(name)))
        } else {
            None
        }
    } else {
        Some(Segment::Literal(part.clone()))
    }
}

/// Parse a route pattern such as `/modules/{name}/sign` into its segments.
/// Returns `InvalidPattern` when a segment is empty or a brace pair holds no
/// name; the parse succeeds exactly when `spec_parse_pattern` accepts the
/// pattern.
pub fn parse_pattern(pattern: &str) -> (r: Result<Vec<Segment>, RouteError>)
    ensures
        r is Ok <==> spec_parse_pattern(pattern@) is Some,
        r matches Ok(v) ==> segs_view(v@) == spec_parse_pattern(pattern@)->Some_0,
        r matches Err(e) ==> e == RouteError::InvalidPattern,
{
    let parts = split_path(pattern);
    let ghost pview = strs_view(parts@);
    let mut segs: Vec<Segment> = Vec::new();
    let mut i: usize = 0;
    assert(pview.take(0) =~= Seq::<Seq<char>>::empty());
    while i < parts.len()
        invariant
            i <= parts.len(),
            pview == strs_view(parts@),
            pview == spec_split(strip_slash(pattern@)),
            parse_parts(pview.take(i as int)) is Some,
            segs_view(segs@) == parse_parts(pview.take(i as int))->Some_0,
        decreases parts.len() - i,
    {
        let ghost prev = segs_view(segs@);
        match classify_part(&parts[i]) {
            Some(seg) => {
                segs.push(seg);
                assert(segs_view(segs@) =~= prev.push(seg@));
                assert(pview.take(i as int + 1).drop_last() =~= pview.take(i as int));
                assert(pview.take(i as int + 1).last() == pview[i as int]);
            },
            None => {
                assert(pview.take(i as int + 1).drop_last() =~= pview.take(i as int));
                assert(pview.take(i as int + 1).last() == pview[i as int]);
                proof {
                    lemma_parse_bad_part(pview, i as int);
                }
                return Err(RouteError::InvalidPattern);
            },
        }
        i = i + 1;
    }
    assert(pview.take(parts.len() as int) =~= pview);
    Ok(segs)
}

/// A sequence of parts with one invalid part parses to `None`.
proof fn lemma_parse_bad_part(parts: Seq<Seq<char>>, i: int)
    requires
        0 <= i < parts.len(),
        classify(parts[i]) is None,
    ensures
        parse_parts(parts) is None,
    decreases parts.len(),
{
    if parts.len() > 0 {
        if i == parts.len() - 1 {
        } else {
            lemma_parse_bad_part(parts.drop_last(), i);
        }
    }
}

/// An HTTP method.
#[derive(Clone, Copy, Debug, PartialEq, Eq, Structural)]
pub enum Method {
    Get,
    Post,
    Put,
    Delete,
}

/// A registered route: a method, a parsed pattern, and the reference
/// (an index the service owner assigns) of the handler bound to it.
#[derive(Clone, Debug)]
pub struct Route {
    pub method: Method,
    pub segments: Vec<Segment>,
    pub handler: usize,
}

/// A segment matches one concrete path part: a literal matches only itself,
/// a parameter matches any non-empty part.
pub open spec fn seg_matches(s: SegView, part: Seq<char>) -> bool {
    match s {
        SegView::Literal(l) => part == l,
        SegView::Param(_) => part.len() > 0,
    }
}

/// A pattern matches a concrete path when they have the same number of
/// segments and each segment matches its part.
pub open spec fn pattern_matches(p: Seq<SegView>, parts: Seq<Seq<char>>) -> bool {
    p.len() == parts.len() && forall|i: int|
        0 <= i < p.len() ==> seg_matches(#[trigger] p[i], parts[i])
}

/// How many literal segments a pattern has: its specificity for the
/// most-specific-wins tie-break.
pub open spec fn literal_count(p: Seq<SegView>) -> nat
    decreases p.len(),
{
    if p.len() == 0 {
        0
    } else {
        literal_count(p.drop_last()) + (if p.last() is Literal {
            1nat
        } else {
            0nat
        })
    }
}

/// The parameter mapping a match produces: one (name, captured value) pair
/// per parameter segment, in pattern order.
pub open spec fn spec_captures(p: Seq<SegView>, parts: Seq<Seq<char>>) -> Seq<
    (Seq<char>, Seq<char>),
>
    decreases p.len(),
{
    if p.len() == 0 || parts.len() == 0 {
        Seq::<(Seq<char>, Seq<char>)>::empty()
    } else {
        let rest = spec_captures(p.drop_last(), parts.drop_last());
        match p.last() {
            SegView::Param(n) => rest.push((n, parts.last())),
            SegView::Literal(_) => rest,
        }
    }
}

/// The views of a captured parameter list.
pub open spec fn pairs_view(ps: Seq<(String, String)>) -> Seq<(Seq<char>, Seq<char>)> {
    ps.map(|i: int, p: (String, String)| (p.0@, p.1@))
}

/// Law: the parameter mapping of a match has exactly one entry per parameter
/// segment of the pattern, never missing, never extra.
pub proof fn lemma_captures_count(p: Seq<SegView>, parts: Seq<Seq<char>>)
    requires
        p.len() == parts.len(),
    ensures
        spec_captures(p, parts).len() + literal_count(p) == p.len(),
    decreases p.len(),
{
    if p.len() > 0 {
        lemma_captures_count(p.drop_last(), parts.drop_last());
    }
}

/// String equality, by contents.
fn string_eq(a: &String, b: &String) -> (r: bool)
    ensures
        r == (a@ == b@),
{
    a.eq(b)
}

/// Whether one segment matches one concrete path part.
fn seg_match_exec(seg: &Segment, part: &String) -> (b: bool)
    ensures
        b == seg_matches(seg@, part@),
{
    match seg {
        Segment::Literal(l) => string_eq(l, part),
        Segment::Param(_) => !part.as_str().is_empty(),
    }
}

/// Whether a pattern matches a concrete path, segment by segment.
fn pattern_matches_exec(segs: &Vec<Segment>, parts: &Vec<String>) -> (b: bool)
    ensures
        b == pattern_matches(segs_view(segs@), strs_view(parts@)),
{
    if segs.len() != parts.len() {
        return false;
    }
    let mut i: usize = 0;
    while i < segs.len()
        invariant
            i <= segs@.len(),
            segs@.len() == parts@.len(),
            forall|j: int|
                0 <= j < i ==> seg_matches(#[trigger] segs_view(segs@)[j], strs_view(parts@)[j]),
        decreases segs@.len() - i,
    {
        if !seg_match_exec(&segs[i], &parts[i]) {
            assert(!seg_matches(segs_view(segs@)[i as int], strs_view(parts@)[i as int]));
            return false;
        }
        i = i + 1;
    }
    true
}

/// The number of literal segments of a pattern.
fn count_literals(segs: &Vec<Segment>) -> (n: usize)
    ensures
        n == literal_count(segs_view(segs@)),
{
    let mut n: usize = 0;
    let mut i: usize = 0;
    assert(segs_view(segs@).take(0) =~= Seq::<SegView>::empty());
    while i < segs.len()
        invariant
            i <= segs@.len(),
            n <= i,
            n == literal_count(segs_view(segs@).take(i as int)),
        decreases segs@.len() - i,
    {
        assert(segs_view(segs@).take(i as int + 1).drop_last() =~= segs_view(segs@).take(
            i as int,
        ));
        assert(segs_view(segs@).take(i as int + 1).last() == segs_view(segs@)[i as int]);
        match &segs[i] {
            Segment::Literal(_) => {
                n = n + 1;
            },
            Segment::Param(_) => {},
        }
        i = i + 1;
    }
    assert(segs_view(segs@).take(segs@.len() as int) =~= segs_view(segs@));
    n
}

/// The captured parameters of a successful match, in pattern order.
fn capture_params(segs: &Vec<Segment>, parts: &Vec<String>) -> (r: Vec<(String, String)>)
    requires
        segs@.len() == parts@.len(),
    ensures
        pairs_view(r@) == spec_captures(segs_view(segs@), strs_view(parts@)),
{
    let mut r: Vec<(String, String)> = Vec::new();
    let mut i: usize = 0;
    assert(pairs_view(r@) =~= spec_captures(
        segs_view(segs@).take(0),
        strs_view(parts@).take(0),
    ));
    while i < segs.len()
        invariant
            i <= segs@.len(),
            segs@.len() == parts@.len(),
            pairs_view(r@) == spec_captures(
                segs_view(segs@).take(i as int),
                strs_view(parts@).take(i as int),
            ),
        decreases segs@.len() - i,
    {
        let ghost prev = pairs_view(r@);
        assert(segs_view(segs@).take(i as int + 1).drop_last() =~= segs_view(segs@).take(
            i as int,
        ));
        assert(strs_view(parts@).take(i as int + 1).drop_last() =~= strs_view(parts@).take(
            i as int,
        ));
        assert(segs_view(segs@).take(i as int + 1).last() == segs_view(segs@)[i as int]);
        assert(strs_view(parts@).take(i as int + 1).last() == strs_view(parts@)[i as int]);
        match &segs[i] {
            Segment::Param(name) => {
                r.push((name.clone(), parts[i].clone()));
                assert(pairs_view(r@) =~= prev.push((name@, parts@[i as int]@)));
            },
            Segment::Literal(_) => {},
        }
        i = i + 1;
    }
    assert(segs_view(segs@).take(segs@.len() as int) =~= segs_view(segs@));
    assert(strs_view(parts@).take(parts@.len() as int) =~= strs_view(parts@));
    r
}

/// Two segments are compatible when some concrete part could match both.
pub open spec fn seg_compatible(x: SegView, y: SegView) -> bool {
    match (x, y) {
        (SegView::Literal(a), SegView::Literal(b)) => a == b,
        _ => true,
    }
}

/// Two patterns overlap when they have the same shape: equal length and
/// compatible segments throughout, so some concrete path matches both.
pub open spec fn shapes_overlap(a: Seq<SegView>, b: Seq<SegView>) -> bool {
    a.len() == b.len() && forall|i: int|
        0 <= i < a.len() ==> seg_compatible(#[trigger] a[i], b[i])
}

/// Two routes are ambiguous when they share the method, their patterns
/// overlap, and they are equally specific, so that the most-specific-wins
/// tie-break could not choose between them.
pub open spec fn ambiguous(a: Route, b: Route) -> bool {
    &&& a.method == b.method
    &&& shapes_overlap(segs_view(a.segments@), segs_view(b.segments@))
    &&& literal_count(segs_view(a.segments@)) == literal_count(segs_view(b.segments@))
}

/// Law: overlap is no false alarm: some concrete path really matches both
/// of two overlapping well-formed patterns, so registration refuses only
/// genuinely ambiguous pairs.
pub proof fn lemma_overlap_witness(a: Seq<SegView>, b: Seq<SegView>)
    requires
        shapes_overlap(a, b),
        pattern_wf(a),
        pattern_wf(b),
    ensures
        exists|parts: Seq<Seq<char>>|
            pattern_matches(a, parts) && pattern_matches(b, parts),
{
    let parts = Seq::new(
        a.len(),
        |i: int|
            match a[i] {
                SegView::Literal(l) => l,
                SegView::Param(_) => match b[i] {
                    SegView::Literal(l) => l,
                    SegView::Param(_) => seq!['x'],
                },
            },
    );
    assert forall|i: int| 0 <= i < a.len() implies seg_matches(#[trigger] a[i], parts[i])
        && seg_matches(b[i], parts[i]) by {
        assert(seg_wf(a[i]));
        assert(seg_wf(b[i]));
        assert(seg_compatible(a[i], b[i]));
    }
    assert(pattern_matches(a, parts) && pattern_matches(b, parts));
}

/// Law: two patterns that match one and the same concrete path overlap.
pub proof fn lemma_matching_overlap(a: Seq<SegView>, b: Seq<SegView>, parts: Seq<Seq<char>>)
    requires
        pattern_matches(a, parts),
        pattern_matches(b, parts),
    ensures
        shapes_overlap(a, b),
{
    assert forall|i: int| 0 <= i < a.len() implies seg_compatible(#[trigger] a[i], b[i]) by {
        assert(seg_matches(a[i], parts[i]));
        assert(seg_matches(b[i], parts[i]));
    }
}

/// Whether two segments are compatible.
fn seg_compatible_exec(x: &Segment, y: &Segment) -> (b: bool)
    ensures
        b == seg_compatible(x@, y@),
{
    match (x, y) {
        (Segment::Literal(a), Segment::Literal(b)) => string_eq(a, b),
        _ => true,
    }
}

/// Whether registering both routes would leave the table ambiguous.
fn routes_conflict(a: &Route, b: &Route) -> (c: bool)
    ensures
        c == ambiguous(*a, *b),
{
    if a.method != b.method {
        return false;
    }
    if a.segments.len() != b.segments.len() {
        return false;
    }
    let mut i: usize = 0;
    while i < a.segments.len()
        invariant
            i <= a.segments@.len(),
            a.segments@.len() == b.segments@.len(),
            forall|j: int|
                0 <= j < i ==> seg_compatible(
                    #[trigger] segs_view(a.segments@)[j],
                    segs_view(b.segments@)[j],
                ),
        decreases a.segments@.len() - i,
    {
        if !seg_compatible_exec(&a.segments[i], &b.segments[i]) {
            assert(!seg_compatible(
                segs_view(a.segments@)[i as int],
                segs_view(b.segments@)[i as int],
            ));
            return false;
        }
        i = i + 1;
    }
    let ca = count_literals(&a.segments);
    let cb = count_literals(&b.segments);
    ca == cb
}

/// The parameter mapping of a successful match: the matched handler
/// reference and one (name, value) pair per parameter segment, in pattern
/// order.
#[derive(Clone, Debug)]
pub struct RouteMatch {
    pub method: Method,
    pub handler: usize,
    pub params: Vec<(String, String)>,
}

/// The result of recognizing one request.
#[derive(Clone, Debug)]
pub enum Recognition {
    /// A route of the request's method matched; the most specific one wins.
    Match(RouteMatch),
    /// Some route's pattern matches the path, but none of the request's
    /// method does.
    MethodNotAllowed,
    /// No registered pattern matches the path at all.
    NotFound,
}

/// Whether a route's pattern matches the given path parts.
pub open spec fn route_matches(r: Route, parts: Seq<Seq<char>>) -> bool {
    pattern_matches(segs_view(r.segments@), parts)
}

/// What a successful match means: some registered route of the request's
/// method matches the path, no matching route of that method is more
/// specific, and the result carries that route's handler and exactly its
/// captured parameters.
pub open spec fn match_post(
    routes: Seq<Route>,
    method: Method,
    parts: Seq<Seq<char>>,
    m: RouteMatch,
) -> bool {
    &&& m.method == method
    &&& exists|i: int|
        {
            &&& 0 <= i < routes.len()
            &&& (#[trigger] routes[i]).method == method
            &&& route_matches(routes[i], parts)
            &&& m.handler == routes[i].handler
            &&& pairs_view(m.params@) == spec_captures(segs_view(routes[i].segments@), parts)
            &&& forall|j: int|
                0 <= j < routes.len() && (#[trigger] routes[j]).method == method && route_matches(
                    routes[j],
                    parts,
                ) ==> literal_count(segs_view(routes[j].segments@)) <= literal_count(
                    segs_view(routes[i].segments@),
                )
        }
}

/// What each recognition result means, relative to the route table and the
/// request.
pub open spec fn recognize_post(
    routes: Seq<Route>,
    method: Method,
    parts: Seq<Seq<char>>,
    r: Recognition,
) -> bool {
    match r {
        Recognition::Match(m) => match_post(routes, method, parts, m),
        Recognition::MethodNotAllowed => {
            &&& forall|i: int|
                0 <= i < routes.len() && (#[trigger] routes[i]).method == method
                    ==> !route_matches(routes[i], parts)
            &&& exists|i: int|
                0 <= i < routes.len() && route_matches(#[trigger] routes[i], parts)
                    && routes[i].method != method
        },
        Recognition::NotFound => forall|i: int|
            0 <= i < routes.len() ==> !route_matches(#[trigger] routes[i], parts),
    }
}

/// The route recognizer: the immutable table of registered routes. Routes
/// are registered once at construction; registration refuses a route that
/// would leave the table ambiguous.
#[derive(Clone, Debug)]
pub struct Router {
    pub routes: Vec<Route>,
}

impl Router {
    /// Every registered pattern is well formed.
    pub open spec fn routes_wf(self) -> bool {
        forall|i: int|
            0 <= i < self.routes@.len() ==> pattern_wf(
                segs_view((#[trigger] self.routes@[i]).segments@),
            )
    }

    /// No two registered routes are ambiguous: per method, pattern shapes
    /// of equal specificity are unique.
    pub open spec fn unambiguous(self) -> bool {
        forall|i: int, j: int|
            0 <= i < j < self.routes@.len() ==> !ambiguous(
                #[trigger] self.routes@[i],
                #[trigger] self.routes@[j],
            )
    }

    pub open spec fn wf(self) -> bool {
        self.routes_wf() && self.unambiguous()
    }

    /// An empty route table.
    pub fn new() -> (r: Router)
        ensures
            r.wf(),
            r.routes@.len() == 0,
    {
        Router { routes: Vec::new() }
    }

    /// Register one route. Fails with `ConflictingRoute`, leaving the table
    /// unchanged, exactly when the new route is ambiguous against one
    /// already registered.
    pub fn add_route(&mut self, route: Route) -> (r: Result<(), RouteError>)
        requires
            old(self).wf(),
            pattern_wf(segs_view(route.segments@)),
        ensures
            final(self).wf(),
            r is Ok ==> final(self).routes@ == old(self).routes@.push(route),
            r is Ok ==> forall|j: int|
                0 <= j < old(self).routes@.len() ==> !ambiguous(
                    #[trigger] old(self).routes@[j],
                    route,
                ),
            r is Err ==> final(self).routes@ == old(self).routes@ && r->Err_0
                == RouteError::ConflictingRoute && exists|j: int|
                0 <= j < old(self).routes@.len() && ambiguous(
                    #[trigger] old(self).routes@[j],
                    route,
                ),
    {
        let mut j: usize = 0;
        while j < self.routes.len()
            invariant
                j <= self.routes@.len(),
                *self == *old(self),
                old(self).wf(),
                forall|k: int| 0 <= k < j ==> !ambiguous(#[trigger] self.routes@[k], route),
            decreases self.routes@.len() - j,
        {
            if routes_conflict(&self.routes[j], &route) {
                return Err(RouteError::ConflictingRoute);
            }
            j = j + 1;
        }
        self.routes.push(route);
        assert forall|a: int, b: int| 0 <= a < b < self.routes@.len() implies !ambiguous(
            #[trigger] self.routes@[a],
            #[trigger] self.routes@[b],
        ) by {
            if b < self.routes@.len() - 1 {
                assert(!ambiguous(old(self).routes@[a], old(self).routes@[b]));
            } else {
                assert(!ambiguous(old(self).routes@[a], route));
            }
        }
        assert forall|i: int| 0 <= i < self.routes@.len() implies pattern_wf(
            segs_view((#[trigger] self.routes@[i]).segments@),
        ) by {
            if i < self.routes@.len() - 1 {
                assert(pattern_wf(segs_view(old(self).routes@[i].segments@)));
            }
        }
        Ok(())
    }

    /// Recognize one request, given as its method and its already-split
    /// path parts: deterministic matching with the most-specific-wins
    /// tie-break, distinguishing a wrong method from an unknown path.
    pub fn recognize(&self, method: Method, parts: &Vec<String>) -> (r: Recognition)
        ensures
            recognize_post(self.routes@, method, strs_view(parts@), r),
    {
        let ghost pv = strs_view(parts@);
        let mut best: Option<usize> = None;
        let mut best_count: usize = 0;
        let mut other_method: bool = false;
        let mut i: usize = 0;
        while i < self.routes.len()
            invariant
                i <= self.routes@.len(),
                pv == strs_view(parts@),
                match best {
                    Some(b) => {
                        &&& b < i
                        &&& self.routes@[b as int].method == method
                        &&& route_matches(self.routes@[b as int], pv)
                        &&& best_count == literal_count(
                            segs_view(self.routes@[b as int].segments@),
                        )
                        &&& forall|j: int|
                            0 <= j < i && (#[trigger] self.routes@[j]).method == method
                                && route_matches(self.routes@[j], pv) ==> literal_count(
                                segs_view(self.routes@[j].segments@),
                            ) <= best_count
                    },
                    None => forall|j: int|
                        0 <= j < i ==> !((#[trigger] self.routes@[j]).method == method
                            && route_matches(self.routes@[j], pv)),
                },
                other_method == exists|j: int|
                    0 <= j < i && route_matches(#[trigger] self.routes@[j], pv)
                        && self.routes@[j].method != method,
            decreases self.routes@.len() - i,
        {
            let rt = &self.routes[i];
            if pattern_matches_exec(&rt.segments, parts) {
                if rt.method == method {
                    let c = count_literals(&rt.segments);
                    match best {
                        None => {
                            best = Some(i);
                            best_count = c;
                        },
                        Some(_) => {
                            if c > best_count {
                                best = Some(i);
                                best_count = c;
                            }
                        },
                    }
                } else {
                    other_method = true;
                    assert(route_matches(self.routes@[i as int], pv) && self.routes@[i as int].method
                        != method);
                }
            }
            i = i + 1;
        }
        match best {
            Some(b) => {
                let rt = &self.routes[b];
                assert(segs_view(rt.segments@).len() == rt.segments@.len());
                assert(strs_view(parts@).len() == parts@.len());
                let params = capture_params(&rt.segments, parts);
                Recognition::Match(RouteMatch { method, handler: rt.handler, params })
            },
            None => {
                if other_method {
                    Recognition::MethodNotAllowed
                } else {
                    assert forall|k: int| 0 <= k < self.routes@.len() implies !route_matches(
                        #[trigger] self.routes@[k],
                        pv,
                    ) by {
                        if self.routes@[k].method == method {
                        } else {
                            if route_matches(self.routes@[k], pv) {
                                assert(exists|j: int|
                                    0 <= j < self.routes@.len() && route_matches(
                                        #[trigger] self.routes@[j],
                                        pv,
                                    ) && self.routes@[j].method != method);
                            }
                        }
                    }
                    Recognition::NotFound
                }
            },
        }
    }
}

/// Law: recognition is a function of the route table and the request alone.
/// Against an unambiguous table, any two results that both satisfy the
/// recognizer's contract for the same request agree: same kind, and for a
/// match the same handler and the same captured parameters. Requests are
/// therefore independent: concurrent dispatches cannot interfere.
#[verifier::rlimit(60)]
pub proof fn lemma_recognize_deterministic(
    routes: Seq<Route>,
    method: Method,
    parts: Seq<Seq<char>>,
    r1: Recognition,
    r2: Recognition,
)
    requires
        forall|i: int, j: int|
            0 <= i < j < routes.len() ==> !ambiguous(#[trigger] routes[i], #[trigger] routes[j]),
        recognize_post(routes, method, parts, r1),
        recognize_post(routes, method, parts, r2),
    ensures
        r1 is Match <==> r2 is Match,
        r1 is MethodNotAllowed <==> r2 is MethodNotAllowed,
        r1 is NotFound <==> r2 is NotFound,
        r1 matches Recognition::Match(m1) ==> r2 matches Recognition::Match(m2) ==> (m1.method
            == m2.method && m1.handler == m2.handler && pairs_view(m1.params@) == pairs_view(
            m2.params@,
        )),
{
    match (r1, r2) {
        (Recognition::Match(m1), Recognition::Match(m2)) => {
            let i1 = choose|i: int|
                {
                    &&& 0 <= i < routes.len()
                    &&& (#[trigger] routes[i]).method == method
                    &&& route_matches(routes[i], parts)
                    &&& m1.handler == routes[i].handler
                    &&& pairs_view(m1.params@) == spec_captures(
                        segs_view(routes[i].segments@),
                        parts,
                    )
                    &&& forall|j: int|
                        0 <= j < routes.len() && (#[trigger] routes[j]).method == method
                            && route_matches(routes[j], parts) ==> literal_count(
                            segs_view(routes[j].segments@),
                        ) <= literal_count(segs_view(routes[i].segments@))
                };
            let i2 = choose|i: int|
                {
                    &&& 0 <= i < routes.len()
                    &&& (#[trigger] routes[i]).method == method
                    &&& route_matches(routes[i], parts)
                    &&& m2.handler == routes[i].handler
                    &&& pairs_view(m2.params@) == spec_captures(
                        segs_view(routes[i].segments@),
                        parts,
                    )
                    &&& forall|j: int|
                        0 <= j < routes.len() && (#[trigger] routes[j]).method == method
                            && route_matches(routes[j], parts) ==> literal_count(
                            segs_view(routes[j].segments@),
                        ) <= literal_count(segs_view(routes[i].segments@))
                };
            assert(literal_count(segs_view(routes[i1].segments@)) == literal_count(
                segs_view(routes[i2].segments@),
            ));
            lemma_matching_overlap(
                segs_view(routes[i1].segments@),
                segs_view(routes[i2].segments@),
                parts,
            );
            if i1 != i2 {
                assert(ambiguous(routes[i1], routes[i2]) && ambiguous(routes[i2], routes[i1]));
                assert(false);
            }
        },
        (Recognition::Match(m1), Recognition::MethodNotAllowed) => {
            assert(false);
        },
        (Recognition::Match(m1), Recognition::NotFound) => {
            assert(false);
        },
        (Recognition::MethodNotAllowed, Recognition::Match(m2)) => {
            assert(false);
        },
        (Recognition::NotFound, Recognition::Match(m2)) => {
            assert(false);
        },
        (Recognition::MethodNotAllowed, Recognition::NotFound) => {
            assert(false);
        },
        (Recognition::NotFound, Recognition::MethodNotAllowed) => {
            assert(false);
        },
        _ => {},
    }
}

} // verus!
