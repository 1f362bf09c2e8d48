use vstd::prelude::*;

use crate::recognizer::{
    ambiguous, literal_count, match_post, recognize_post, segs_view, shapes_overlap,
    spec_parse_pattern, strip_slash, spec_split, lemma_parse_parts_wf, parse_pattern, split_path,
    Method, Recognition, Route, RouteMatch, Router, lemma_recognize_deterministic, pairs_view,
};

verus! {

/// The status of a response that matched no route.
pub const STATUS_NOT_FOUND: u16 = 404;

/// The status of a response whose path is known but whose method is not.
pub const STATUS_METHOD_NOT_ALLOWED: u16 = 405;

/// The status of a response standing for a failed handler.
pub const STATUS_SERVER_ERROR: u16 = 500;

/// One route the service is asked to register: its method, its pattern, the
/// reference of the handler bound to it, and whether that handler's own
/// (possibly asynchronous) setup succeeded before construction.
#[derive(Clone, Debug)]
pub struct RouteDef {
    pub method: Method,
    pub pattern: String,
    pub handler: usize,
    pub setup_ok: bool,
}

/// Why the service could not be constructed.
#[derive(Clone, Copy, Debug, PartialEq, Eq, Structural)]
pub enum BuildError {
    /// A route pattern could not be parsed.
    InvalidPattern,
    /// Two registered patterns could both match some path equally well.
    ConflictingRoute,
    /// A handler's required setup failed.
    HandlerSetup,
}

/// A response as dispatch sees it: a status and an opaque body.
#[derive(Clone, Debug)]
pub struct Response {
    pub status: u16,
    pub body: Vec<u8>,
}

/// What the service decides for one request: invoke the matched handler
/// with its captured parameters, or answer at once without touching any
/// handler.
#[derive(Clone, Debug)]
pub enum Dispatch {
    Invoke(RouteMatch),
    RespondNotFound,
    RespondMethodNotAllowed,
}

/// One definition is usable: its pattern parses and its handler's setup
/// succeeded.
pub open spec fn def_ok(d: RouteDef) -> bool {
    spec_parse_pattern(d.pattern@) is Some && d.setup_ok
}

/// Two definitions would leave the route table ambiguous.
pub open spec fn defs_ambiguous(a: RouteDef, b: RouteDef) -> bool {
    &&& a.method == b.method
    &&& spec_parse_pattern(a.pattern@) is Some
    &&& spec_parse_pattern(b.pattern@) is Some
    &&& shapes_overlap(
        spec_parse_pattern(a.pattern@)->Some_0,
        spec_parse_pattern(b.pattern@)->Some_0,
    )
    &&& literal_count(spec_parse_pattern(a.pattern@)->Some_0) == literal_count(
        spec_parse_pattern(b.pattern@)->Some_0,
    )
}

/// A whole set of definitions builds: each is usable and no two collide.
pub open spec fn defs_ok(defs: Seq<RouteDef>) -> bool {
    &&& forall|i: int| 0 <= i < defs.len() ==> def_ok(#[trigger] defs[i])
    &&& forall|i: int, j: int|
        0 <= i < j < defs.len() ==> !defs_ambiguous(#[trigger] defs[i], #[trigger] defs[j])
}

/// The registered route `r` is the one definition `d` asked for.
pub open spec fn route_of_def(r: Route, d: RouteDef) -> bool {
    &&& r.method == d.method
    &&& r.handler == d.handler
    &&& spec_parse_pattern(d.pattern@) == Some(segs_view(r.segments@))
}

/// What dispatching one request means, over the route table: the decision
/// follows the recognizer on the request's split path.
pub open spec fn dispatch_post(
    routes: Seq<Route>,
    method: Method,
    path: Seq<char>,
    d: Dispatch,
) -> bool {
    let parts = spec_split(strip_slash(path));
    match d {
        Dispatch::Invoke(m) => match_post(routes, method, parts, m),
        Dispatch::RespondNotFound => recognize_post(routes, method, parts, Recognition::NotFound),
        Dispatch::RespondMethodNotAllowed => recognize_post(
            routes,
            method,
            parts,
            Recognition::MethodNotAllowed,
        ),
    }
}

/// The workload API service: an immutable route table, built fully before
/// the first request is accepted, and a per-request dispatch entry point.
#[derive(Clone, Debug)]
pub struct WorkloadService {
    pub router: Router,
}

impl WorkloadService {
    /// Assemble the service from its route definitions. Construction
    /// succeeds, and the service's table registers exactly the given
    /// routes, precisely when every pattern parses, every handler's setup
    /// succeeded and no two routes collide; otherwise no service value
    /// exists at all, so no request can reach a partial table.
    pub fn new(defs: &Vec<RouteDef>) -> (r: Result<WorkloadService, BuildError>)
        ensures
            r is Ok <==> defs_ok(defs@),
            r matches Ok(s) ==> {
                &&& s.router.wf()
                &&& s.router.routes@.len() == defs@.len()
                &&& forall|i: int|
                    0 <= i < defs@.len() ==> route_of_def(
                        #[trigger] s.router.routes@[i],
                        defs@[i],
                    )
            },
            r == Err::<WorkloadService, BuildError>(BuildError::InvalidPattern) ==> exists|i: int|
                0 <= i < defs@.len() && spec_parse_pattern((#[trigger] defs@[i]).pattern@)
                    is None,
            r == Err::<WorkloadService, BuildError>(BuildError::HandlerSetup) ==> exists|i: int|
                0 <= i < defs@.len() && !(#[trigger] defs@[i]).setup_ok,
            r == Err::<WorkloadService, BuildError>(BuildError::ConflictingRoute)
                ==> exists|i: int, j: int|
                0 <= i < j < defs@.len() && defs_ambiguous(
                    #[trigger] defs@[i],
                    #[trigger] defs@[j],
                ),
    {
        let mut router = Router::new();
        let mut i: usize = 0;
        while i < defs.len()
            invariant
                i <= defs@.len(),
                router.wf(),
                router.routes@.len() == i,
                forall|k: int|
                    0 <= k < i ==> route_of_def(#[trigger] router.routes@[k], defs@[k]),
                forall|k: int| 0 <= k < i ==> def_ok(#[trigger] defs@[k]),
            decreases defs@.len() - i,
        {
            let d = &defs[i];
            let segments = match parse_pattern(d.pattern.as_str()) {
                Ok(segments) => segments,
                Err(_) => {
                    return Err(BuildError::InvalidPattern);
                },
            };
            if !d.setup_ok {
                return Err(BuildError::HandlerSetup);
            }
            proof {
                lemma_parse_parts_wf(spec_split(strip_slash(d.pattern@)));
            }
            let route = Route { method: d.method, segments, handler: d.handler };
            match router.add_route(route) {
                Ok(_) => {},
                Err(_) => {
                    assert(exists|k: int|
                        0 <= k < i && defs_ambiguous(#[trigger] defs@[k], defs@[i as int]));
                    return Err(BuildError::ConflictingRoute);
                },
            }
            i = i + 1;
        }
        assert forall|a: int, b: int| 0 <= a < b < defs@.len() implies !defs_ambiguous(
            #[trigger] defs@[a],
            #[trigger] defs@[b],
        ) by {
            assert(!ambiguous(router.routes@[a], router.routes@[b]));
        }
        Ok(WorkloadService { router })
    }

    /// Decide one request: split the path, run the recognizer, and either
    /// hand back the matched handler with its captured parameters or the
    /// answer to give without invoking any handler.
    pub fn dispatch(&self, method: Method, path: &str) -> (d: Dispatch)
        ensures
            dispatch_post(self.router.routes@, method, path@, d),
    {
        let parts = split_path(path);
        match self.router.recognize(method, &parts) {
            Recognition::Match(m) => Dispatch::Invoke(m),
            Recognition::NotFound => Dispatch::RespondNotFound,
            Recognition::MethodNotAllowed => Dispatch::RespondMethodNotAllowed,
        }
    }

    /// Turn a dispatch decision and, for an invocation, what the handler
    /// returned (`None`: the handler failed) into the final response. A
    /// handler's successful response is passed through unchanged; its
    /// failure becomes a server error and never escapes further.
    pub fn respond(d: &Dispatch, handler_result: Option<Response>) -> (r: Response)
        ensures
            d is RespondNotFound ==> r.status == STATUS_NOT_FOUND && r.body@ == Seq::<u8>::empty(),
            d is RespondMethodNotAllowed ==> r.status == STATUS_METHOD_NOT_ALLOWED && r.body@
                == Seq::<u8>::empty(),
            d is Invoke ==> match handler_result {
                Some(h) => r == h,
                None => r.status == STATUS_SERVER_ERROR && r.body@ == Seq::<u8>::empty(),
            },
    {
        match d {
            Dispatch::RespondNotFound => Response { status: STATUS_NOT_FOUND, body: Vec::new() },
            Dispatch::RespondMethodNotAllowed => Response {
                status: STATUS_METHOD_NOT_ALLOWED,
                body: Vec::new(),
            },
            Dispatch::Invoke(_) => match handler_result {
                Some(h) => h,
                None => Response { status: STATUS_SERVER_ERROR, body: Vec::new() },
            },
        }
    }
}

/// Law: dispatch is a function of the immutable route table and the request
/// alone. Against an unambiguous table, any two decisions that both satisfy
/// the dispatch contract for the same request agree: same kind, and for an
/// invocation the same handler and the same captured parameters. Concurrent
/// requests therefore cannot interfere with one another's results.
pub proof fn lemma_dispatch_independent(
    routes: Seq<Route>,
    method: Method,
    path: Seq<char>,
    d1: Dispatch,
    d2: Dispatch,
)
    requires
        forall|i: int, j: int|
            0 <= i < j < routes.len() ==> !ambiguous(#[trigger] routes[i], #[trigger] routes[j]),
        dispatch_post(routes, method, path, d1),
        dispatch_post(routes, method, path, d2),
    ensures
        d1 is Invoke <==> d2 is Invoke,
        d1 is RespondNotFound <==> d2 is RespondNotFound,
        d1 is RespondMethodNotAllowed <==> d2 is RespondMethodNotAllowed,
        d1 matches Dispatch::Invoke(m1) ==> d2 matches Dispatch::Invoke(m2) ==> (m1.handler
            == m2.handler && pairs_view(m1.params@) == pairs_view(m2.params@)),
{
    let parts = spec_split(strip_slash(path));
    let r1 = match d1 {
        Dispatch::Invoke(m) => Recognition::Match(m),
        Dispatch::RespondNotFound => Recognition::NotFound,
        Dispatch::RespondMethodNotAllowed => Recognition::MethodNotAllowed,
    };
    let r2 = match d2 {
        Dispatch::Invoke(m) => Recognition::Match(m),
        Dispatch::RespondNotFound => Recognition::NotFound,
        Dispatch::RespondMethodNotAllowed => Recognition::MethodNotAllowed,
    };
    lemma_recognize_deterministic(routes, method, parts, r1, r2);
}

} // verus!
