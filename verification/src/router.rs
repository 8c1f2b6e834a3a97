//! The routing table: for each method, and for all methods together, the
//! path patterns with the endpoints registered at them, and the choice of
//! the endpoint that answers a request.
use vstd::prelude::*;
use crate::method::{Method, get_name, head_name};
use crate::recognizer::{nul_free, is_ascii_text, recognizable_pattern, recognized, recognizer_routes, recognizer_new, recognizer_add, recognizer_recognize, params_new, params_map, no_params};
use crate::route::StripPrefixEndpoint;

verus! {

/// What answers a request: the endpoint a user registered, either called
/// directly or behind the prefix stripping of a nested service.
pub enum EndpointKind {
    Plain(usize),
    StripPrefix(StripPrefixEndpoint<usize>),
}

/// An endpoint as the router holds it: what answers, and the ids of the
/// middleware that run before it, in order.
pub struct RegisteredEndpoint {
    pub endpoint: EndpointKind,
    pub middleware: Vec<usize>,
}

/// The value of a registered endpoint: the id of the user's endpoint, whether
/// the request path is stripped before it, and the middleware ids.
pub struct EndpointView {
    pub endpoint: usize,
    pub strip_prefix: bool,
    pub middleware: Seq<usize>,
}

impl View for RegisteredEndpoint {
    type V = EndpointView;

    open spec fn view(&self) -> EndpointView {
        match self.endpoint {
            EndpointKind::Plain(e) => EndpointView {
                endpoint: e,
                strip_prefix: false,
                middleware: self.middleware@,
            },
            EndpointKind::StripPrefix(s) => EndpointView {
                endpoint: s.inner(),
                strip_prefix: true,
                middleware: self.middleware@,
            },
        }
    }
}

/// Path patterns, each with the index of the registered endpoint it leads to.
pub type Routes = Seq<(Seq<char>, usize)>;

/// The value of a router.
pub struct RouterView {
    /// For each method that has a route, its patterns in the order they
    /// were added.
    pub methods: Map<Seq<char>, Routes>,
    /// The patterns registered for all methods.
    pub all: Routes,
    /// The registered endpoints, by index.
    pub endpoints: Seq<EndpointView>,
}

pub open spec fn ids_below(routes: Routes, n: nat) -> bool {
    forall|k: int| 0 <= k < routes.len() ==> (#[trigger] routes[k]).1 < n
}

impl RouterView {
    /// A router with no route.
    pub open spec fn empty() -> RouterView {
        RouterView { methods: Map::empty(), all: Seq::empty(), endpoints: Seq::empty() }
    }
    /// Every pattern leads to a registered endpoint.
    pub open spec fn wf(self) -> bool {
        &&& ids_below(self.all, self.endpoints.len())
        &&& forall|m: Seq<char>| #[trigger]
            self.methods.contains_key(m) ==> ids_below(self.methods[m], self.endpoints.len())
    }

    /// The patterns of a method, none where it has no route.
    pub open spec fn routes_for(self, m: Seq<char>) -> Routes {
        if self.methods.contains_key(m) {
            self.methods[m]
        } else {
            Seq::empty()
        }
    }

    /// The router after registering `e` for method `m` at `path`.
    pub open spec fn with_route(self, m: Seq<char>, path: Seq<char>, e: EndpointView) -> RouterView {
        RouterView {
            methods: self.methods.insert(
                m,
                self.routes_for(m).push((path, self.endpoints.len() as usize)),
            ),
            all: self.all,
            endpoints: self.endpoints.push(e),
        }
    }

    /// The router after registering `e` for all methods at `path`.
    pub open spec fn with_route_for_all(self, path: Seq<char>, e: EndpointView) -> RouterView {
        RouterView {
            methods: self.methods,
            all: self.all.push((path, self.endpoints.len() as usize)),
            endpoints: self.endpoints.push(e),
        }
    }
}

/// Whether `path` is, character for character, one of the patterns.
pub open spec fn has_pattern(routes: Routes, path: Seq<char>) -> bool {
    exists|i: int| 0 <= i < routes.len() && #[trigger] routes[i].0 == path
}

/// Whether `h` is the endpoint index of one of the patterns.
pub open spec fn has_id(routes: Routes, h: usize) -> bool {
    exists|i: int| 0 <= i < routes.len() && #[trigger] routes[i].1 == h
}

/// What consulting the recognizer of a pattern table about a path shows of
/// `recognized`: a match leads to an endpoint index of the table, an empty
/// table matches nothing, and an ASCII path that is one of the table's
/// patterns is matched.
pub open spec fn matching_facts(routes: Routes, path: Seq<char>) -> bool {
    &&& (recognized(routes, path) matches Some(found) ==> has_id(routes, found.0))
    &&& (routes.len() == 0 ==> recognized(routes, path) is None)
    &&& (is_ascii_text(path) && has_pattern(routes, path) ==> recognized(routes, path) is Some)
}

/// Whether a route of the method `m` itself matches the path.
pub open spec fn own_matches(r: RouterView, path: Seq<char>, m: Seq<char>) -> bool {
    r.methods.contains_key(m) && recognized(r.methods[m], path) is Some
}

/// Whether the path is, character for character, a pattern of some table.
pub open spec fn registered_somewhere(r: RouterView, path: Seq<char>) -> bool {
    has_pattern(r.all, path) || exists|k: Seq<char>|
        #[trigger] r.methods.contains_key(k) && has_pattern(r.methods[k], path)
}

/// Which endpoint a request goes to.
pub enum Target {
    /// The registered endpoint with this index.
    Endpoint(usize),
    /// No route of the request's method matches the path, but a route of
    /// another method does.
    MethodNotAllowed,
    /// No route matches the path.
    NotFound,
}

impl Target {
    /// The status of the answer where no registered endpoint answers: "not
    /// found" is answered with 404 (Not Found), and "method not allowed" with
    /// 405 (Method Not Allowed).
    pub fn fallback_status(&self) -> (status: Option<u16>)
        ensures
            match self {
                Target::Endpoint(_) => status is None,
                Target::MethodNotAllowed => status == Some(405u16),
                Target::NotFound => status == Some(404u16),
            },
    {
        match self {
            Target::Endpoint(_) => None,
            Target::MethodNotAllowed => Some(405),
            Target::NotFound => Some(404),
        }
    }
}

/// Whether some method other than `m` has a route that matches the path.
pub open spec fn other_method_matches(r: RouterView, path: Seq<char>, m: Seq<char>) -> bool {
    exists|k: Seq<char>|
        k != m && #[trigger] r.methods.contains_key(k) && recognized(r.methods[k], path) is Some
}

/// The endpoint that a request with this path and method goes to, and the
/// parameters captured from its path: a route of the method first, then a
/// route for all methods; a `HEAD` request that neither matches is routed as
/// a `GET` request; then "method not allowed" where a route of another method
/// matches, and "not found" where none does.
pub open spec fn route_spec(r: RouterView, path: Seq<char>, method: Seq<char>) -> (Target, Map<
    Seq<char>,
    Seq<char>,
>)
    decreases (if method == head_name() {
        1int
    } else {
        0int
    }),
{
    if r.methods.contains_key(method) && recognized(r.methods[method], path) is Some {
        let found = recognized(r.methods[method], path).unwrap();
        (Target::Endpoint(found.0), found.1)
    } else if recognized(r.all, path) is Some {
        let found = recognized(r.all, path).unwrap();
        (Target::Endpoint(found.0), found.1)
    } else if method == head_name() {
        proof {
            assert(get_name().len() != head_name().len());
        }
        route_spec(r, path, get_name())
    } else if other_method_matches(r, path, method) {
        (Target::MethodNotAllowed, no_params())
    } else {
        (Target::NotFound, no_params())
    }
}

/// The endpoint chosen for a request and the parameters captured from its path.
pub struct Selection {
    pub endpoint: Target,
    pub params: route_recognizer::Params,
}

struct MethodRoutes {
    method: Method,
    routes: route_recognizer::Router<usize>,
}

spec fn has_method(s: Seq<MethodRoutes>, k: Seq<char>) -> bool {
    exists|i: int| 0 <= i < s.len() && (#[trigger] s[i]).method@ == k
}

spec fn index_of(s: Seq<MethodRoutes>, k: Seq<char>) -> int {
    choose|i: int| 0 <= i < s.len() && (#[trigger] s[i]).method@ == k
}

spec fn methods_view(s: Seq<MethodRoutes>) -> Map<Seq<char>, Routes> {
    Map::new(
        |k: Seq<char>| has_method(s, k),
        |k: Seq<char>| recognizer_routes(s[index_of(s, k)].routes),
    )
}

spec fn distinct_methods(s: Seq<MethodRoutes>) -> bool {
    forall|i: int, j: int|
        0 <= i < s.len() && 0 <= j < s.len() && i != j ==> (#[trigger] s[i]).method@ != (
        #[trigger] s[j]).method@
}

proof fn lemma_index_of(s: Seq<MethodRoutes>, i: int)
    requires
        distinct_methods(s),
        0 <= i < s.len(),
    ensures
        has_method(s, s[i].method@),
        index_of(s, s[i].method@) == i,
        methods_view(s).contains_key(s[i].method@),
        methods_view(s)[s[i].method@] == recognizer_routes(s[i].routes),
{
    let k = s[i].method@;
    assert(has_method(s, k));
    let j = index_of(s, k);
    assert(s[j].method@ == k);
}

proof fn lemma_update(s: Seq<MethodRoutes>, t: Seq<MethodRoutes>, i: int)
    requires
        distinct_methods(s),
        0 <= i < s.len(),
        t.len() == s.len(),
        t[i].method@ == s[i].method@,
        forall|j: int| 0 <= j < s.len() && j != i ==> t[j] == s[j],
    ensures
        distinct_methods(t),
        methods_view(t) =~= methods_view(s).insert(s[i].method@, recognizer_routes(t[i].routes)),
{
    assert forall|a: int, b: int|
        0 <= a < t.len() && 0 <= b < t.len() && a != b implies (#[trigger] t[a]).method@ != (
        #[trigger] t[b]).method@ by {
        assert(s[a].method@ == t[a].method@);
        assert(s[b].method@ == t[b].method@);
    }
    lemma_index_of(t, i);
    assert forall|k: Seq<char>| #[trigger] has_method(t, k) == has_method(s, k) by {
        if has_method(t, k) {
            let j = index_of(t, k);
            assert(s[j].method@ == k);
        }
        if has_method(s, k) {
            let j = index_of(s, k);
            assert(t[j].method@ == k);
        }
    }
    assert forall|k: Seq<char>| has_method(t, k) && k != s[i].method@ implies methods_view(t)[k]
        == methods_view(s)[k] by {
        let j = index_of(s, k);
        lemma_index_of(s, j);
        lemma_index_of(t, j);
    }
}

proof fn lemma_push(s: Seq<MethodRoutes>, e: MethodRoutes)
    requires
        distinct_methods(s),
        !has_method(s, e.method@),
    ensures
        distinct_methods(s.push(e)),
        methods_view(s.push(e)) =~= methods_view(s).insert(e.method@, recognizer_routes(e.routes)),
{
    let t = s.push(e);
    assert forall|a: int, b: int|
        0 <= a < t.len() && 0 <= b < t.len() && a != b implies (#[trigger] t[a]).method@ != (
        #[trigger] t[b]).method@ by {
        if a == s.len() {
            assert(s[b] == t[b]);
        } else if b == s.len() {
            assert(s[a] == t[a]);
        } else {
            assert(s[a] == t[a] && s[b] == t[b]);
        }
    }
    lemma_index_of(t, s.len() as int);
    assert forall|k: Seq<char>| #[trigger] has_method(t, k) == (has_method(s, k) || k == e.method@) by {
        if has_method(s, k) {
            let j = index_of(s, k);
            assert(t[j] == s[j]);
        }
        if has_method(t, k) && k != e.method@ {
            let j = index_of(t, k);
            assert(j != s.len());
            assert(s[j] == t[j]);
        }
    }
    assert forall|k: Seq<char>| has_method(s, k) && k != e.method@ implies methods_view(t)[k]
        == methods_view(s)[k] by {
        let j = index_of(s, k);
        lemma_index_of(s, j);
        assert(t[j] == s[j]);
        lemma_index_of(t, j);
    }
}

/// The routing table.
pub struct Router {
    method_map: Vec<MethodRoutes>,
    all_method_router: route_recognizer::Router<usize>,
    endpoints: Vec<RegisteredEndpoint>,
}

impl View for Router {
    type V = RouterView;

    closed spec fn view(&self) -> RouterView {
        RouterView {
            methods: methods_view(self.method_map@),
            all: recognizer_routes(self.all_method_router),
            endpoints: self.endpoints@.map_values(|e: RegisteredEndpoint| e@),
        }
    }
}

impl Router {
    /// A router keeps one pattern table per method, and every pattern leads
    /// to a registered endpoint.
    #[verifier::type_invariant]
    spec fn inv(&self) -> bool {
        &&& distinct_methods(self.method_map@)
        &&& self@.wf()
    }

    /// A router with no route.
    pub fn new() -> (r: Router)
        ensures
            r@ == RouterView::empty(),
            r@.wf(),
    {
        let r = Router {
            method_map: Vec::new(),
            all_method_router: recognizer_new(),
            endpoints: Vec::new(),
        };
        assert(r@.methods =~= Map::<Seq<char>, Routes>::empty());
        assert(r@.endpoints =~= Seq::<EndpointView>::empty());
        r
    }

    /// Registers `ep` for requests with method `method` at `path`.
    pub fn add(&mut self, path: &str, method: Method, ep: RegisteredEndpoint)
        requires
            recognizable_pattern(path@),
        ensures
            final(self)@ == old(self)@.with_route(method@, path@, ep@),
            final(self)@.wf(),
    {
        proof {
            use_type_invariant(&*self);
        }
        let ghost old_view = self@;
        let mut taken = Router::new();
        std::mem::swap(self, &mut taken);
        let Router { mut method_map, all_method_router, mut endpoints } = taken;
        let ghost s = method_map@;
        let id = endpoints.len();
        endpoints.push(ep);
        let ghost new_endpoints = endpoints@.map_values(|e: RegisteredEndpoint| e@);
        assert(new_endpoints =~= old_view.endpoints.push(ep@));
        match method_index(&method_map, &method) {
            Some(i) => {
                proof {
                    lemma_index_of(s, i as int);
                }
                let mut entry = method_map.remove(i);
                recognizer_add(&mut entry.routes, path, id);
                method_map.insert(i, entry);
                proof {
                    lemma_update(s, method_map@, i as int);
                }
            },
            None => {
                let mut routes = recognizer_new();
                recognizer_add(&mut routes, path, id);
                let entry = MethodRoutes { method, routes };
                proof {
                    assert(recognizer_routes(entry.routes) =~= Seq::<(Seq<char>, usize)>::empty().push(
                        (path@, id),
                    ));
                    lemma_push(s, entry);
                }
                method_map.push(entry);
            },
        }
        let ghost new_methods = methods_view(method_map@);
        assert(new_methods =~= old_view.with_route(method@, path@, ep@).methods);
        assert forall|m: Seq<char>| #[trigger] new_methods.contains_key(m) implies ids_below(
            new_methods[m],
            new_endpoints.len(),
        ) by {
            if m != method@ {
                assert(old_view.methods.contains_key(m));
            } else {
                let rs = new_methods[m];
                assert forall|k: int| 0 <= k < rs.len() implies (#[trigger] rs[k]).1
                    < new_endpoints.len() by {
                    if k < rs.len() - 1 {
                        assert(old_view.methods.contains_key(m));
                        assert(rs[k] == old_view.methods[m][k]);
                    }
                }
            }
        }
        assert(ids_below(old_view.all, new_endpoints.len()));
        *self = Router { method_map, all_method_router, endpoints };
    }

    /// Registers `ep` for requests with any method at `path`.
    pub fn add_all(&mut self, path: &str, ep: RegisteredEndpoint)
        requires
            recognizable_pattern(path@),
        ensures
            final(self)@ == old(self)@.with_route_for_all(path@, ep@),
            final(self)@.wf(),
    {
        proof {
            use_type_invariant(&*self);
        }
        let ghost old_view = self@;
        let mut taken = Router::new();
        std::mem::swap(self, &mut taken);
        let Router { method_map, mut all_method_router, mut endpoints } = taken;
        let id = endpoints.len();
        endpoints.push(ep);
        recognizer_add(&mut all_method_router, path, id);
        let ghost new_endpoints = endpoints@.map_values(|e: RegisteredEndpoint| e@);
        assert(new_endpoints =~= old_view.endpoints.push(ep@));
        assert forall|m: Seq<char>| #[trigger] old_view.methods.contains_key(m) implies ids_below(
            old_view.methods[m],
            new_endpoints.len(),
        ) by {
            assert(ids_below(old_view.methods[m], old_view.endpoints.len()));
        }
        let ghost new_all = recognizer_routes(all_method_router);
        assert forall|k: int| 0 <= k < new_all.len() implies (#[trigger] new_all[k]).1
            < new_endpoints.len() by {
            if k < new_all.len() - 1 {
                assert(new_all[k] == old_view.all[k]);
            }
        }
        proof {
            let rebuilt = Router { method_map, all_method_router, endpoints };
            assert(rebuilt@.methods == old_view.methods);
            assert(rebuilt@.endpoints.len() == new_endpoints.len());
        }
        *self = Router { method_map, all_method_router, endpoints };
        assert(self@ =~= old_view.with_route_for_all(path@, ep@));
    }
}

/// The position of the method's pattern table, if it has one.
fn method_index(method_map: &Vec<MethodRoutes>, method: &Method) -> (res: Option<usize>)
    requires
        distinct_methods(method_map@),
    ensures
        res is Some <==> has_method(method_map@, method@),
        res matches Some(i) ==> i < method_map@.len() && method_map@[i as int].method@ == method@,
{
    let n = method_map.len();
    let mut i: usize = 0;
    while i < n
        invariant
            n == method_map@.len(),
            i <= n,
            forall|j: int| 0 <= j < i ==> (#[trigger] method_map@[j]).method@ != method@,
        decreases n - i,
    {
        if method_map[i].method.same(method) {
            return Some(i);
        }
        i = i + 1;
    }
    None
}

impl Router {
    /// Whether a route of some method other than `method` matches the path.
    fn matched_by_other_method(&self, path: &str, method: &Method) -> (b: bool)
        requires
            nul_free(path@),
        ensures
            b == other_method_matches(self@, path@, method@),
            is_ascii_text(path@) && (exists|k: Seq<char>|
                k != method@ && #[trigger] self@.methods.contains_key(k) && has_pattern(
                    self@.methods[k],
                    path@,
                )) ==> b,
    {
        proof {
            use_type_invariant(self);
        }
        let ghost s = self.method_map@;
        let n = self.method_map.len();
        let mut i: usize = 0;
        while i < n
            invariant
                n == s.len(),
                s == self.method_map@,
                nul_free(path@),
                distinct_methods(s),
                i <= n,
                forall|j: int|
                    0 <= j < i && (#[trigger] s[j]).method@ != method@ ==> recognized(
                        recognizer_routes(s[j].routes),
                        path@,
                    ) is None && !(is_ascii_text(path@) && has_pattern(
                        recognizer_routes(s[j].routes),
                        path@,
                    )),
            decreases n - i,
        {
            if !self.method_map[i].method.same(method) {
                let found = recognizer_recognize(&self.method_map[i].routes, path);
                if found.is_some() {
                    proof {
                        lemma_index_of(s, i as int);
                        let k = s[i as int].method@;
                        assert(self@.methods.contains_key(k));
                    }
                    return true;
                }
            }
            i = i + 1;
        }
        proof {
            assert forall|k: Seq<char>|
                k != method@ && #[trigger] self@.methods.contains_key(k) implies recognized(
                self@.methods[k],
                path@,
            ) is None && !(is_ascii_text(path@) && has_pattern(self@.methods[k], path@)) by {
                let j = index_of(s, k);
                lemma_index_of(s, j);
            }
        }
        false
    }

    /// The endpoint that answers a request with this path and method, and the
    /// parameters captured from the path (`route_spec`). An endpoint that it
    /// chooses is one that was registered. What it learns from the pattern
    /// tables it consults (`matching_facts`) is passed on: the method's own
    /// table, the table for all methods where the own one does not match, and
    /// the `GET` table for a `HEAD` request that neither matches. A path that
    /// is, as ASCII text, a registered pattern is never answered "not found".
    pub fn route(&self, path: &str, method: &Method) -> (s: Selection)
        requires
            nul_free(path@),
        ensures
            (s.endpoint, params_map(s.params)) == route_spec(self@, path@, method@),
            s.endpoint matches Target::Endpoint(i) ==> i < self@.endpoints.len(),
            is_ascii_text(path@) && has_pattern(self@.routes_for(method@), path@) ==> s.endpoint is Endpoint,
            is_ascii_text(path@) && has_pattern(self@.all, path@) ==> s.endpoint is Endpoint,
            is_ascii_text(path@) && method@ == head_name() && has_pattern(self@.routes_for(get_name()), path@)
                ==> s.endpoint is Endpoint,
            self@.methods.contains_key(method@) ==> matching_facts(self@.methods[method@], path@),
            !own_matches(self@, path@, method@) ==> matching_facts(self@.all, path@),
            method@ == head_name() && !own_matches(self@, path@, method@) && recognized(self@.all, path@) is None
                && self@.methods.contains_key(get_name()) ==> matching_facts(self@.methods[get_name()], path@),
            is_ascii_text(path@) && registered_somewhere(self@, path@) ==> !(s.endpoint is NotFound),
        decreases (if method@ == head_name() {
            1int
        } else {
            0int
        }),
    {
        proof {
            use_type_invariant(self);
        }
        let ghost v = self@;
        proof {
            if has_pattern(v.routes_for(method@), path@) {
                assert(v.methods.contains_key(method@));
            }
        }
        if let Some(i) = method_index(&self.method_map, method) {
            proof {
                lemma_index_of(self.method_map@, i as int);
            }
            if let Some((h, p)) = recognizer_recognize(&self.method_map[i].routes, path) {
                proof {
                    let rs = v.methods[method@];
                    let k = choose|k: int| 0 <= k < rs.len() && #[trigger] rs[k].1 == h;
                    assert(ids_below(rs, v.endpoints.len()));
                    assert(rs[k].1 < v.endpoints.len());
                }
                return Selection { endpoint: Target::Endpoint(h), params: p };
            }
        }
        if let Some((h, p)) = recognizer_recognize(&self.all_method_router, path) {
            proof {
                let k = choose|k: int| 0 <= k < v.all.len() && #[trigger] v.all[k].1 == h;
                assert(v.all[k].1 < v.endpoints.len());
            }
            return Selection { endpoint: Target::Endpoint(h), params: p };
        }
        let head = Method::head();
        if method.same(&head) {
            let get = Method::get();
            proof {
                assert(get_name().len() != head_name().len());
            }
            return self.route(path, &get);
        }
        if self.matched_by_other_method(path, method) {
            Selection { endpoint: Target::MethodNotAllowed, params: params_new() }
        } else {
            Selection { endpoint: Target::NotFound, params: params_new() }
        }
    }

    /// The number of registered endpoints.
    pub fn endpoint_count(&self) -> (n: usize)
        ensures
            n == self@.endpoints.len(),
    {
        self.endpoints.len()
    }

    /// The registered endpoint with this index.
    pub fn endpoint(&self, i: usize) -> (e: &RegisteredEndpoint)
        requires
            i < self@.endpoints.len(),
        ensures
            e@ == self@.endpoints[i as int],
    {
        &self.endpoints[i]
    }
}

/// A `HEAD` request that neither a `HEAD` route nor a route for all methods
/// matches is routed exactly as a `GET` request with the same path.
pub proof fn law_head_routed_as_get(r: RouterView, path: Seq<char>)
    requires
        !(r.methods.contains_key(head_name()) && recognized(r.methods[head_name()], path) is Some),
        recognized(r.all, path) is None,
    ensures
        route_spec(r, path, head_name()) == route_spec(r, path, get_name()),
{
}

/// "Not found" is answered only where no route at all matches the path.
pub proof fn law_not_found_only_without_match(r: RouterView, path: Seq<char>, m: Seq<char>)
    requires
        route_spec(r, path, m).0 is NotFound,
    ensures
        recognized(r.all, path) is None,
        forall|k: Seq<char>| #[trigger] r.methods.contains_key(k) ==> recognized(r.methods[k], path) is None,
    decreases (if m == head_name() {
        1int
    } else {
        0int
    }),
{
    if m == head_name() && !(r.methods.contains_key(m) && recognized(r.methods[m], path) is Some)
        && recognized(r.all, path) is None {
        assert(get_name().len() != head_name().len());
        law_not_found_only_without_match(r, path, get_name());
    } else {
        assert forall|k: Seq<char>| #[trigger] r.methods.contains_key(k) implies recognized(
            r.methods[k],
            path,
        ) is None by {
            if k != m {
                assert(!other_method_matches(r, path, m));
            }
        }
    }
}

/// "Method not allowed" is answered only where a route of another method
/// matches the path and no route of the request's method, nor one for all
/// methods, does.
pub proof fn law_method_not_allowed_only_with_other_match(r: RouterView, path: Seq<char>, m: Seq<char>)
    requires
        route_spec(r, path, m).0 is MethodNotAllowed,
    ensures
        recognized(r.all, path) is None,
        !(r.methods.contains_key(m) && recognized(r.methods[m], path) is Some),
        exists|k: Seq<char>|
            k != m && #[trigger] r.methods.contains_key(k) && recognized(r.methods[k], path) is Some,
{
    if m == head_name() && !(r.methods.contains_key(m) && recognized(r.methods[m], path) is Some)
        && recognized(r.all, path) is None {
        assert(get_name().len() != head_name().len());
        assert(route_spec(r, path, m) == route_spec(r, path, get_name()));
        assert(other_method_matches(r, path, get_name()));
        let k = choose|k: Seq<char>|
            k != get_name() && #[trigger] r.methods.contains_key(k) && recognized(r.methods[k], path) is Some;
        assert(k != m);
    }
}

/// Registering an endpoint for method `m` changes nothing for a request of
/// another method `k` that a route of `k`, or a route for all methods,
/// already answers.
pub proof fn law_registration_keeps_other_methods(
    r: RouterView,
    m: Seq<char>,
    p: Seq<char>,
    e: EndpointView,
    path: Seq<char>,
    k: Seq<char>,
)
    requires
        k != m,
        (r.methods.contains_key(k) && recognized(r.methods[k], path) is Some) || recognized(r.all, path) is Some,
    ensures
        route_spec(r.with_route(m, p, e), path, k) == route_spec(r, path, k),
{
    let r2 = r.with_route(m, p, e);
    assert(r2.methods.contains_key(k) == r.methods.contains_key(k));
    if r.methods.contains_key(k) {
        assert(r2.methods[k] == r.methods[k]);
    }
}

/// Registering an endpoint for a method at a path puts the path among the
/// method's patterns, after the patterns it had, leading to the new
/// endpoint; it keeps the earlier endpoints at their indices, and leaves the
/// patterns of every other method and those for all methods as they were.
pub proof fn law_registration_appends(r: RouterView, m: Seq<char>, p: Seq<char>, e: EndpointView)
    ensures
        r.with_route(m, p, e).endpoints.len() == r.endpoints.len() + 1,
        r.with_route(m, p, e).endpoints.last() == e,
        forall|i: int| 0 <= i < r.endpoints.len() ==> #[trigger] r.with_route(m, p, e).endpoints[i] == r.endpoints[i],
        r.with_route(m, p, e).routes_for(m).last() == (p, r.endpoints.len() as usize),
        has_pattern(r.with_route(m, p, e).routes_for(m), p),
        r.with_route(m, p, e).routes_for(m).len() == r.routes_for(m).len() + 1,
        forall|i: int| 0 <= i < r.routes_for(m).len() ==> #[trigger] r.with_route(m, p, e).routes_for(m)[i]
            == r.routes_for(m)[i],
        r.with_route(m, p, e).all == r.all,
        forall|k: Seq<char>| k != m ==> #[trigger] r.with_route(m, p, e).routes_for(k) == r.routes_for(k),
        forall|k: Seq<char>| k != m ==> (#[trigger] r.with_route(m, p, e).methods.contains_key(k)
            <==> r.methods.contains_key(k)),
        r.with_route(m, p, e).methods.contains_key(m),
{
    let rs = r.with_route(m, p, e).routes_for(m);
    assert(rs[rs.len() - 1].0 == p);
}

/// Registering an endpoint for all methods at a path puts the path among the
/// patterns for all methods, after the patterns that were there, leading to
/// the new endpoint; it keeps the earlier endpoints at their indices and the
/// patterns of each method as they were.
pub proof fn law_registration_for_all_appends(r: RouterView, p: Seq<char>, e: EndpointView)
    ensures
        r.with_route_for_all(p, e).endpoints.len() == r.endpoints.len() + 1,
        r.with_route_for_all(p, e).endpoints.last() == e,
        forall|i: int| 0 <= i < r.endpoints.len() ==> #[trigger] r.with_route_for_all(p, e).endpoints[i] == r.endpoints[i],
        r.with_route_for_all(p, e).all.last() == (p, r.endpoints.len() as usize),
        r.with_route_for_all(p, e).all.len() == r.all.len() + 1,
        forall|i: int| 0 <= i < r.all.len() ==> #[trigger] r.with_route_for_all(p, e).all[i] == r.all[i],
        has_pattern(r.with_route_for_all(p, e).all, p),
        r.with_route_for_all(p, e).methods == r.methods,
{
    let rs = r.with_route_for_all(p, e).all;
    assert(rs[rs.len() - 1].0 == p);
}

/// A request is given an endpoint only by a table that matches its path: the
/// table of its own method, else the table for all methods, else, for a
/// `HEAD` request only, the table of `GET`; the endpoint is the one that
/// table's match leads to, with the parameters it captured. Any other request
/// that none of these tables matches is answered "method not allowed" or
/// "not found", with no parameters.
pub proof fn law_endpoint_only_from_matching_table(r: RouterView, path: Seq<char>, m: Seq<char>)
    ensures
        route_spec(r, path, m).0 matches Target::Endpoint(h) ==> {
            ||| (r.methods.contains_key(m) && recognized(r.methods[m], path) == Some((h, route_spec(r, path, m).1)))
            ||| (!(r.methods.contains_key(m) && recognized(r.methods[m], path) is Some)
                && recognized(r.all, path) == Some((h, route_spec(r, path, m).1)))
            ||| (m == head_name() && !(r.methods.contains_key(m) && recognized(r.methods[m], path) is Some)
                && recognized(r.all, path) is None && r.methods.contains_key(get_name())
                && recognized(r.methods[get_name()], path) == Some((h, route_spec(r, path, m).1)))
        },
        m != head_name() && !(r.methods.contains_key(m) && recognized(r.methods[m], path) is Some)
            && recognized(r.all, path) is None ==> !(route_spec(r, path, m).0 is Endpoint)
            && route_spec(r, path, m).1 == Map::<Seq<char>, Seq<char>>::empty(),
        !(route_spec(r, path, m).0 is Endpoint) ==> route_spec(r, path, m).1 == Map::<Seq<char>, Seq<char>>::empty(),
{
    if m == head_name() && !(r.methods.contains_key(m) && recognized(r.methods[m], path) is Some)
        && recognized(r.all, path) is None {
        assert(get_name().len() != head_name().len());
        reveal_with_fuel(route_spec, 2);
    }
}

/// A request of a method other than `HEAD` that neither a route of its own
/// method nor a route for all methods matches is answered "method not
/// allowed" exactly when a route of another method matches its path, and
/// "not found" otherwise.
pub proof fn law_unanswered_request_status(r: RouterView, path: Seq<char>, m: Seq<char>)
    requires
        m != head_name(),
        !(r.methods.contains_key(m) && recognized(r.methods[m], path) is Some),
        recognized(r.all, path) is None,
    ensures
        (exists|k: Seq<char>| k != m && #[trigger] r.methods.contains_key(k) && recognized(r.methods[k], path) is Some)
            ==> route_spec(r, path, m).0 is MethodNotAllowed,
        !(exists|k: Seq<char>| k != m && #[trigger] r.methods.contains_key(k) && recognized(r.methods[k], path) is Some)
            ==> route_spec(r, path, m).0 is NotFound,
{
}

} // verus!
