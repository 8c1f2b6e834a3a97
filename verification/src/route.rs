//! Building routes: a route is a path, the middleware that its endpoints get,
//! and whether it mounts a nested service; endpoints are registered in the
//! router through it.
use vstd::prelude::*;
use std::sync::Arc;
use crate::recognizer::{params_find, params_map, recognizable_pattern};
use crate::path::{REST_PARAM, REST_PATTERN, joined, join, lemma_rest_pattern_recognizable};
use crate::method::Method;
use crate::router::{Router, RegisteredEndpoint, EndpointKind, EndpointView};

verus! {

/// An endpoint of a nested service: it is called with the request's path
/// replaced by the part that the service's mount point left over.
pub struct StripPrefixEndpoint<E>(Arc<E>);

/// `Arc::clone`: another pointer to the same value.
#[verifier::external_body]
fn arc_clone<E>(a: &Arc<E>) -> (r: Arc<E>)
    ensures
        r == *a,
{
    a.clone()
}

/// The rest of the path that the last level of routing captured under
/// `REST_PARAM`, or the empty path where it captured none.
pub open spec fn rest_of(route_params: Seq<route_recognizer::Params>) -> Seq<char> {
    if route_params.len() > 0 && params_map(route_params.last()).contains_key(REST_PARAM@) {
        params_map(route_params.last())[REST_PARAM@]
    } else {
        Seq::empty()
    }
}

impl<E> Clone for StripPrefixEndpoint<E> {
    /// Another handle on the same endpoint.
    fn clone(&self) -> (s: Self)
        ensures
            s.inner() == self.inner(),
    {
        Self(arc_clone(&self.0))
    }
}

impl<E> StripPrefixEndpoint<E> {
    /// The endpoint behind the prefix stripping.
    pub closed spec fn inner(&self) -> E {
        *self.0
    }

    pub fn new(ep: E) -> (s: Self)
        ensures
            s.inner() == ep,
    {
        Self(Arc::new(ep))
    }

    /// The endpoint behind the prefix stripping.
    pub fn endpoint(&self) -> (e: &E)
        ensures
            *e == self.inner(),
    {
        &*self.0
    }

    /// The path that the endpoint is called with: "/" followed by the rest
    /// of the path captured by the last level of routing.
    pub fn stripped_path(route_params: &Vec<route_recognizer::Params>) -> (p: String)
        ensures
            p@ == seq!['/'] + rest_of(route_params@),
    {
        proof {
            reveal_strlit("/");
        }
        let mut p = String::from_str("/");
        let n = route_params.len();
        if n > 0 {
            let found = params_find(&route_params[n - 1], REST_PARAM);
            if let Some(rest) = found {
                p.append(rest);
            }
        }
        proof {
            assert(p@ =~= seq!['/'] + rest_of(route_params@));
        }
        p
    }
}

/// A route being built: its path, the middleware ids that endpoints
/// registered through it run after, and whether it mounts a nested service
/// (whose endpoints then see the request path with the route's path
/// stripped).
pub struct Route<'a> {
    pub router: &'a mut Router,
    pub path: String,
    pub middleware: Vec<usize>,
    pub prefix: bool,
}

/// The endpoint `ep` registered through a route with these middleware ids.
pub open spec fn plain(ep: usize, middleware: Seq<usize>) -> EndpointView {
    EndpointView { endpoint: ep, strip_prefix: false, middleware }
}

/// The endpoint `ep` registered through a route that mounts a nested
/// service, with these middleware ids.
pub open spec fn stripped(ep: usize, middleware: Seq<usize>) -> EndpointView {
    EndpointView { endpoint: ep, strip_prefix: true, middleware }
}

fn copy_ids(v: &Vec<usize>) -> (c: Vec<usize>)
    ensures
        c@ == v@,
{
    let c = v.clone();
    assert(c@ =~= v@);
    c
}

impl<'a> Route<'a> {
    /// The value of the router the route registers in, as it is now.
    pub open spec fn table(&self) -> crate::router::RouterView {
        self.router@
    }

    /// The router after registering `ep` for method `m` through this route.
    pub open spec fn with_method_route(&self, m: Seq<char>, ep: usize) -> crate::router::RouterView {
        if self.prefix {
            self.router@.with_route(m, self.path@, stripped(ep, self.middleware@)).with_route(
                m,
                joined(self.path@, REST_PATTERN@),
                stripped(ep, self.middleware@),
            )
        } else {
            self.router@.with_route(m, self.path@, plain(ep, self.middleware@))
        }
    }

    /// The router after registering `ep` for all methods through this route.
    pub open spec fn with_all_route(&self, ep: usize) -> crate::router::RouterView {
        if self.prefix {
            self.router@.with_route_for_all(self.path@, stripped(ep, self.middleware@)).with_route_for_all(
                joined(self.path@, REST_PATTERN@),
                stripped(ep, self.middleware@),
            )
        } else {
            self.router@.with_route_for_all(self.path@, plain(ep, self.middleware@))
        }
    }

    pub(crate) fn new(router: &'a mut Router, path: String) -> (r: Route<'a>)
        ensures
            *r.router == *old(router),
            *final(r.router) == *final(router),
            r.path@ == path@,
            r.middleware@ == Seq::<usize>::empty(),
            !r.prefix,
    {
        Route { router, path, middleware: Vec::new(), prefix: false }
    }

    /// Registers `ep` for requests with this method at the route's path,
    /// after the route's middleware. On a route that mounts a nested service
    /// the endpoint sees the request path with the route's path stripped, and
    /// it is registered a second time, at the route's path followed by a
    /// wildcard that captures the rest of the path.
    pub fn method(&mut self, method: Method, ep: usize) -> (r: &mut Self)
        requires
            recognizable_pattern(old(self).path@),
        ensures
            r.router@ == old(self).with_method_route(method@, ep),
            r.path@ == old(self).path@,
            r.middleware@ == old(self).middleware@,
            r.prefix == old(self).prefix,
            *final(r.router) == *final(old(self).router),
            *final(self) == *final(r),
    {
        if self.prefix {
            let ep = StripPrefixEndpoint::new(ep);
            let mw = copy_ids(&self.middleware);
            self.router.add(
                &self.path,
                method.duplicate(),
                RegisteredEndpoint { endpoint: EndpointKind::StripPrefix(ep.clone()), middleware: mw },
            );
            proof {
                lemma_rest_pattern_recognizable(self.path@);
            }
            let wildcard = self.at(REST_PATTERN);
            let wmw = copy_ids(&wildcard.middleware);
            wildcard.router.add(
                &wildcard.path,
                method,
                RegisteredEndpoint { endpoint: EndpointKind::StripPrefix(ep), middleware: wmw },
            );
        } else {
            let mw = copy_ids(&self.middleware);
            self.router.add(
                &self.path,
                method,
                RegisteredEndpoint { endpoint: EndpointKind::Plain(ep), middleware: mw },
            );
        }
        self
    }

    /// The route at `path` below this one, with the same middleware; it does
    /// not mount a nested service.
    pub fn at<'b>(&'b mut self, path: &str) -> (r: Route<'b>)
        ensures
            r.path@ == joined(old(self).path@, path@),
            r.middleware@ == old(self).middleware@,
            !r.prefix,
            *r.router == *old(self).router,
            *final(self).router == *final(r.router),
            *final(final(self).router) == *final(old(self).router),
            final(self).path@ == old(self).path@,
            final(self).middleware@ == old(self).middleware@,
            final(self).prefix == old(self).prefix,
    {
        let p = join(self.path.as_str(), path);
        let middleware = copy_ids(&self.middleware);
        Route { router: &mut *self.router, path: p, middleware, prefix: false }
    }
}

impl<'a> Route<'a> {
    /// Registers `ep` for `GET` requests (see `method`).
    pub fn get(&mut self, ep: usize) -> (r: &mut Self)
        requires
            recognizable_pattern(old(self).path@),
        ensures
            r.router@ == old(self).with_method_route(seq!['G', 'E', 'T'], ep),
            r.path@ == old(self).path@,
            r.middleware@ == old(self).middleware@,
            r.prefix == old(self).prefix,
            *final(r.router) == *final(old(self).router),
            *final(self) == *final(r),
    {
        self.method(Method::get(), ep);
        self
    }

    /// Registers `ep` for `HEAD` requests (see `method`).
    pub fn head(&mut self, ep: usize) -> (r: &mut Self)
        requires
            recognizable_pattern(old(self).path@),
        ensures
            r.router@ == old(self).with_method_route(seq!['H', 'E', 'A', 'D'], ep),
            r.path@ == old(self).path@,
            r.middleware@ == old(self).middleware@,
            r.prefix == old(self).prefix,
            *final(r.router) == *final(old(self).router),
            *final(self) == *final(r),
    {
        self.method(Method::head(), ep);
        self
    }

    /// Registers `ep` for `PUT` requests (see `method`).
    pub fn put(&mut self, ep: usize) -> (r: &mut Self)
        requires
            recognizable_pattern(old(self).path@),
        ensures
            r.router@ == old(self).with_method_route(seq!['P', 'U', 'T'], ep),
            r.path@ == old(self).path@,
            r.middleware@ == old(self).middleware@,
            r.prefix == old(self).prefix,
            *final(r.router) == *final(old(self).router),
            *final(self) == *final(r),
    {
        self.method(Method::put(), ep);
        self
    }

    /// Registers `ep` for `POST` requests (see `method`).
    pub fn post(&mut self, ep: usize) -> (r: &mut Self)
        requires
            recognizable_pattern(old(self).path@),
        ensures
            r.router@ == old(self).with_method_route(seq!['P', 'O', 'S', 'T'], ep),
            r.path@ == old(self).path@,
            r.middleware@ == old(self).middleware@,
            r.prefix == old(self).prefix,
            *final(r.router) == *final(old(self).router),
            *final(self) == *final(r),
    {
        self.method(Method::post(), ep);
        self
    }

    /// Registers `ep` for `DELETE` requests (see `method`).
    pub fn delete(&mut self, ep: usize) -> (r: &mut Self)
        requires
            recognizable_pattern(old(self).path@),
        ensures
            r.router@ == old(self).with_method_route(seq!['D', 'E', 'L', 'E', 'T', 'E'], ep),
            r.path@ == old(self).path@,
            r.middleware@ == old(self).middleware@,
            r.prefix == old(self).prefix,
            *final(r.router) == *final(old(self).router),
            *final(self) == *final(r),
    {
        self.method(Method::delete(), ep);
        self
    }

    /// Registers `ep` for `OPTIONS` requests (see `method`).
    pub fn options(&mut self, ep: usize) -> (r: &mut Self)
        requires
            recognizable_pattern(old(self).path@),
        ensures
            r.router@ == old(self).with_method_route(seq!['O', 'P', 'T', 'I', 'O', 'N', 'S'], ep),
            r.path@ == old(self).path@,
            r.middleware@ == old(self).middleware@,
            r.prefix == old(self).prefix,
            *final(r.router) == *final(old(self).router),
            *final(self) == *final(r),
    {
        self.method(Method::options(), ep);
        self
    }

    /// Registers `ep` for `CONNECT` requests (see `method`).
    pub fn connect(&mut self, ep: usize) -> (r: &mut Self)
        requires
            recognizable_pattern(old(self).path@),
        ensures
            r.router@ == old(self).with_method_route(seq!['C', 'O', 'N', 'N', 'E', 'C', 'T'], ep),
            r.path@ == old(self).path@,
            r.middleware@ == old(self).middleware@,
            r.prefix == old(self).prefix,
            *final(r.router) == *final(old(self).router),
            *final(self) == *final(r),
    {
        self.method(Method::connect(), ep);
        self
    }

    /// Registers `ep` for `PATCH` requests (see `method`).
    pub fn patch(&mut self, ep: usize) -> (r: &mut Self)
        requires
            recognizable_pattern(old(self).path@),
        ensures
            r.router@ == old(self).with_method_route(seq!['P', 'A', 'T', 'C', 'H'], ep),
            r.path@ == old(self).path@,
            r.middleware@ == old(self).middleware@,
            r.prefix == old(self).prefix,
            *final(r.router) == *final(old(self).router),
            *final(self) == *final(r),
    {
        self.method(Method::patch(), ep);
        self
    }

    /// Registers `ep` for `TRACE` requests (see `method`).
    pub fn trace(&mut self, ep: usize) -> (r: &mut Self)
        requires
            recognizable_pattern(old(self).path@),
        ensures
            r.router@ == old(self).with_method_route(seq!['T', 'R', 'A', 'C', 'E'], ep),
            r.path@ == old(self).path@,
            r.middleware@ == old(self).middleware@,
            r.prefix == old(self).prefix,
            *final(r.router) == *final(old(self).router),
            *final(self) == *final(r),
    {
        self.method(Method::trace(), ep);
        self
    }

    /// Adds the middleware with id `middleware` to the route: endpoints
    /// registered through it afterwards run it after the route's earlier
    /// middleware.
    pub fn with(&mut self, middleware: usize) -> (r: &mut Self)
        ensures
            r.middleware@ == old(self).middleware@.push(middleware),
            *r.router == *old(self).router,
            r.path@ == old(self).path@,
            r.prefix == old(self).prefix,
            *final(r.router) == *final(old(self).router),
            *final(self) == *final(r),
    {
        self.middleware.push(middleware);
        self
    }

    /// Removes all middleware from the route.
    pub fn reset_middleware(&mut self) -> (r: &mut Self)
        ensures
            r.middleware@ == Seq::<usize>::empty(),
            *r.router == *old(self).router,
            r.path@ == old(self).path@,
            r.prefix == old(self).prefix,
            *final(r.router) == *final(old(self).router),
            *final(self) == *final(r),
    {
        self.middleware.clear();
        self
    }

    /// Registers `ep` for requests with any method at the route's path, as
    /// `method` does for one method.
    pub fn all(&mut self, ep: usize) -> (r: &mut Self)
        requires
            recognizable_pattern(old(self).path@),
        ensures
            r.router@ == old(self).with_all_route(ep),
            r.path@ == old(self).path@,
            r.middleware@ == old(self).middleware@,
            r.prefix == old(self).prefix,
            *final(r.router) == *final(old(self).router),
            *final(self) == *final(r),
    {
        if self.prefix {
            let ep = StripPrefixEndpoint::new(ep);
            let mw = copy_ids(&self.middleware);
            self.router.add_all(
                &self.path,
                RegisteredEndpoint { endpoint: EndpointKind::StripPrefix(ep.clone()), middleware: mw },
            );
            proof {
                lemma_rest_pattern_recognizable(self.path@);
            }
            let wildcard = self.at(REST_PATTERN);
            let wmw = copy_ids(&wildcard.middleware);
            wildcard.router.add_all(
                &wildcard.path,
                RegisteredEndpoint { endpoint: EndpointKind::StripPrefix(ep), middleware: wmw },
            );
        } else {
            let mw = copy_ids(&self.middleware);
            self.router.add_all(
                &self.path,
                RegisteredEndpoint { endpoint: EndpointKind::Plain(ep), middleware: mw },
            );
        }
        self
    }

    /// Mounts the nested service with endpoint id `service` at the route for
    /// all methods: it is registered as a route that mounts a nested service
    /// would register it, whatever this route is, and the route is left as it
    /// was.
    pub fn nest(&mut self, service: usize) -> (r: &mut Self)
        requires
            recognizable_pattern(old(self).path@),
        ensures
            r.router@ == (Route { prefix: true, ..*old(self) }).with_all_route(service),
            r.path@ == old(self).path@,
            r.middleware@ == old(self).middleware@,
            r.prefix == old(self).prefix,
            *final(r.router) == *final(old(self).router),
            *final(self) == *final(r),
    {
        let prefix = self.prefix;
        self.prefix = true;
        self.all(service);
        self.prefix = prefix;
        self
    }
}

/// Registering an endpoint for one method through a route changes only that
/// method's patterns: the patterns for all methods and those of every other
/// method stay as they were. Each endpoint it adds is the given one with the
/// route's middleware; it strips the request path exactly when the route
/// mounts a nested service, in which case two endpoints are added, at the
/// route's path and at the path of the rest below it; otherwise one, at the
/// route's path.
pub proof fn law_method_route_registers_one_method<'a>(rt: Route<'a>, m: Seq<char>, ep: usize)
    ensures
        rt.with_method_route(m, ep).all == rt.table().all,
        forall|k: Seq<char>| k != m ==> #[trigger] rt.with_method_route(m, ep).routes_for(k)
            == rt.table().routes_for(k),
        rt.with_method_route(m, ep).endpoints.len() == rt.table().endpoints.len() + (if rt.prefix {
            2int
        } else {
            1int
        }),
        forall|i: int| 0 <= i < rt.table().endpoints.len() ==> #[trigger] rt.with_method_route(m, ep).endpoints[i]
            == rt.table().endpoints[i],
        forall|i: int|
            rt.table().endpoints.len() <= i < rt.with_method_route(m, ep).endpoints.len() ==> {
                &&& (#[trigger] rt.with_method_route(m, ep).endpoints[i]).endpoint == ep
                &&& rt.with_method_route(m, ep).endpoints[i].strip_prefix == rt.prefix
                &&& rt.with_method_route(m, ep).endpoints[i].middleware == rt.middleware@
            },
        rt.with_method_route(m, ep).routes_for(m).len() == rt.table().routes_for(m).len() + (if rt.prefix {
            2int
        } else {
            1int
        }),
        rt.with_method_route(m, ep).routes_for(m)[rt.table().routes_for(m).len() as int] == (
            rt.path@,
            rt.table().endpoints.len() as usize,
        ),
{
    let r = rt.table();
    if rt.prefix {
        let r1 = r.with_route(m, rt.path@, stripped(ep, rt.middleware@));
        assert(r1.routes_for(m)[r.routes_for(m).len() as int] == (rt.path@, r.endpoints.len() as usize));
        assert(r1.with_route(m, joined(rt.path@, REST_PATTERN@), stripped(ep, rt.middleware@)).routes_for(m)[
            r.routes_for(m).len() as int] == r1.routes_for(m)[r.routes_for(m).len() as int]);
    }
}

/// Registering an endpoint for all methods through a route changes only the
/// patterns for all methods, which keep the earlier ones first. Each
/// endpoint it adds is the given one with the route's middleware; where the
/// route mounts a nested service, both of them, the one at the route's path
/// and the one at the path of the rest below it, strip the request path.
pub proof fn law_all_route_registers_for_all<'a>(rt: Route<'a>, ep: usize)
    ensures
        rt.with_all_route(ep).methods == rt.table().methods,
        rt.with_all_route(ep).all.len() == rt.table().all.len() + (if rt.prefix {
            2int
        } else {
            1int
        }),
        forall|i: int| 0 <= i < rt.table().all.len() ==> #[trigger] rt.with_all_route(ep).all[i]
            == rt.table().all[i],
        rt.with_all_route(ep).all[rt.table().all.len() as int] == (rt.path@, rt.table().endpoints.len() as usize),
        rt.with_all_route(ep).endpoints.len() == rt.table().endpoints.len() + (if rt.prefix {
            2int
        } else {
            1int
        }),
        forall|i: int| 0 <= i < rt.table().endpoints.len() ==> #[trigger] rt.with_all_route(ep).endpoints[i]
            == rt.table().endpoints[i],
        forall|i: int|
            rt.table().endpoints.len() <= i < rt.with_all_route(ep).endpoints.len() ==> {
                &&& (#[trigger] rt.with_all_route(ep).endpoints[i]).endpoint == ep
                &&& rt.with_all_route(ep).endpoints[i].strip_prefix == rt.prefix
                &&& rt.with_all_route(ep).endpoints[i].middleware == rt.middleware@
            },
{
}

/// The path that a nested service's endpoint is called with depends only on
/// the parameters of the last level of routing: "/" followed by the rest of
/// the path captured there, or "/" alone where none was captured.
pub proof fn law_stripped_path_from_last_level(outer: Seq<route_recognizer::Params>, last: route_recognizer::Params)
    ensures
        params_map(last).contains_key(REST_PARAM@) ==> seq!['/'] + rest_of(outer.push(last)) == seq!['/']
            + params_map(last)[REST_PARAM@],
        !params_map(last).contains_key(REST_PARAM@) ==> seq!['/'] + rest_of(outer.push(last)) == seq!['/'],
        rest_of(Seq::<route_recognizer::Params>::empty()) == Seq::<char>::empty(),
{
    assert(outer.push(last).last() == last);
    assert(seq!['/'] + Seq::<char>::empty() =~= seq!['/']);
}

} // verus!
