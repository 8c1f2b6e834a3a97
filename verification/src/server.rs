//! A server: a routing table, the state handed to its endpoints, and the
//! middleware that runs before every endpoint.
use vstd::prelude::*;
use crate::method::Method;
use crate::recognizer::params_map;
use crate::route::Route;
use crate::router::{Router, RouterView, Selection, Target, route_spec};

verus! {

/// A server, or a service nested in one. Its endpoints and middleware are
/// named by ids.
pub struct Server<State> {
    router: Router,
    state: State,
    middleware: Vec<usize>,
}

impl Server<()> {
    /// A server without state.
    pub fn new() -> (s: Self)
        ensures
            s.router_of()@ == RouterView::empty(),
            s.middleware_of() == Seq::<usize>::empty(),
    {
        Self::with_state(())
    }
}

impl Default for Server<()> {
    fn default() -> (s: Self)
        ensures
            s.router_of()@ == RouterView::empty(),
            s.middleware_of() == Seq::<usize>::empty(),
    {
        Self::new()
    }
}

impl<State> Server<State> {
    /// The server's routing table.
    pub closed spec fn router_of(&self) -> Router {
        self.router
    }

    /// The state that the server hands to its endpoints.
    pub closed spec fn state_of(&self) -> State {
        self.state
    }

    /// The ids of the middleware that runs before every endpoint, in order.
    pub closed spec fn middleware_of(&self) -> Seq<usize> {
        self.middleware@
    }

    /// A server with this state, no route and no middleware.
    pub fn with_state(state: State) -> (s: Self)
        ensures
            s.router_of()@ == RouterView::empty(),
            s.state_of() == state,
            s.middleware_of() == Seq::<usize>::empty(),
    {
        Self { router: Router::new(), middleware: Vec::new(), state }
    }

    /// Adds the middleware with id `middleware`: it runs before every
    /// endpoint, after the middleware added before it.
    pub fn with(&mut self, middleware: usize) -> (r: &mut Self)
        ensures
            r.middleware_of() == old(self).middleware_of().push(middleware),
            r.router_of() == old(self).router_of(),
            r.state_of() == old(self).state_of(),
            *final(self) == *final(r),
    {
        self.middleware.push(middleware);
        self
    }

    /// The route at `path`, with no middleware of its own; what is
    /// registered through it goes into this server's routing table.
    pub fn at<'a>(&'a mut self, path: &str) -> (r: Route<'a>)
        ensures
            r.path@ == path@,
            r.middleware@ == Seq::<usize>::empty(),
            !r.prefix,
            *r.router == old(self).router_of(),
            final(self).router_of() == *final(r.router),
            final(self).state_of() == old(self).state_of(),
            final(self).middleware_of() == old(self).middleware_of(),
    {
        Route::new(&mut self.router, String::from_str(path))
    }

    /// The server's routing table.
    pub fn router(&self) -> (r: &Router)
        ensures
            *r == self.router_of(),
    {
        &self.router
    }

    /// The state that the server hands to its endpoints.
    pub fn state(&self) -> (s: &State)
        ensures
            *s == self.state_of(),
    {
        &self.state
    }

    /// The ids of the server's middleware.
    pub fn middleware(&self) -> (m: &Vec<usize>)
        ensures
            m@ == self.middleware_of(),
    {
        &self.middleware
    }

    /// Routes a request with this path and method through the server: the
    /// parameters captured from the path are appended to those of the
    /// enclosing servers, and the endpoint chosen is returned.
    pub fn dispatch(
        &self,
        path: &str,
        method: &Method,
        route_params: &mut Vec<route_recognizer::Params>,
    ) -> (t: Target)
        requires
            crate::recognizer::nul_free(path@),
        ensures
            final(route_params)@.len() == old(route_params)@.len() + 1,
            final(route_params)@.drop_last() == old(route_params)@,
            (t, params_map(final(route_params)@.last())) == route_spec(
                self.router_of()@,
                path@,
                method@,
            ),
            t matches Target::Endpoint(i) ==> i < self.router_of()@.endpoints.len(),
    {
        let Selection { endpoint, params } = self.router.route(path, method);
        route_params.push(params);
        proof {
            assert(final(route_params)@.drop_last() =~= old(route_params)@);
        }
        endpoint
    }
}

} // verus!
