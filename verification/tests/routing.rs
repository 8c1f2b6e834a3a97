use hyper_tide::method::Method;
use hyper_tide::middleware::{Next, Step};
use hyper_tide::path::{is_recognizable, REST_PARAM, REST_PATTERN};
use hyper_tide::route::StripPrefixEndpoint;
use hyper_tide::router::{EndpointKind, RegisteredEndpoint, Router, Target};
use hyper_tide::server::Server;
use route_recognizer::Params;

fn plain(ep: usize) -> RegisteredEndpoint {
    RegisteredEndpoint { endpoint: EndpointKind::Plain(ep), middleware: vec![] }
}

fn endpoint_of(t: &Target) -> Option<usize> {
    match t {
        Target::Endpoint(i) => Some(*i),
        _ => None,
    }
}

#[test]
fn method_names() {
    assert_eq!(Method::get().name(), "GET");
    assert_eq!(Method::head().name(), "HEAD");
    assert_eq!(Method::put().name(), "PUT");
    assert_eq!(Method::post().name(), "POST");
    assert_eq!(Method::delete().name(), "DELETE");
    assert_eq!(Method::options().name(), "OPTIONS");
    assert_eq!(Method::connect().name(), "CONNECT");
    assert_eq!(Method::patch().name(), "PATCH");
    assert_eq!(Method::trace().name(), "TRACE");
    assert!(Method::get().same(&Method::from_name("GET")));
    assert!(!Method::get().same(&Method::from_name("get")));
    assert_eq!(Method::from_name("PURGE").duplicate().name(), "PURGE");
}

#[test]
fn router_finds_route_of_the_method() {
    let mut r = Router::new();
    r.add("/hello", Method::get(), plain(7));
    let s = r.route("/hello", &Method::get());
    let i = endpoint_of(&s.endpoint).unwrap();
    assert_eq!(i, 0);
    assert!(matches!(r.endpoint(i).endpoint, EndpointKind::Plain(7)));
    assert_eq!(s.params, Params::new());
}

#[test]
fn router_answers_not_found_without_match() {
    let mut r = Router::new();
    r.add("/hello", Method::get(), plain(7));
    assert!(matches!(r.route("/nope", &Method::get()).endpoint, Target::NotFound));
    let empty = Router::new();
    assert!(matches!(empty.route("/", &Method::get()).endpoint, Target::NotFound));
}

#[test]
fn router_answers_method_not_allowed_for_other_method() {
    let mut r = Router::new();
    r.add("/hello", Method::get(), plain(7));
    let s = r.route("/hello", &Method::post());
    assert!(matches!(s.endpoint, Target::MethodNotAllowed));
    assert_eq!(s.params, Params::new());
}

#[test]
fn router_routes_head_as_get() {
    let mut r = Router::new();
    r.add("/hello", Method::get(), plain(7));
    let s = r.route("/hello", &Method::head());
    assert_eq!(endpoint_of(&s.endpoint), Some(0));
    // A HEAD route of its own is preferred.
    r.add("/hello", Method::head(), plain(8));
    let s = r.route("/hello", &Method::head());
    assert_eq!(endpoint_of(&s.endpoint), Some(1));
}

#[test]
fn router_prefers_own_method_over_all_methods() {
    let mut r = Router::new();
    r.add_all("/x", plain(1));
    r.add("/x", Method::post(), plain(2));
    assert_eq!(endpoint_of(&r.route("/x", &Method::post()).endpoint), Some(1));
    assert_eq!(endpoint_of(&r.route("/x", &Method::get()).endpoint), Some(0));
    assert_eq!(endpoint_of(&r.route("/x", &Method::from_name("PURGE")).endpoint), Some(0));
}

#[test]
fn router_captures_params() {
    let mut r = Router::new();
    r.add("/he/:n", Method::get(), plain(3));
    let s = r.route("/he/42", &Method::get());
    assert_eq!(endpoint_of(&s.endpoint), Some(0));
    assert_eq!(s.params.find("n"), Some("42"));
}

#[test]
fn router_keeps_one_table_per_method() {
    let mut r = Router::new();
    r.add("/a", Method::get(), plain(1));
    r.add("/b", Method::post(), plain(2));
    r.add("/c", Method::get(), plain(3));
    assert_eq!(endpoint_of(&r.route("/a", &Method::get()).endpoint), Some(0));
    assert_eq!(endpoint_of(&r.route("/c", &Method::get()).endpoint), Some(2));
    assert_eq!(endpoint_of(&r.route("/b", &Method::post()).endpoint), Some(1));
    assert!(matches!(r.route("/b", &Method::get()).endpoint, Target::MethodNotAllowed));
}

#[test]
fn route_paths_are_joined() {
    let mut s = Server::new();
    let mut r = s.at("/api");
    assert_eq!(r.path, "/api");
    assert_eq!(r.at("hello").path, "/api/hello");
    assert_eq!(r.at("/hello").path, "/api/hello");
    assert_eq!(r.at("/").path, "/api");
    assert_eq!(r.at("").path, "/api/");
    let mut slash = r.at("v1/");
    assert_eq!(slash.at("x").path, "/api/v1/x");
    assert_eq!(slash.at("/x").path, "/api/v1//x");
}

#[test]
fn route_registers_with_its_middleware() {
    let mut s = Server::new();
    {
        let mut r = s.at("/he/:n");
        r.with(4).with(5).get(9);
        r.reset_middleware().post(10);
    }
    let router = s.router();
    let i = endpoint_of(&router.route("/he/1", &Method::get()).endpoint).unwrap();
    let e = router.endpoint(i);
    assert!(matches!(e.endpoint, EndpointKind::Plain(9)));
    assert_eq!(e.middleware, vec![4, 5]);
    let j = endpoint_of(&router.route("/he/1", &Method::post()).endpoint).unwrap();
    assert!(matches!(router.endpoint(j).endpoint, EndpointKind::Plain(10)));
    assert!(router.endpoint(j).middleware.is_empty());
}

#[test]
fn route_method_shortcuts() {
    let mut s = Server::new();
    {
        let mut r = s.at("/m");
        r.get(0).head(1).put(2).post(3).delete(4).options(5).connect(6).patch(7).trace(8);
        r.method(Method::from_name("PURGE"), 9);
    }
    let names = ["GET", "HEAD", "PUT", "POST", "DELETE", "OPTIONS", "CONNECT", "PATCH", "TRACE", "PURGE"];
    for (k, name) in names.iter().enumerate() {
        let i = endpoint_of(&s.router().route("/m", &Method::from_name(name)).endpoint).unwrap();
        match &s.router().endpoint(i).endpoint {
            EndpointKind::Plain(e) => assert_eq!(*e, k),
            _ => panic!("unexpected endpoint"),
        }
    }
}

#[test]
fn nest_mounts_service_below_prefix() {
    let mut s = Server::new();
    {
        let mut r = s.at("/api");
        r.with(1).nest(42);
        assert!(!r.prefix);
    }
    let mut params = Vec::new();
    let t = s.dispatch("/api/hello", &Method::get(), &mut params);
    let i = endpoint_of(&t).unwrap();
    let e = s.router().endpoint(i);
    match &e.endpoint {
        EndpointKind::StripPrefix(sp) => assert_eq!(*sp.endpoint(), 42),
        _ => panic!("expected a nested service"),
    }
    assert_eq!(e.middleware, vec![1]);
    assert_eq!(params.len(), 1);
    assert_eq!(params[0].find(REST_PARAM), Some("hello"));
    assert_eq!(StripPrefixEndpoint::<usize>::stripped_path(&params), "/hello");

    let mut params = Vec::new();
    let t = s.dispatch("/api", &Method::post(), &mut params);
    assert!(endpoint_of(&t).is_some());
    assert_eq!(StripPrefixEndpoint::<usize>::stripped_path(&params), "/");
}

#[test]
fn all_registers_for_every_method() {
    let mut s = Server::new();
    s.at("/any").all(5);
    for m in [Method::get(), Method::post(), Method::from_name("PURGE")] {
        let i = endpoint_of(&s.router().route("/any", &m).endpoint).unwrap();
        assert!(matches!(s.router().endpoint(i).endpoint, EndpointKind::Plain(5)));
    }
}

#[test]
fn stripped_path_uses_last_params() {
    let none: Vec<Params> = vec![];
    assert_eq!(StripPrefixEndpoint::<usize>::stripped_path(&none), "/");
    let mut outer = Params::new();
    outer.insert(REST_PARAM.to_string(), "outer/rest".to_string());
    let inner = Params::new();
    assert_eq!(StripPrefixEndpoint::<usize>::stripped_path(&vec![outer.clone()]), "/outer/rest");
    assert_eq!(StripPrefixEndpoint::<usize>::stripped_path(&vec![outer, inner]), "/");
    assert_eq!(REST_PATTERN, "*--tide-path-rest");
}

#[test]
fn strip_prefix_endpoint_shares_endpoint() {
    let e = StripPrefixEndpoint::new(11usize);
    assert_eq!(*e.endpoint(), 11);
    assert_eq!(*e.clone().endpoint(), 11);
}

#[test]
fn server_middleware_and_state() {
    let mut s = Server::with_state(17u32);
    s.with(1).with(2);
    assert_eq!(*s.state(), 17);
    assert_eq!(s.middleware(), &vec![1, 2]);
    let d: Server<()> = Server::default();
    assert!(d.middleware().is_empty());
}

#[test]
fn dispatch_appends_params_level() {
    let mut s = Server::new();
    s.at("/good/:bye").get(0);
    let mut params = vec![Params::new()];
    let t = s.dispatch("/good/world", &Method::get(), &mut params);
    assert!(matches!(t, Target::Endpoint(0)));
    assert_eq!(params.len(), 2);
    assert_eq!(params[1].find("bye"), Some("world"));
    let t = s.dispatch("/bad", &Method::get(), &mut params);
    assert!(matches!(t, Target::NotFound));
    assert_eq!(params.len(), 3);
}

#[test]
fn next_steps_through_middleware_in_order() {
    let mw = [10u32, 20, 30];
    let mut next = Next { endpoint: "end", next_middleware: &mw[..] };
    let mut seen = vec![];
    loop {
        match next.step() {
            Step::Middleware(m, rest) => {
                seen.push(*m);
                next = rest;
            }
            Step::Endpoint(e) => {
                assert_eq!(e, "end");
                break;
            }
        }
    }
    assert_eq!(seen, vec![10, 20, 30]);
}

#[test]
fn recognizable_paths() {
    assert!(is_recognizable(""));
    assert!(is_recognizable("/"));
    assert!(is_recognizable("/a/é"));
    assert!(is_recognizable("a"));
    assert!(!is_recognizable("é"));
    assert!(!is_recognizable("/é"));
    assert!(is_recognizable("//é"));
}

#[test]
fn registration_keeps_other_methods() {
    let mut r = Router::new();
    r.add("/x", Method::get(), plain(1));
    r.add("/x", Method::post(), plain(2));
    let before = endpoint_of(&r.route("/x", &Method::post()).endpoint);
    r.add("/x", Method::get(), plain(3));
    r.add("/y", Method::get(), plain(4));
    assert_eq!(endpoint_of(&r.route("/x", &Method::post()).endpoint), before);
    assert_eq!(before, Some(1));
    assert_eq!(r.endpoint_count(), 4);
    assert!(matches!(r.endpoint(0).endpoint, EndpointKind::Plain(1)));
    assert!(matches!(r.endpoint(3).endpoint, EndpointKind::Plain(4)));
}

#[test]
fn fallback_statuses() {
    assert_eq!(Target::NotFound.fallback_status(), Some(404));
    assert_eq!(Target::MethodNotAllowed.fallback_status(), Some(405));
    assert_eq!(Target::Endpoint(0).fallback_status(), None);
}

#[test]
fn nul_free_paths() {
    assert!(hyper_tide::path::is_nul_free("/a/b"));
    assert!(!hyper_tide::path::is_nul_free("/a\0b"));
    assert!(!is_recognizable("/a\0"));
}

#[test]
fn registered_ascii_path_is_answered() {
    let mut s = Server::new();
    s.at("/files/*rest").get(1);
    s.at("/users/:id").post(2);
    s.at("/static.css").all(3);
    let r = s.router();
    assert!(endpoint_of(&r.route("/files/*rest", &Method::get()).endpoint).is_some());
    assert!(endpoint_of(&r.route("/users/:id", &Method::post()).endpoint).is_some());
    assert!(endpoint_of(&r.route("/static.css", &Method::delete()).endpoint).is_some());
    assert!(endpoint_of(&r.route("/files/*rest", &Method::head()).endpoint).is_some());
}

#[test]
fn own_table_before_all_methods_table() {
    let mut r = Router::new();
    r.add("/a", Method::get(), plain(10));
    r.add_all("/a", plain(20));
    assert_eq!(endpoint_of(&r.route("/a", &Method::get()).endpoint), Some(0));
    assert_eq!(endpoint_of(&r.route("/a", &Method::post()).endpoint), Some(1));
    assert_eq!(endpoint_of(&r.route("/a", &Method::head()).endpoint), Some(1));
}

#[test]
fn get_only_route_answers() {
    let mut r = Router::new();
    r.add("/a", Method::get(), plain(10));
    let post = r.route("/a", &Method::post());
    assert!(matches!(post.endpoint, Target::MethodNotAllowed));
    assert_eq!(post.params, Params::new());
    let missing = r.route("/b", &Method::get());
    assert!(matches!(missing.endpoint, Target::NotFound));
    assert_eq!(missing.params, Params::new());
    let missing_head = r.route("/b", &Method::head());
    assert!(matches!(missing_head.endpoint, Target::NotFound));
    assert_eq!(missing_head.params, Params::new());
    assert_eq!(post.endpoint.fallback_status(), Some(405));
}

#[test]
fn chain_with_no_middleware_calls_endpoint() {
    let mw: [u8; 0] = [];
    let next = Next { endpoint: 5u8, next_middleware: &mw[..] };
    assert!(matches!(next.step(), Step::Endpoint(5)));
}
