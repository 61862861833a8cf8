use iron::handlers::{create_user, delete_user, get_user, hello_world, update_user};
use iron::http::{HttpMethod, Request, RequestTrait, Response, ResponseTrait};
use iron::middleware::Middleware;
use iron::router::{
    collect_params, create_regex_pattern, match_route, MiddlewareSite, Route, RouteError,
    RouteSite, Router, RouterGroup, Step,
};
use std::cell::Cell;
use std::rc::Rc;

type Handler = Box<dyn Fn(Request) -> Response>;
type Gate = Box<dyn Fn(Request) -> Result<Request, Response>>;

fn handler(f: impl Fn(Request) -> Response + 'static) -> Handler {
    Box::new(f)
}

fn gate(f: impl Fn(Request) -> Result<Request, Response> + 'static) -> Gate {
    Box::new(f)
}

fn says(body: &'static str) -> Handler {
    handler(move |_| Response::new(body))
}

fn requires_authorization() -> Gate {
    gate(|request| {
        if request.headers().get("Authorization").is_some() {
            Ok(request)
        } else {
            let mut response = Response::new("Unauthorized");
            response.set_status(401);
            Err(response)
        }
    })
}

#[test]
fn test_router_add_route() {
    let mut router = Router::<Handler, Gate>::new();
    router.add_route(HttpMethod::GET, "/test", says("Test")).unwrap();
    assert_eq!(router.route_count(), 1);
}

#[test]
fn test_router_handle_request() {
    let mut router = Router::<Handler, Gate>::new();
    router.add_route(HttpMethod::GET, "/test", says("Test")).unwrap();

    let request = Request::parse("GET /test HTTP/1.1\r\nHost: example.com\r\n\r\n");
    let response = router.handle_request(request);

    assert_eq!(response.status(), 200);
    assert_eq!(response.body(), "Test");
}

#[test]
fn test_router_with_params() {
    let mut router = Router::<Handler, Gate>::new();
    router
        .add_route(
            HttpMethod::GET,
            "/user/:id",
            handler(|req| {
                Response::new(&format!("User ID: {}", req.params().get("id").unwrap()))
            }),
        )
        .unwrap();

    let request = Request::parse("GET /user/123 HTTP/1.1\r\nHost: example.com\r\n\r\n");
    let response = router.handle_request(request);

    assert_eq!(response.status(), 200);
    assert_eq!(response.body(), "User ID: 123");
}

#[test]
fn test_router_with_wildcard() {
    let mut router = Router::<Handler, Gate>::new();
    router
        .add_route(
            HttpMethod::GET,
            "/files/*path",
            handler(|req| {
                Response::new(&format!("File path: {}", req.params().get("path").unwrap()))
            }),
        )
        .unwrap();

    let request =
        Request::parse("GET /files/documents/report.pdf HTTP/1.1\r\nHost: example.com\r\n\r\n");
    let response = router.handle_request(request);

    assert_eq!(response.status(), 200);
    assert_eq!(response.body(), "File path: documents/report.pdf");
}

#[test]
fn test_router_not_found() {
    let router = Router::<Handler, Gate>::new();
    let request = Request::parse("GET /nonexistent HTTP/1.1\r\nHost: example.com\r\n\r\n");
    let response = router.handle_request(request);

    assert_eq!(response.status(), 404);
    assert!(response.body().contains("Not Found"));
}

#[test]
fn test_router_with_middleware() {
    let seen = Rc::new(Cell::new("skipped"));
    let mark = seen.clone();
    let read = seen.clone();
    let mut router = Router::<Handler, Gate>::new();
    router.add_middleware(gate(move |mut req| {
        req.set_param("middleware".to_string(), "applied".to_string());
        mark.set("applied");
        Ok(req)
    }));
    router
        .add_route(
            HttpMethod::GET,
            "/test",
            handler(move |_| Response::new(&format!("Middleware: {}", read.get()))),
        )
        .unwrap();

    let request = Request::parse("GET /test HTTP/1.1\r\nHost: example.com\r\n\r\n");
    let response = router.handle_request(request);

    assert_eq!(response.status(), 200);
    assert_eq!(response.body(), "Middleware: applied");
}

#[test]
fn test_router_group() {
    let mut router = Router::<Handler, Gate>::new();
    let group = router.group("/api");
    group.add_route(HttpMethod::GET, "/users", says("Users list")).unwrap();

    let request = Request::parse("GET /api/users HTTP/1.1\r\nHost: example.com\r\n\r\n");
    let response = router.handle_request(request);

    assert_eq!(response.status(), 200);
    assert_eq!(response.body(), "Users list");
}

#[test]
fn a_match_replaces_the_parameters_that_middleware_set() {
    let mut router = Router::<Handler, Gate>::new();
    router.add_middleware(gate(|mut req| {
        req.set_param("middleware".to_string(), "applied".to_string());
        req.set_param("id".to_string(), "from middleware".to_string());
        Ok(req)
    }));
    router
        .add_route(
            HttpMethod::GET,
            "/user/:id",
            handler(|req| {
                let body = format!(
                    "{} {} {}",
                    req.params().len(),
                    req.params().get("id").unwrap(),
                    req.params().contains_key("middleware")
                );
                Response::new(&body)
            }),
        )
        .unwrap();
    let response = router.handle_request(Request::parse("GET /user/9 HTTP/1.1\r\n\r\n"));
    assert_eq!(response.body(), "1 9 false");
}

#[test]
fn scenario_named_parameter() {
    let mut router = Router::<Handler, Gate>::new();
    router
        .add_route(HttpMethod::GET, "/users/:id", handler(get_user::<Request, Response>))
        .unwrap();
    let request = Request::parse("GET /users/42 HTTP/1.1\r\nHost: x\r\n\r\n");
    let response = router.handle_request(request);
    assert_eq!(response.body(), "Getting user with ID: 42");
    assert_eq!(response.status(), 200);
}

#[test]
fn scenario_wildcard() {
    let mut router = Router::<Handler, Gate>::new();
    router
        .add_route(
            HttpMethod::GET,
            "/files/*path",
            handler(|request| {
                let unknown = "unknown".to_string();
                let path = request.params().get("path").unwrap_or(&unknown);
                Response::new(&format!("Accessing file: {}", path))
            }),
        )
        .unwrap();
    let request = Request::parse("GET /files/docs/a.pdf HTTP/1.1\r\n\r\n");
    let response = router.handle_request(request);
    assert_eq!(response.body(), "Accessing file: docs/a.pdf");
    assert_eq!(response.status(), 200);
}

#[test]
fn scenario_group_requires_authorization() {
    let calls = Rc::new(Cell::new(0u32));
    let counted = calls.clone();
    let mut router = Router::<Handler, Gate>::new();
    let group = router.group("/api");
    group.add_middleware(requires_authorization());
    group
        .add_route(
            HttpMethod::GET,
            "/users/:id",
            handler(move |request| {
                counted.set(counted.get() + 1);
                get_user::<Request, Response>(request)
            }),
        )
        .unwrap();

    let refused = router.handle_request(Request::parse("GET /api/users/5 HTTP/1.1\r\nHost: x\r\n\r\n"));
    assert_eq!(refused.status(), 401);
    assert_eq!(refused.body(), "Unauthorized");
    assert_eq!(calls.get(), 0);

    let allowed = router.handle_request(Request::parse(
        "GET /api/users/5 HTTP/1.1\r\nAuthorization: Bearer t\r\n\r\n",
    ));
    assert_eq!(allowed.status(), 200);
    assert_eq!(allowed.body(), "Getting user with ID: 5");
    assert_eq!(calls.get(), 1);
}

#[test]
fn scenario_unmatched_path() {
    let mut router = Router::<Handler, Gate>::new();
    router.add_route(HttpMethod::GET, "/", handler(hello_world::<Request, Response>)).unwrap();
    let response = router.handle_request(Request::parse("GET /nonexistent HTTP/1.1\r\n\r\n"));
    assert_eq!(response.status(), 404);
    assert_eq!(response.body(), "404 Not Found");
    assert_eq!(response.headers().get("Content-Type"), Some(&"text/plain".to_string()));
}

#[test]
fn a_rejecting_middleware_short_circuits() {
    let handled = Rc::new(Cell::new(0u32));
    let later = Rc::new(Cell::new(0u32));
    let count_handled = handled.clone();
    let count_later = later.clone();
    let count_group = later.clone();
    let mut router = Router::<Handler, Gate>::new();
    router.add_middleware(gate(|_| {
        let mut response = Response::new("stopped");
        response.set_status(403);
        Err(response)
    }));
    router.add_middleware(gate(move |request| {
        count_later.set(count_later.get() + 1);
        Ok(request)
    }));
    router
        .add_route(
            HttpMethod::GET,
            "/test",
            handler(move |_| {
                count_handled.set(count_handled.get() + 1);
                Response::new("handled")
            }),
        )
        .unwrap();
    let group = router.group("/");
    group.add_middleware(gate(move |request| {
        count_group.set(count_group.get() + 1);
        Ok(request)
    }));

    let response = router.handle_request(Request::parse("GET /test HTTP/1.1\r\n\r\n"));
    assert_eq!(response.status(), 403);
    assert_eq!(response.body(), "stopped");
    assert_eq!(handled.get(), 0);
    assert_eq!(later.get(), 0);
}

#[test]
fn dispatch_is_repeatable() {
    let mut router = Router::<Handler, Gate>::new();
    router.add_middleware(gate(Ok));
    router
        .add_route(HttpMethod::GET, "/users/:id", handler(get_user::<Request, Response>))
        .unwrap();
    let raw = "GET /users/42 HTTP/1.1\r\nHost: x\r\n\r\n";
    let first = router.handle_request(Request::parse(raw));
    let second = router.handle_request(Request::parse(raw));
    assert_eq!(first.to_string(), second.to_string());
    assert_eq!(router.route_count(), 1);
}

#[test]
fn first_registered_route_wins() {
    let mut router = Router::<Handler, Gate>::new();
    router.add_route(HttpMethod::GET, "/users/:id", says("by id")).unwrap();
    router.add_route(HttpMethod::GET, "/users/me", says("me")).unwrap();
    router.add_route(HttpMethod::POST, "/users/me", says("post me")).unwrap();
    let get = router.handle_request(Request::parse("GET /users/me HTTP/1.1\r\n\r\n"));
    assert_eq!(get.body(), "by id");
    let post = router.handle_request(Request::parse("POST /users/me HTTP/1.1\r\n\r\n"));
    assert_eq!(post.body(), "post me");
    let put = router.handle_request(Request::parse("PUT /users/me HTTP/1.1\r\n\r\n"));
    assert_eq!(put.status(), 404);
}

#[test]
fn groups_come_before_top_level_routes() {
    let mut router = Router::<Handler, Gate>::new();
    router.add_route(HttpMethod::GET, "/api/users", says("top")).unwrap();
    let group = router.group("/api");
    group.add_route(HttpMethod::GET, "/users", says("group")).unwrap();
    let response = router.handle_request(Request::parse("GET /api/users HTTP/1.1\r\n\r\n"));
    assert_eq!(response.body(), "group");
}

#[test]
fn a_group_without_a_matching_route_falls_through() {
    let order = Rc::new(Cell::new(0u32));
    let first = order.clone();
    let second = order.clone();
    let mut router = Router::<Handler, Gate>::new();
    router.add_route(HttpMethod::GET, "/api/other", says("top")).unwrap();
    let a = router.group("/api");
    a.add_middleware(gate(move |request| {
        first.set(first.get() * 10 + 1);
        Ok(request)
    }));
    a.add_route(HttpMethod::GET, "/users", says("a")).unwrap();
    let b = router.group("/api/o");
    b.add_middleware(gate(move |request| {
        second.set(second.get() * 10 + 2);
        Ok(request)
    }));
    b.add_route(HttpMethod::GET, "/x", says("b")).unwrap();
    let c = router.group("/else");
    c.add_middleware(gate(|_| Err(Response::new("never"))));

    let response = router.handle_request(Request::parse("GET /api/other HTTP/1.1\r\n\r\n"));
    assert_eq!(response.body(), "top");
    assert_eq!(order.get(), 12);
}

#[test]
fn a_group_applies_by_plain_prefix() {
    let mut router = Router::<Handler, Gate>::new();
    let group = router.group("/api");
    group.add_middleware(requires_authorization());
    let response = router.handle_request(Request::parse("GET /apiary HTTP/1.1\r\n\r\n"));
    assert_eq!(response.status(), 401);
    let outside = router.handle_request(Request::parse("GET /ap HTTP/1.1\r\n\r\n"));
    assert_eq!(outside.status(), 404);
}

#[test]
fn middleware_runs_in_registration_order() {
    let order = Rc::new(Cell::new(0u32));
    let mut router = Router::<Handler, Gate>::new();
    for digit in 1..=3u32 {
        let order = order.clone();
        router.add_middleware(gate(move |request| {
            order.set(order.get() * 10 + digit);
            Ok(request)
        }));
    }
    router.add_route(HttpMethod::GET, "/", says("ok")).unwrap();
    let response = router.handle_request(Request::parse("GET / HTTP/1.1\r\n\r\n"));
    assert_eq!(response.body(), "ok");
    assert_eq!(order.get(), 123);
}

#[test]
fn wildcard_binds_under_its_declared_name_everywhere() {
    let show = |request: Request| {
        let rest = request.params().get("rest").unwrap().clone();
        Response::new(&format!("{} {}", request.params().len(), rest))
    };
    let mut router = Router::<Handler, Gate>::new();
    router.add_route(HttpMethod::GET, "/files/*rest", handler(show)).unwrap();
    let group = router.group("/static");
    group.add_route(HttpMethod::GET, "/*rest", handler(show)).unwrap();
    let top = router.handle_request(Request::parse("GET /files/a/b.txt HTTP/1.1\r\n\r\n"));
    assert_eq!(top.body(), "1 a/b.txt");
    let grouped = router.handle_request(Request::parse("GET /static/css/site.css HTTP/1.1\r\n\r\n"));
    assert_eq!(grouped.body(), "1 css/site.css");
    let empty = router.handle_request(Request::parse("GET /files/ HTTP/1.1\r\n\r\n"));
    assert_eq!(empty.body(), "1 ");
}

#[test]
fn templates_compile_to_anchored_expressions() {
    assert_eq!(create_regex_pattern("/users/:id"), "^/users/(?P<id>\\w+)$");
    assert_eq!(create_regex_pattern("/files/*path"), "^/files/(?P<path>.*)$");
    assert_eq!(create_regex_pattern("/"), "^/$");
    assert_eq!(create_regex_pattern(""), "^$");
    assert_eq!(create_regex_pattern("/a/:b/c/:d"), "^/a/(?P<b>\\w+)/c/(?P<d>\\w+)$");
    assert_eq!(create_regex_pattern("/*all/x"), "^/\\*all/x$");
    assert_eq!(create_regex_pattern("/v1.0/a+b"), "^/v1\\.0/a\\+b$");
    assert_eq!(
        create_regex_pattern("/\\.+*?()|[]{}^$#&-~"),
        "^/\\\\\\.\\+\\*\\?\\(\\)\\|\\[\\]\\{\\}\\^\\$\\#\\&\\-\\~$"
    );
}

#[test]
fn literal_segments_match_exactly() {
    let mut router = Router::<Handler, Gate>::new();
    router.add_route(HttpMethod::GET, "/v1.0/items", says("ok")).unwrap();
    let exact = router.handle_request(Request::parse("GET /v1.0/items HTTP/1.1\r\n\r\n"));
    assert_eq!(exact.status(), 200);
    let other = router.handle_request(Request::parse("GET /v1x0/items HTTP/1.1\r\n\r\n"));
    assert_eq!(other.status(), 404);
    let upper = router.handle_request(Request::parse("GET /V1.0/items HTTP/1.1\r\n\r\n"));
    assert_eq!(upper.status(), 404);
    let longer = router.handle_request(Request::parse("GET /v1.0/items/1 HTTP/1.1\r\n\r\n"));
    assert_eq!(longer.status(), 404);
    let prefixed = router.handle_request(Request::parse("GET /x/v1.0/items HTTP/1.1\r\n\r\n"));
    assert_eq!(prefixed.status(), 404);
}

#[test]
fn a_named_segment_takes_one_run_of_word_characters() {
    let mut router = Router::<Handler, Gate>::new();
    router.add_route(HttpMethod::GET, "/users/:id", says("ok")).unwrap();
    for (path, status) in
        [("/users/42", 200), ("/users/a_b9", 200), ("/users/", 404), ("/users/4/2", 404), ("/users/a-b", 404)]
    {
        let raw = format!("GET {} HTTP/1.1\r\n\r\n", path);
        assert_eq!(router.handle_request(Request::parse(&raw)).status(), status);
    }
}

#[test]
fn a_template_that_does_not_compile_is_refused() {
    let mut router = Router::<Handler, Gate>::new();
    let refused = router.add_route(HttpMethod::GET, "/:id/:id", says("x"));
    assert_eq!(
        refused,
        Err(RouteError::InvalidPattern { text: "^/(?P<id>\\w+)/(?P<id>\\w+)$".to_string() })
    );
    assert_eq!(router.route_count(), 0);
    let unnamed = router.add_route(HttpMethod::GET, "/files/*", says("x"));
    assert_eq!(unnamed, Err(RouteError::InvalidPattern { text: "^/files/(?P<>.*)$".to_string() }));
    let group = router.group("/api");
    let in_group = group.add_route(HttpMethod::GET, "/:", says("x"));
    assert_eq!(in_group, Err(RouteError::InvalidPattern { text: "^/api/(?P<>\\w+)$".to_string() }));
    assert_eq!(
        in_group.unwrap_err().message(),
        "invalid route pattern: ^/api/(?P<>\\w+)$"
    );
    let response = router.handle_request(Request::parse("GET /api/x HTTP/1.1\r\n\r\n"));
    assert_eq!(response.status(), 404);
}

#[test]
fn a_template_that_compiles_is_added_each_time() {
    let mut router = Router::<Handler, Gate>::new();
    assert_eq!(router.add_route(HttpMethod::GET, "/a/:id", says("first")), Ok(()));
    assert_eq!(router.add_route(HttpMethod::GET, "/a/:id", says("second")), Ok(()));
    assert_eq!(router.add_route(HttpMethod::GET, "", says("empty")), Ok(()));
    assert_eq!(router.route_count(), 3);
    let response = router.handle_request(Request::parse("GET /a/1 HTTP/1.1\r\n\r\n"));
    assert_eq!(response.body(), "first");
    let group = router.group("/g");
    assert_eq!(group.add_route(HttpMethod::PUT, "/:x/*rest", says("in group")), Ok(()));
    assert_eq!(group.add_route(HttpMethod::PUT, "/:x/*rest", says("again")), Ok(()));
    let grouped = router.handle_request(Request::parse("PUT /g/1/2/3 HTTP/1.1\r\n\r\n"));
    assert_eq!(grouped.body(), "in group");
    assert!(Route::compile(HttpMethod::GET, "/a/:id", 0u8).is_ok());
    assert!(Route::compile(HttpMethod::GET, "/a/:id/b/:id", 0u8).is_err());
}

#[test]
fn groups_do_not_nest() {
    let mut group = RouterGroup::<Handler, Gate>::new("/api");
    assert_eq!(group.group("/v1"), Err(RouteError::NestedGroup));
    assert_eq!(RouteError::NestedGroup.message(), "nested groups are not supported");
    assert_eq!(group.add_route(HttpMethod::GET, "/x", says("x")), Ok(()));
}

#[test]
fn a_route_made_from_a_regex_matches_as_the_regex_does() {
    let pattern = regex::Regex::new("^/(?P<a>[a-z]+)(?:-(?P<b>[0-9]+))?/(x)$").unwrap();
    let route = Route::new(HttpMethod::PUT, pattern, says("made"));
    assert_eq!(route.method, HttpMethod::PUT);
    assert_eq!(route.pattern.as_str(), "^/(?P<a>[a-z]+)(?:-(?P<b>[0-9]+))?/(x)$");

    let both = route.try_match(&Request::parse("PUT /ab-12/x HTTP/1.1\r\n\r\n")).unwrap();
    assert_eq!(both.len(), 2);
    assert_eq!(both.get("a"), Some(&"ab".to_string()));
    assert_eq!(both.get("b"), Some(&"12".to_string()));

    let one = route.try_match(&Request::parse("PUT /ab/x HTTP/1.1\r\n\r\n")).unwrap();
    assert_eq!(one.len(), 1);
    assert_eq!(one.get("a"), Some(&"ab".to_string()));

    assert!(route.try_match(&Request::parse("GET /ab/x HTTP/1.1\r\n\r\n")).is_none());
    assert!(route.try_match(&Request::parse("PUT /AB/x HTTP/1.1\r\n\r\n")).is_none());
    assert_eq!(route.call(Request::parse("PUT /ab/x HTTP/1.1\r\n\r\n")).body(), "made");
}

#[test]
fn routes_from_compile_outcomes() {
    let text = "^/ok$".to_string();
    let made = Route::from_compiled(HttpMethod::GET, text.clone(), regex::Regex::new(&text), 1u8);
    let route = made.unwrap();
    assert_eq!(route.pattern.as_str(), "^/ok$");
    assert_eq!(route.handler, 1u8);
    let bad = "(".to_string();
    let refused = Route::from_compiled(HttpMethod::GET, bad.clone(), regex::Regex::new(&bad), 2u8);
    assert_eq!(refused.err(), Some(RouteError::InvalidPattern { text: bad }));
    let compiled = Route::compile(HttpMethod::POST, "/a/:b", 3u8).unwrap();
    assert_eq!(compiled.method, HttpMethod::POST);
    assert_eq!(compiled.pattern.as_str(), "^/a/(?P<b>\\w+)$");
    assert_eq!(compiled.handler, 3u8);
}

#[test]
fn match_route_finds_the_first_match() {
    let routes = vec![
        Route::compile(HttpMethod::POST, "/a/:x", 'p').unwrap(),
        Route::compile(HttpMethod::GET, "/b/:x", 'b').unwrap(),
        Route::compile(HttpMethod::GET, "/a/:y", 'y').unwrap(),
        Route::compile(HttpMethod::GET, "/a/:z", 'z').unwrap(),
    ];
    let (index, params) = match_route(&routes, &Request::parse("GET /a/1 HTTP/1.1\r\n\r\n")).unwrap();
    assert_eq!(index, 2);
    assert_eq!(params.len(), 1);
    assert_eq!(params.get("y"), Some(&"1".to_string()));
    assert!(match_route(&routes, &Request::parse("GET /c/1 HTTP/1.1\r\n\r\n")).is_none());
    assert!(match_route(&routes, &Request::parse("DELETE /a/1 HTTP/1.1\r\n\r\n")).is_none());
}

#[test]
fn parameters_come_from_named_groups_that_took_part() {
    let name = |s: &str| Some(s.to_string());
    let names = vec![None, name("x"), name("skipped"), None, name("y"), name("x"), name("late")];
    let values = vec![name("/a/1"), name("a"), None, name("unnamed"), name(""), name("again")];
    let params = collect_params(&names, &values);
    assert_eq!(params.len(), 2);
    assert_eq!(params.get("x"), Some(&"again".to_string()));
    assert_eq!(params.get("y"), Some(&"".to_string()));
    assert_eq!(params.get("skipped"), None);
    assert_eq!(params.get("late"), None);
    assert!(collect_params(&names, &Vec::new()).is_empty());
}

#[test]
fn the_state_machine_names_each_call() {
    let mut router = Router::<&'static str, &'static str>::new();
    router.add_middleware("global 0");
    router.add_middleware("global 1");
    router.add_route(HttpMethod::GET, "/api/top", "top").unwrap();
    let group = router.group("/api");
    group.add_middleware("group 0");
    group.add_route(HttpMethod::GET, "/users/:id", "users").unwrap();

    let step = router.begin(Request::parse("GET /api/users/7 HTTP/1.1\r\n\r\n"));
    let Step::Middleware { site, request } = step else { panic!("expected middleware") };
    assert_eq!(site, MiddlewareSite::Global(0));
    assert_eq!(router.middleware_at(site), Some(&"global 0"));

    let step = router.resume(site, Ok(request));
    let Step::Middleware { site, request } = step else { panic!("expected middleware") };
    assert_eq!(site, MiddlewareSite::Global(1));

    let step = router.resume(site, Ok(request));
    let Step::Middleware { site, request } = step else { panic!("expected middleware") };
    assert_eq!(site, MiddlewareSite::Group(0, 0));
    assert_eq!(router.middleware_at(site), Some(&"group 0"));

    let step = router.resume(site, Ok(request));
    let Step::Handler { route, request } = step else { panic!("expected handler") };
    assert_eq!(route, RouteSite::Group(0, 0));
    assert_eq!(router.handler_at(route), Some(&"users"));
    assert_eq!(request.params().get("id"), Some(&"7".to_string()));
    assert_eq!(request.path(), "/api/users/7");

    assert_eq!(router.middleware_at(MiddlewareSite::Global(2)), None);
    assert_eq!(router.middleware_at(MiddlewareSite::Group(0, 1)), None);
    assert_eq!(router.middleware_at(MiddlewareSite::Group(1, 0)), None);
    assert_eq!(router.handler_at(RouteSite::Top(0)), Some(&"top"));
    assert_eq!(router.handler_at(RouteSite::Top(1)), None);
    assert_eq!(router.handler_at(RouteSite::Group(0, 1)), None);
    assert_eq!(router.handler_at(RouteSite::Group(1, 0)), None);
}

#[test]
fn the_state_machine_ends_at_a_rejection() {
    let mut router = Router::<&'static str, &'static str>::new();
    router.add_middleware("global 0");
    router.add_middleware("global 1");
    router.add_route(HttpMethod::GET, "/", "top").unwrap();
    let step = router.begin(Request::parse("GET / HTTP/1.1\r\n\r\n"));
    let Step::Middleware { site, .. } = step else { panic!("expected middleware") };
    let mut refusal = Response::new("no");
    refusal.set_status(401);
    refusal.set_header("X-Why".to_string(), "because".to_string());
    let expected = refusal.to_string();
    let Step::Done(response) = router.resume(site, Err(refusal)) else { panic!("expected the end") };
    assert_eq!(response.to_string(), expected);
}

#[test]
fn the_state_machine_falls_to_top_level_and_to_not_found() {
    let mut router = Router::<&'static str, &'static str>::new();
    router.add_route(HttpMethod::GET, "/api/top", "top").unwrap();
    let group = router.group("/api");
    group.add_route(HttpMethod::GET, "/users", "users").unwrap();

    let Step::Handler { route, request } = router.begin(Request::parse("GET /api/top HTTP/1.1\r\n\r\n"))
    else {
        panic!("expected handler")
    };
    assert_eq!(route, RouteSite::Top(0));
    assert!(request.params().is_empty());

    let Step::Done(response) = router.begin(Request::parse("GET /api/none HTTP/1.1\r\n\r\n")) else {
        panic!("expected the end")
    };
    assert_eq!(response.status(), 404);
    assert_eq!(response.body(), "404 Not Found");
    let missing = Router::<&'static str, &'static str>::not_found_response();
    assert_eq!(missing.to_string(), "HTTP/1.1 404 Not Found\r\nContent-Type: text/plain\r\n\r\n404 Not Found");
}

#[test]
fn middleware_wraps_a_function() {
    let middleware = Middleware::new(|request: Request| -> Result<Request, Response> {
        if request.path() == "/open" {
            Ok(request)
        } else {
            Err(Response::new("closed"))
        }
    });
    assert!(middleware.call(Request::parse("GET /open HTTP/1.1\r\n\r\n")).is_ok());
    let closed = middleware.call(Request::parse("GET /shut HTTP/1.1\r\n\r\n"));
    assert_eq!(closed.err().unwrap().body(), "closed");
    assert!((middleware.function)(Request::parse("GET /open HTTP/1.1\r\n\r\n")).is_ok());
}

#[test]
fn the_user_handlers_answer_in_plain_text() {
    let with_id = || {
        let mut request = Request::parse("POST /users HTTP/1.1\r\n\r\nAda");
        request.set_param("id".to_string(), "7".to_string());
        request
    };
    let without = || Request::parse("POST /users HTTP/1.1\r\n\r\nAda");
    let hello: Response = hello_world(without());
    assert_eq!(hello.body(), "Hello, World!");
    assert_eq!(hello.status(), 200);
    assert_eq!(get_user::<Request, Response>(with_id()).body(), "Getting user with ID: 7");
    assert_eq!(get_user::<Request, Response>(without()).body(), "Getting user with ID: unknown");
    assert_eq!(create_user::<Request, Response>(without()).body(), "Creating user: Ada");
    assert_eq!(update_user::<Request, Response>(with_id()).body(), "Updating user with ID: 7");
    assert_eq!(update_user::<Request, Response>(without()).body(), "Updating user with ID: unknown");
    assert_eq!(delete_user::<Request, Response>(with_id()).body(), "Deleting user with ID: 7");
    assert_eq!(delete_user::<Request, Response>(without()).body(), "Deleting user with ID: unknown");
}
