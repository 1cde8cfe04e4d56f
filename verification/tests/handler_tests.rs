use wizard_api::handlers::{cookie_handler, create, handle_name, read_all};
use wizard_api::http::{
    Body, Cookie, CookieChange, Failure, Header, Malformed, Method, Request, Response,
};
use wizard_api::middleware::{check_req, Middleware, MiddlewareOutcome};
use wizard_api::record::{NameParams, Repository, Wizard};

fn blank(path: &str) -> Request {
    Request {
        method: Method::Get,
        path: path.to_string(),
        headers: Vec::new(),
        cookies: Vec::new(),
        query: Ok(None),
        body: Err(Malformed),
    }
}

fn plain(status: u16, body: &str) -> Response {
    Response { status, body: Body::Text(body.to_string()), cookies: Vec::new() }
}

#[test]
fn handle_name_defaults_to_world() {
    assert_eq!(handle_name(&blank("/")), Ok(plain(200, "Hello, World")));
}

#[test]
fn handle_name_takes_any_name() {
    let mut req = blank("/");
    req.query = Ok(Some("Bilbo".to_string()));
    assert_eq!(handle_name(&req), Ok(plain(200, "Hello, Bilbo")));
    req.query = Ok(Some(String::new()));
    assert_eq!(handle_name(&req), Ok(plain(200, "Hello, ")));
    req.query = Ok(Some("Éowyn of Rohan & co".to_string()));
    assert_eq!(handle_name(&req), Ok(plain(200, "Hello, Éowyn of Rohan & co")));
}

#[test]
fn handle_name_reports_a_malformed_query() {
    let mut req = blank("/");
    req.query = Err(Malformed);
    assert_eq!(handle_name(&req), Err(Failure::MalformedQuery));
}

#[test]
fn name_params_default_is_world() {
    assert_eq!(NameParams::default(), NameParams { name: "World".to_string() });
    assert_eq!(NameParams::from_query(None).name, "World");
    assert_eq!(NameParams::from_query(Some(&"Pippin".to_string())).name, "Pippin");
}

#[test]
fn cookie_handler_reads_the_name_cookie() {
    let mut req = blank("/cookies");
    req.cookies.push(Cookie { name: "name".to_string(), value: "Sam".to_string() });
    let res = cookie_handler(&req).unwrap();
    assert_eq!(res.status, 200);
    assert_eq!(res.body, Body::Text("hello, Sam".to_string()));
    assert_eq!(res.cookies.len(), 2);
    assert_eq!(
        res.cookies[0],
        CookieChange::Store(Cookie { name: "app".to_string(), value: "tide_equivalent".to_string() })
    );
}

#[test]
fn cookie_handler_forgets_the_fixed_cookie_not_the_one_it_read() {
    let mut req = blank("/cookies");
    req.cookies.push(Cookie { name: "name".to_string(), value: "Sam".to_string() });
    let res = cookie_handler(&req).unwrap();
    assert_eq!(
        res.cookies[1],
        CookieChange::Forget(Cookie { name: "name".to_string(), value: "foo".to_string() })
    );
}

#[test]
fn cookie_handler_takes_the_last_cookie_of_the_name() {
    let mut req = blank("/cookies");
    req.cookies.push(Cookie { name: "name".to_string(), value: "Sam".to_string() });
    req.cookies.push(Cookie { name: "Name".to_string(), value: "Upper".to_string() });
    req.cookies.push(Cookie { name: "name".to_string(), value: "Rosie".to_string() });
    req.cookies.push(Cookie { name: "other".to_string(), value: "x".to_string() });
    let res = cookie_handler(&req).unwrap();
    assert_eq!(res.body, Body::Text("hello, Rosie".to_string()));
    assert_eq!(req.cookie("Name").unwrap().value, "Upper");
    assert!(req.cookie("absent").is_none());
}

#[test]
fn cookie_handler_without_cookie_fails() {
    assert_eq!(cookie_handler(&blank("/cookies")), Err(Failure::MissingCookie));
    let mut req = blank("/cookies");
    req.cookies.push(Cookie { name: "Name".to_string(), value: "Sam".to_string() });
    assert_eq!(cookie_handler(&req), Err(Failure::MissingCookie));
}

#[test]
fn read_all_gives_the_two_samples_in_order() {
    let res = read_all(&blank("/wizards/")).unwrap();
    assert_eq!(res.status, 200);
    assert_eq!(
        res.body,
        Body::Json(vec![
            Wizard { name: "Gandalf".to_string(), level: 100 },
            Wizard { name: "Merlin".to_string(), level: 10 },
        ])
    );
    assert!(res.cookies.is_empty());
    let mut other = blank("/elsewhere");
    other.body = Ok(Wizard { name: "X".to_string(), level: 1 });
    assert_eq!(read_all(&other).unwrap(), res);
}

#[test]
fn create_formats_name_and_level() {
    let store = Repository::new();
    let mut req = blank("/wizards/1");
    req.body = Ok(Wizard { name: "Frodo".to_string(), level: 5 });
    assert_eq!(create(&req, &store), Ok(plain(201, "Frodo is level 5")));
    req.body = Ok(Wizard { name: "Gandalf".to_string(), level: 255 });
    assert_eq!(create(&req, &store), Ok(plain(201, "Gandalf is level 255")));
    req.body = Ok(Wizard { name: String::new(), level: 0 });
    assert_eq!(create(&req, &store), Ok(plain(201, " is level 0")));
    req.body = Ok(Wizard { name: "Merlin".to_string(), level: 100 });
    assert_eq!(create(&req, &store), Ok(plain(201, "Merlin is level 100")));
}

#[test]
fn create_leaves_the_store_alone() {
    let mut store = Repository::new();
    store.insert(Wizard { name: "Frodo".to_string(), level: 1 });
    let mut req = blank("/wizards/1");
    req.body = Ok(Wizard { name: "Frodo".to_string(), level: 5 });
    assert_eq!(create(&req, &store), Ok(plain(201, "Frodo is level 5")));
    assert_eq!(store.len(), 1);
    assert_eq!(store.get("Frodo").unwrap().level, 1);
}

#[test]
fn create_reports_a_malformed_body() {
    let store = Repository::new();
    assert_eq!(create(&blank("/wizards/1"), &store), Err(Failure::MalformedBody));
}

#[test]
fn check_req_forwards_a_request_with_authorization() {
    let mut req = blank("/");
    req.headers.push(Header { name: "Authorization".to_string(), value: "token".to_string() });
    let mut same = blank("/");
    same.headers.push(Header { name: "Authorization".to_string(), value: "token".to_string() });
    assert_eq!(check_req(req), MiddlewareOutcome::Forward(same));
}

#[test]
fn check_req_forbids_a_request_without_authorization() {
    let mut req = blank("/");
    req.headers.push(Header { name: "Accept".to_string(), value: "*/*".to_string() });
    req.headers.push(Header { name: "Authorizatio".to_string(), value: "x".to_string() });
    assert_eq!(check_req(req), MiddlewareOutcome::ShortCircuit(plain(403, "Forbidden")));
}

#[test]
fn check_req_looks_at_presence_only() {
    let mut req = blank("/");
    req.headers.push(Header { name: "Accept".to_string(), value: "*/*".to_string() });
    req.headers.push(Header { name: "authorization".to_string(), value: String::new() });
    assert!(req.has_header("AUTHORIZATION"));
    assert!(!req.has_header("Cookie"));
    match check_req(req) {
        MiddlewareOutcome::Forward(passed) => assert_eq!(passed.headers.len(), 2),
        MiddlewareOutcome::ShortCircuit(_) => panic!("a present header must pass"),
    }
}

#[test]
fn logging_middleware_always_forwards() {
    let req = blank("/");
    assert_eq!(Middleware::Logging.handle(req), MiddlewareOutcome::Forward(blank("/")));
    assert_eq!(
        Middleware::AuthorizationGate.handle(blank("/")),
        MiddlewareOutcome::ShortCircuit(plain(403, "Forbidden"))
    );
}

#[test]
fn failures_map_to_their_status() {
    assert_eq!(Failure::MalformedQuery.status(), 400);
    assert_eq!(Failure::MalformedBody.status(), 422);
    assert_eq!(Failure::MissingCookie.status(), 400);
    assert_eq!(Failure::NoRoute.status(), 404);
    assert_eq!(Failure::Internal.status(), 500);
    assert_eq!(
        Failure::Internal.into_response(),
        Response { status: 500, body: Body::Empty, cookies: Vec::new() }
    );
}

#[test]
fn response_builders_keep_order_of_cookie_instructions() {
    let mut res = Response::new(204);
    assert_eq!(res, Response { status: 204, body: Body::Empty, cookies: Vec::new() });
    res.remove_cookie(Cookie { name: "a".to_string(), value: "1".to_string() });
    res.insert_cookie(Cookie { name: "b".to_string(), value: "2".to_string() });
    assert_eq!(
        res.cookies,
        vec![
            CookieChange::Forget(Cookie { name: "a".to_string(), value: "1".to_string() }),
            CookieChange::Store(Cookie { name: "b".to_string(), value: "2".to_string() }),
        ]
    );
    assert_eq!(Response::text(200, "x".to_string()), plain(200, "x"));
}
