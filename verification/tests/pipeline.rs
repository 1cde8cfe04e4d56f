use wizard_api::http::{
    Body, Cookie, CookieChange, Header, Malformed, Method, Request, Response,
};
use wizard_api::middleware::Middleware;
use wizard_api::record::{Repository, Wizard};
use wizard_api::router::{Handler, RouteTable};
use wizard_api::service::{Reply, Service};

fn request(method: Method, path: &str, authorized: bool) -> Request {
    let mut headers = Vec::new();
    if authorized {
        headers.push(Header { name: "Authorization".to_string(), value: "Bearer x".to_string() });
    }
    Request {
        method,
        path: path.to_string(),
        headers,
        cookies: Vec::new(),
        query: Ok(None),
        body: Err(Malformed),
    }
}

fn forbidden() -> Reply {
    Reply::Ready(Response {
        status: 403,
        body: Body::Text("Forbidden".to_string()),
        cookies: Vec::new(),
    })
}

fn text(status: u16, body: &str) -> Reply {
    Reply::Ready(Response { status, body: Body::Text(body.to_string()), cookies: Vec::new() })
}

fn bare(status: u16) -> Reply {
    Reply::Ready(Response { status, body: Body::Empty, cookies: Vec::new() })
}

fn sample_list() -> Reply {
    Reply::Ready(Response {
        status: 200,
        body: Body::Json(vec![
            Wizard { name: "Gandalf".to_string(), level: 100 },
            Wizard { name: "Merlin".to_string(), level: 10 },
        ]),
        cookies: Vec::new(),
    })
}

#[test]
fn unauthorized_requests_are_forbidden_on_every_route() {
    let service = Service::standard();
    let store = Repository::new();
    for path in ["/", "/cookies", "/wizards/", "/wizards/1", "/nowhere", "/www/", "/wizards"] {
        assert_eq!(service.respond(request(Method::Get, path, false), &store), forbidden());
    }
    assert_eq!(service.respond(request(Method::Post, "/www/a.txt", false), &store), forbidden());
    assert_eq!(service.respond(request(Method::Post, "/", false), &store), forbidden());
}

#[test]
fn unauthorized_request_with_payload_is_still_forbidden() {
    let service = Service::standard();
    let store = Repository::new();
    let mut req = request(Method::Get, "/wizards/1", false);
    req.body = Ok(Wizard { name: "Frodo".to_string(), level: 5 });
    req.cookies.push(Cookie { name: "name".to_string(), value: "Sam".to_string() });
    assert_eq!(service.respond(req, &store), forbidden());
    assert_eq!(store.len(), 0);
}

#[test]
fn static_mount_needs_no_authorization() {
    let service = Service::standard();
    let store = Repository::new();
    assert_eq!(
        service.respond(request(Method::Get, "/www/index.html", false), &store),
        Reply::Static("index.html".to_string())
    );
    assert_eq!(
        service.respond(request(Method::Get, "/www/css/site.css", true), &store),
        Reply::Static("css/site.css".to_string())
    );
}

#[test]
fn greeting_without_name_greets_the_world() {
    let service = Service::standard();
    let store = Repository::new();
    assert_eq!(service.respond(request(Method::Get, "/", true), &store), text(200, "Hello, World"));
}

#[test]
fn greeting_with_name_greets_by_name() {
    let service = Service::standard();
    let store = Repository::new();
    let mut req = request(Method::Get, "/", true);
    req.query = Ok(Some("Bilbo".to_string()));
    assert_eq!(service.respond(req, &store), text(200, "Hello, Bilbo"));
}

#[test]
fn greeting_with_malformed_query_is_a_bad_request() {
    let service = Service::standard();
    let store = Repository::new();
    let mut req = request(Method::Get, "/", true);
    req.query = Err(Malformed);
    assert_eq!(service.respond(req, &store), bare(400));
}

#[test]
fn list_is_fixed_whatever_the_store_holds() {
    let service = Service::standard();
    let empty = Repository::new();
    let mut full = Repository::new();
    full.insert(Wizard { name: "Saruman".to_string(), level: 90 });
    full.insert(Wizard { name: "Gandalf".to_string(), level: 1 });
    assert_eq!(service.respond(request(Method::Get, "/wizards/", true), &empty), sample_list());
    assert_eq!(service.respond(request(Method::Get, "/wizards/", true), &full), sample_list());
    assert_eq!(full.len(), 2);
}

#[test]
fn create_reports_the_record() {
    let service = Service::standard();
    let store = Repository::new();
    let mut req = request(Method::Get, "/wizards/1", true);
    req.body = Ok(Wizard { name: "Frodo".to_string(), level: 5 });
    assert_eq!(service.respond(req, &store), text(201, "Frodo is level 5"));
    assert_eq!(store.len(), 0);
    assert!(store.get("Frodo").is_none());
}

#[test]
fn create_with_malformed_body_is_a_client_error() {
    let service = Service::standard();
    let store = Repository::new();
    let req = request(Method::Get, "/wizards/1", true);
    assert_eq!(service.respond(req, &store), bare(422));
}

#[test]
fn cookies_greets_and_issues_cookie_instructions() {
    let service = Service::standard();
    let store = Repository::new();
    let mut req = request(Method::Get, "/cookies", true);
    req.cookies.push(Cookie { name: "name".to_string(), value: "Sam".to_string() });
    let expected = Reply::Ready(Response {
        status: 200,
        body: Body::Text("hello, Sam".to_string()),
        cookies: vec![
            CookieChange::Store(Cookie {
                name: "app".to_string(),
                value: "tide_equivalent".to_string(),
            }),
            CookieChange::Forget(Cookie { name: "name".to_string(), value: "foo".to_string() }),
        ],
    });
    assert_eq!(service.respond(req, &store), expected);
}

#[test]
fn cookies_without_the_name_cookie_is_a_bad_request() {
    let service = Service::standard();
    let store = Repository::new();
    let mut req = request(Method::Get, "/cookies", true);
    req.cookies.push(Cookie { name: "other".to_string(), value: "Sam".to_string() });
    assert_eq!(service.respond(req, &store), bare(400));
}

#[test]
fn repeated_requests_get_identical_replies() {
    let service = Service::standard();
    let store = Repository::new();
    for path in ["/", "/cookies", "/wizards/", "/wizards/1", "/www/x", "/nowhere"] {
        for authorized in [true, false] {
            let first = service.respond(request(Method::Get, path, authorized), &store);
            let second = service.respond(request(Method::Get, path, authorized), &store);
            assert_eq!(first, second);
        }
    }
}

#[test]
fn wizards_one_resolves_to_create_never_to_list() {
    let service = Service::standard();
    let found = service.table.dispatch(Method::Get, "/wizards/1").unwrap();
    assert_eq!(found.handler, Handler::Create);
    assert_ne!(found.handler, Handler::ListAll);
    let list = service.table.dispatch(Method::Get, "/wizards/").unwrap();
    assert_eq!(list.handler, Handler::ListAll);
}

#[test]
fn unknown_paths_and_other_methods_have_no_route() {
    let service = Service::standard();
    let store = Repository::new();
    assert_eq!(service.respond(request(Method::Get, "/nowhere", true), &store), bare(404));
    assert_eq!(service.respond(request(Method::Get, "/wizards", true), &store), bare(404));
    assert_eq!(service.respond(request(Method::Get, "/wizards/2", true), &store), bare(404));
    assert_eq!(service.respond(request(Method::Get, "/www/", true), &store), bare(404));
    assert_eq!(service.respond(request(Method::Post, "/", true), &store), bare(404));
    assert_eq!(service.respond(request(Method::Post, "/www/a", true), &store), bare(404));
}

#[test]
fn standard_service_has_five_routes_and_two_middleware() {
    let service = Service::standard();
    assert_eq!(service.table.len(), 5);
    assert_eq!(service.chain, vec![Middleware::Logging, Middleware::AuthorizationGate]);
}

#[test]
fn run_from_a_later_position_skips_earlier_middleware() {
    let service = Service::standard();
    let store = Repository::new();
    assert_eq!(service.run(request(Method::Get, "/", false), 0, &store), forbidden());
    assert_eq!(service.run(request(Method::Get, "/", false), 1, &store), forbidden());
    assert_eq!(service.run(request(Method::Get, "/", false), 2, &store), text(200, "Hello, World"));
    assert_eq!(service.run(request(Method::Get, "/", false), 7, &store), text(200, "Hello, World"));
}

#[test]
fn logging_changes_no_reply() {
    let store = Repository::new();
    let with_logging = Service::standard();
    let mut without = Service::standard();
    without.chain = vec![Middleware::AuthorizationGate];
    for path in ["/", "/cookies", "/wizards/", "/wizards/1", "/www/x", "/nowhere"] {
        for authorized in [true, false] {
            assert_eq!(
                with_logging.respond(request(Method::Get, path, authorized), &store),
                without.respond(request(Method::Get, path, authorized), &store)
            );
        }
    }
}

#[test]
fn a_chain_of_logging_alone_lets_everything_through() {
    let store = Repository::new();
    let mut table = RouteTable::new();
    table.register(Method::Get, "/", Handler::Greeting);
    let service = Service { chain: vec![Middleware::Logging], table };
    assert_eq!(service.respond(request(Method::Get, "/", false), &store), text(200, "Hello, World"));
}

#[test]
fn endpoint_answers_without_the_chain() {
    let service = Service::standard();
    let store = Repository::new();
    let req = request(Method::Get, "/wizards/", false);
    assert_eq!(service.endpoint(&req, &store), sample_list());
}
