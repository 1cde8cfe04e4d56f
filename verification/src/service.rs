//! The pipeline: middleware chain, route dispatch and handler, from request
//! to reply.

use crate::handlers::{
    cookie_handler, cookie_outcome, create, create_outcome, greeting_outcome, handle_name,
    list_outcome, read_all,
};
use crate::http::{
    empty_response, failure_status, Failure, Method, Request, RequestView, Response, ResponseView,
};
use crate::middleware::{authorized, forbidden, rejects, Middleware, MiddlewareOutcome};
use crate::record::Repository;
use crate::router::{
    lemma_match_is_selected, prefixed, route_matches, route_of, selected, selects, Handler,
    RouteTable, RouteView,
};
use vstd::prelude::*;

verus! {

/// How the service answers a request.
#[derive(Debug, PartialEq, Eq)]
pub enum Reply {
    /// With this response.
    Ready(Response),
    /// By leaving it to the static-file collaborator, which serves the file
    /// at this path below its root, or answers 404.
    Static(String),
}

/// The mathematical value of a [`Reply`].
pub enum ReplyView {
    Ready(ResponseView),
    Static(Seq<char>),
}

impl View for Reply {
    type V = ReplyView;

    open spec fn view(&self) -> ReplyView {
        match self {
            Reply::Ready(response) => ReplyView::Ready(response@),
            Reply::Static(path) => ReplyView::Static(path@),
        }
    }
}

/// The response that the outermost boundary makes of a handler's result: the
/// response itself, or the bare status of the failure.
pub open spec fn rendered(outcome: Result<ResponseView, Failure>) -> ResponseView {
    match outcome {
        Ok(response) => response,
        Err(failure) => empty_response(failure_status(failure)),
    }
}

/// Whether the request goes to the static mount.
pub open spec fn is_static(routes: Seq<RouteView>, req: RequestView) -> bool {
    selected(routes, req.method, req.path) matches Some(route) && route.handler == Handler::Static
}

/// What the handler named by `handler` gives for `req`. The static mount
/// has no handler in the service: its requests are handed on.
pub open spec fn handler_outcome(handler: Handler, req: RequestView) -> Result<
    ResponseView,
    Failure,
> {
    match handler {
        Handler::Greeting => greeting_outcome(req),
        Handler::Cookies => cookie_outcome(req),
        Handler::ListAll => list_outcome(),
        Handler::Create => create_outcome(req),
        Handler::Static => Err(Failure::NoRoute),
    }
}

/// What route dispatch and the handler make of `req`: the handler's
/// response, the status of its failure, 404 where no route matches, and for
/// the static mount the path that remains after the mount's prefix.
pub open spec fn endpoint_reply(routes: Seq<RouteView>, req: RequestView) -> ReplyView {
    match selected(routes, req.method, req.path) {
        None => ReplyView::Ready(rendered(Err(Failure::NoRoute))),
        Some(route) => if route.handler == Handler::Static {
            ReplyView::Static(req.path.skip(route.literal.len() as int))
        } else {
            ReplyView::Ready(rendered(handler_outcome(route.handler, req)))
        },
    }
}

/// What the chain from `position` on makes of `req`: the first middleware
/// that rejects answers; if none does, the endpoint answers.
pub open spec fn chain_reply(
    chain: Seq<Middleware>,
    position: int,
    routes: Seq<RouteView>,
    req: RequestView,
) -> ReplyView
    decreases chain.len() - position,
{
    if 0 <= position < chain.len() {
        if rejects(chain[position], req) {
            ReplyView::Ready(forbidden())
        } else {
            chain_reply(chain, position + 1, routes, req)
        }
    } else {
        endpoint_reply(routes, req)
    }
}

/// What the service makes of `req`: the static mount stands outside the
/// chain, every other request runs through it from the start.
pub open spec fn reply_of(chain: Seq<Middleware>, routes: Seq<RouteView>, req: RequestView) -> ReplyView {
    if is_static(routes, req) {
        endpoint_reply(routes, req)
    } else {
        chain_reply(chain, 0, routes, req)
    }
}

/// The routes of the service, in the order of registration.
pub open spec fn standard_routes() -> Seq<RouteView> {
    seq![
        route_of(Method::Get, "/"@, Handler::Greeting),
        route_of(Method::Get, "/cookies"@, Handler::Cookies),
        route_of(Method::Get, "/www/*"@, Handler::Static),
        prefixed("/wizards"@, route_of(Method::Get, "/"@, Handler::ListAll)),
        prefixed("/wizards"@, route_of(Method::Get, "/1"@, Handler::Create)),
    ]
}

/// The middleware of the service, in the order of registration.
pub open spec fn standard_chain() -> Seq<Middleware> {
    seq![Middleware::Logging, Middleware::AuthorizationGate]
}

/// A middleware chain in front of a route table.
#[derive(Debug)]
pub struct Service {
    pub chain: Vec<Middleware>,
    pub table: RouteTable,
}

impl Service {
    /// The service with its own routes and middleware: the greeting at `/`,
    /// the cookie handler at `/cookies`, the static mount below `/www/`, and
    /// below `/wizards` a table of its own with the list at `/` and the
    /// create handler at `/1`; in front of them logging, then the authorization gate.
    pub fn standard() -> (service: Self)
        ensures
            service.chain@ == standard_chain(),
            service.table@ == standard_routes(),
    {
        let mut table = RouteTable::new();
        table.register(Method::Get, "/", Handler::Greeting);
        table.register(Method::Get, "/cookies", Handler::Cookies);
        table.register(Method::Get, "/www/*", Handler::Static);
        let mut api = RouteTable::new();
        api.register(Method::Get, "/", Handler::ListAll);
        api.register(Method::Get, "/1", Handler::Create);
        table.mount("/wizards", &api);
        let mut chain: Vec<Middleware> = Vec::new();
        chain.push(Middleware::Logging);
        chain.push(Middleware::AuthorizationGate);
        assert(table@ =~= standard_routes());
        assert(chain@ =~= standard_chain());
        Service { chain, table }
    }

    /// Dispatches `req` and runs the handler of its route. A failure of the
    /// handler, or the lack of a route, becomes a response here.
    pub fn endpoint(&self, req: &Request, repository: &Repository) -> (reply: Reply)
        ensures
            reply@ == endpoint_reply(self.table@, req@),
    {
        let outcome = match self.table.dispatch(req.method, req.path.as_str()) {
            None => Err(Failure::NoRoute),
            Some(selection) => match selection.handler {
                Handler::Greeting => handle_name(req),
                Handler::Cookies => cookie_handler(req),
                Handler::ListAll => read_all(req),
                Handler::Create => create(req, repository),
                Handler::Static => {
                    let path = req.path.as_str();
                    let rest = path.substring_char(selection.covered, path.unicode_len());
                    return Reply::Static(String::from_str(rest));
                },
            },
        };
        match outcome {
            Ok(response) => Reply::Ready(response),
            Err(failure) => Reply::Ready(failure.into_response()),
        }
    }

    /// Runs the chain from `position` on: each middleware in turn, in the
    /// order of registration, then the endpoint. A middleware that rejects
    /// ends the run with its own response.
    pub fn run(&self, req: Request, position: usize, repository: &Repository) -> (reply: Reply)
        ensures
            reply@ == chain_reply(self.chain@, position as int, self.table@, req@),
        decreases self.chain.len() - position,
    {
        if position < self.chain.len() {
            match self.chain[position].handle(req) {
                MiddlewareOutcome::ShortCircuit(response) => Reply::Ready(response),
                MiddlewareOutcome::Forward(req) => self.run(req, position + 1, repository),
            }
        } else {
            self.endpoint(&req, repository)
        }
    }

    /// Answers `req`. The reply depends on the chain, the routes and the
    /// request alone: the store is lent to the handlers and never changed.
    pub fn respond(&self, req: Request, repository: &Repository) -> (reply: Reply)
        ensures
            reply@ == reply_of(self.chain@, self.table@, req@),
    {
        let goes_to_static = match self.table.dispatch(req.method, req.path.as_str()) {
            Some(selection) => selection.handler == Handler::Static,
            None => false,
        };
        if goes_to_static {
            self.endpoint(&req, repository)
        } else {
            self.run(req, 0, repository)
        }
    }
}

/// The handler that the service's own routes give to a method and path.
pub open spec fn standard_handler(method: Method, path: Seq<char>) -> Option<Handler> {
    if method != Method::Get {
        None
    } else if path == "/"@ {
        Some(Handler::Greeting)
    } else if path == "/cookies"@ {
        Some(Handler::Cookies)
    } else if path == "/wizards/"@ {
        Some(Handler::ListAll)
    } else if path == "/wizards/1"@ {
        Some(Handler::Create)
    } else if "/www/"@.is_prefix_of(path) && path.len() > "/www/"@.len() {
        Some(Handler::Static)
    } else {
        None
    }
}

/// The service's own routes resolve every method and path as
/// [`standard_handler`] says. In particular `/wizards/1` goes to the create
/// handler and `/wizards/` to the list handler, neither to the other, and
/// only `GET` requests resolve at all.
pub proof fn law_standard_routes_resolve(method: Method, path: Seq<char>)
    ensures
        match selected(standard_routes(), method, path) {
            Some(route) => standard_handler(method, path) == Some(route.handler),
            None => standard_handler(method, path) is None,
        },
        selected(standard_routes(), method, path) matches Some(route) ==> (route.handler
            == Handler::Static ==> route.literal == "/www/"@),
{
    reveal_strlit("/");
    reveal_strlit("/cookies");
    reveal_strlit("/www/*");
    reveal_strlit("/www/");
    reveal_strlit("/1");
    reveal_strlit("/wizards");
    reveal_strlit("/wizards/");
    reveal_strlit("/wizards/1");
    let routes = standard_routes();
    assert(routes[0] == RouteView {
        method: Method::Get,
        literal: "/"@,
        wildcard: false,
        handler: Handler::Greeting,
    });
    assert(routes[1] == RouteView {
        method: Method::Get,
        literal: "/cookies"@,
        wildcard: false,
        handler: Handler::Cookies,
    });
    assert("/www/*"@.drop_last() =~= "/www/"@);
    assert(routes[2] == RouteView {
        method: Method::Get,
        literal: "/www/"@,
        wildcard: true,
        handler: Handler::Static,
    });
    assert("/wizards"@ + "/"@ =~= "/wizards/"@);
    assert("/wizards"@ + "/1"@ =~= "/wizards/1"@);
    assert(routes[3] == RouteView {
        method: Method::Get,
        literal: "/wizards/"@,
        wildcard: false,
        handler: Handler::ListAll,
    });
    assert(routes[4] == RouteView {
        method: Method::Get,
        literal: "/wizards/1"@,
        wildcard: false,
        handler: Handler::Create,
    });
    if "/www/"@.is_prefix_of(path) {
        assert(path.subrange(0, 5)[1] == 'w');
    }
    if exists|i: int| selects(routes, method, path, i) {
        let c = choose|i: int| selects(routes, method, path, i);
        assert(route_matches(routes[c], method, path));
    } else {
        if standard_handler(method, path) is Some {
            let k: int = match standard_handler(method, path)->0 {
                Handler::Greeting => 0,
                Handler::Cookies => 1,
                Handler::Static => 2,
                Handler::ListAll => 3,
                Handler::Create => 4,
            };
            assert(route_matches(routes[k], method, path));
            lemma_match_is_selected(routes, method, path);
        }
    }
}

/// What the service with its own routes and middleware answers to `req`:
/// the static mount is handed on without a look at the headers; every other
/// request without an `Authorization` header is forbidden; an authorized one
/// gets what the handler of its route gives, or 404 where it has no route.
pub open spec fn standard_reply(req: RequestView) -> ReplyView {
    match standard_handler(req.method, req.path) {
        Some(Handler::Static) => ReplyView::Static(req.path.skip("/www/"@.len() as int)),
        Some(handler) => if authorized(req) {
            ReplyView::Ready(rendered(handler_outcome(handler, req)))
        } else {
            ReplyView::Ready(forbidden())
        },
        None => if authorized(req) {
            ReplyView::Ready(empty_response(404))
        } else {
            ReplyView::Ready(forbidden())
        },
    }
}

/// The service with its own routes and middleware answers every request as
/// [`standard_reply`] says.
pub proof fn law_standard_service_replies(req: RequestView)
    ensures
        reply_of(standard_chain(), standard_routes(), req) == standard_reply(req),
{
    law_standard_routes_resolve(req.method, req.path);
    if !is_static(standard_routes(), req) {
        if authorized(req) {
            law_authorized_reaches_endpoint(standard_chain(), standard_routes(), req);
        } else {
            assert(standard_chain()[1] == Middleware::AuthorizationGate);
            law_unauthorized_is_forbidden(standard_chain(), standard_routes(), req);
        }
    }
}

/// No request without an `Authorization` header gets past the authorization gate: unless
/// it goes to the static mount, it is answered with status 403 and the text
/// "Forbidden", whatever the routes and whatever else the chain holds. No
/// handler runs.
pub proof fn law_unauthorized_is_forbidden(
    chain: Seq<Middleware>,
    routes: Seq<RouteView>,
    req: RequestView,
)
    requires
        chain.contains(Middleware::AuthorizationGate),
        !authorized(req),
        !is_static(routes, req),
    ensures
        reply_of(chain, routes, req) == ReplyView::Ready(forbidden()),
{
    let k = choose|k: int| 0 <= k < chain.len() && chain[k] == Middleware::AuthorizationGate;
    lemma_gate_ahead_forbids(chain, 0, k, routes, req);
}

proof fn lemma_gate_ahead_forbids(
    chain: Seq<Middleware>,
    position: int,
    k: int,
    routes: Seq<RouteView>,
    req: RequestView,
)
    requires
        0 <= position <= k < chain.len(),
        chain[k] == Middleware::AuthorizationGate,
        !authorized(req),
    ensures
        chain_reply(chain, position, routes, req) == ReplyView::Ready(forbidden()),
    decreases k - position,
{
    if position < k && !rejects(chain[position], req) {
        lemma_gate_ahead_forbids(chain, position + 1, k, routes, req);
    }
}

/// A request with an `Authorization` header passes every middleware: the
/// reply is the one that dispatch and the handler give.
pub proof fn law_authorized_reaches_endpoint(
    chain: Seq<Middleware>,
    routes: Seq<RouteView>,
    req: RequestView,
)
    requires
        authorized(req),
    ensures
        reply_of(chain, routes, req) == endpoint_reply(routes, req),
{
    lemma_authorized_passes(chain, 0, routes, req);
}

proof fn lemma_authorized_passes(
    chain: Seq<Middleware>,
    position: int,
    routes: Seq<RouteView>,
    req: RequestView,
)
    requires
        0 <= position,
        authorized(req),
    ensures
        chain_reply(chain, position, routes, req) == endpoint_reply(routes, req),
    decreases chain.len() - position,
{
    if position < chain.len() {
        lemma_authorized_passes(chain, position + 1, routes, req);
    }
}

/// Logging changes no reply: a chain answers every request as the chain
/// without one of its logging entries does.
pub proof fn law_logging_is_transparent(
    chain: Seq<Middleware>,
    k: int,
    routes: Seq<RouteView>,
    req: RequestView,
)
    requires
        0 <= k < chain.len(),
        chain[k] == Middleware::Logging,
    ensures
        reply_of(chain.remove(k), routes, req) == reply_of(chain, routes, req),
{
    lemma_logging_skipped(chain, k, 0, routes, req);
}

proof fn lemma_logging_skipped(
    chain: Seq<Middleware>,
    k: int,
    position: int,
    routes: Seq<RouteView>,
    req: RequestView,
)
    requires
        0 <= k < chain.len(),
        chain[k] == Middleware::Logging,
        0 <= position <= chain.len(),
    ensures
        chain_reply(chain, position, routes, req) == chain_reply(
            chain.remove(k),
            if position <= k {
                position
            } else {
                position - 1
            },
            routes,
            req,
        ),
    decreases chain.len() - position,
{
    let short = chain.remove(k);
    if position < chain.len() {
        lemma_logging_skipped(chain, k, position + 1, routes, req);
        if position < k {
            assert(short[position] == chain[position]);
        } else if position > k {
            assert(short[position - 1] == chain[position]);
        }
    }
}

/// Middleware run in the order of registration: the reply of a chain is the
/// rejection of its first entry where that entry rejects, else the reply of
/// the entries after it.
pub proof fn law_chain_runs_in_order(
    chain: Seq<Middleware>,
    routes: Seq<RouteView>,
    req: RequestView,
)
    requires
        chain.len() > 0,
    ensures
        chain_reply(chain, 0, routes, req) == if rejects(chain[0], req) {
            ReplyView::Ready(forbidden())
        } else {
            chain_reply(chain.drop_first(), 0, routes, req)
        },
{
    lemma_chain_shift(chain, 1, routes, req);
}

proof fn lemma_chain_shift(
    chain: Seq<Middleware>,
    position: int,
    routes: Seq<RouteView>,
    req: RequestView,
)
    requires
        1 <= position,
        chain.len() > 0,
    ensures
        chain_reply(chain, position, routes, req) == chain_reply(
            chain.drop_first(),
            position - 1,
            routes,
            req,
        ),
    decreases chain.len() - position,
{
    if position < chain.len() {
        lemma_chain_shift(chain, position + 1, routes, req);
        assert(chain.drop_first()[position - 1] == chain[position]);
    }
}

/// Repeating a request repeats the reply: two requests with the same value
/// get the same reply from the same chain and routes, status, body and
/// cookie instructions alike. The store has no part in it.
pub proof fn law_same_request_same_reply(
    chain: Seq<Middleware>,
    routes: Seq<RouteView>,
    first: Request,
    second: Request,
)
    requires
        first@ == second@,
    ensures
        reply_of(chain, routes, first@) == reply_of(chain, routes, second@),
{
}

} // verus!
