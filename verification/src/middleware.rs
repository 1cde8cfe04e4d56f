//! Middleware: interceptors that see a request before the route table does
//! and either pass it on or answer it themselves.

use crate::http::{has_header, text_response, Request, RequestView, Response, ResponseView};
use vstd::prelude::*;

verus! {

/// What a middleware decides about a request.
#[derive(Debug, PartialEq, Eq)]
pub enum MiddlewareOutcome {
    /// Go on with the rest of the chain, on this request.
    Forward(Request),
    /// Stop here and answer with this response.
    ShortCircuit(Response),
}

/// Whether the request carries an `Authorization` header. Only its presence
/// counts, not its value.
pub open spec fn authorized(req: RequestView) -> bool {
    has_header(req.headers, "Authorization"@)
}

/// The answer to a request that is turned away for want of authorization.
pub open spec fn forbidden() -> ResponseView {
    text_response(403, "Forbidden"@)
}

/// The authorization gate. A request with an `Authorization` header is
/// forwarded as it came; any other is answered with status 403 and the text
/// "Forbidden".
pub fn check_req(req: Request) -> (outcome: MiddlewareOutcome)
    ensures
        authorized(req@) ==> outcome == MiddlewareOutcome::Forward(req),
        !authorized(req@) ==> (outcome matches MiddlewareOutcome::ShortCircuit(res) && res@
            == forbidden()),
{
    if !req.has_header("Authorization") {
        let res = Response::text(403, String::from_str("Forbidden"));
        return MiddlewareOutcome::ShortCircuit(res);
    }
    MiddlewareOutcome::Forward(req)
}

/// The kinds of middleware that a chain can hold.
#[derive(Debug, Clone, Copy, PartialEq, Eq, Structural)]
pub enum Middleware {
    /// Observes the exchange for diagnostics. It changes nothing and never
    /// answers a request itself.
    Logging,
    /// The authorization gate, see [`check_req`].
    AuthorizationGate,
}

/// Whether `middleware` answers `req` itself rather than passing it on.
pub open spec fn rejects(middleware: Middleware, req: RequestView) -> bool {
    middleware == Middleware::AuthorizationGate && !authorized(req)
}

impl Middleware {
    /// Applies this middleware to a request: the authorization gate forwards or forbids,
    /// logging always forwards the request unchanged.
    pub fn handle(&self, req: Request) -> (outcome: MiddlewareOutcome)
        ensures
            !rejects(*self, req@) ==> outcome == MiddlewareOutcome::Forward(req),
            rejects(*self, req@) ==> (outcome matches MiddlewareOutcome::ShortCircuit(res)
                && res@ == forbidden()),
    {
        match self {
            Middleware::Logging => MiddlewareOutcome::Forward(req),
            Middleware::AuthorizationGate => check_req(req),
        }
    }
}

} // verus!
