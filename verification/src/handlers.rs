//! The route handlers: each reads what it needs from the request and gives
//! a response, or says why it cannot.

use crate::http::{
    cookie_named, text_response, Body, BodyView, Cookie, CookieChangeView, CookieView, Failure,
    Request, RequestView, Response, ResponseView,
};
use crate::record::{default_name, NameParams, Repository, Wizard, WizardView};
use crate::text::{decimal, to_decimal};
use vstd::prelude::*;

verus! {

/// The greeting for `name`.
pub open spec fn greeting(name: Seq<char>) -> Seq<char> {
    "Hello, "@ + name
}

/// What the cookie handler says to the holder of a `name` cookie with this
/// value.
pub open spec fn cookie_greeting(value: Seq<char>) -> Seq<char> {
    "hello, "@ + value
}

/// The line that reports a record.
pub open spec fn level_line(wizard: WizardView) -> Seq<char> {
    wizard.name + " is level "@ + decimal(wizard.level as nat)
}

/// The cookie that every answer of the cookie handler stores.
pub open spec fn identity_cookie() -> CookieView {
    CookieView { name: "app"@, value: "tide_equivalent"@ }
}

/// The cookie that every answer of the cookie handler tells the client to
/// forget. It is fixed: it is not the cookie that the handler read.
pub open spec fn stale_cookie() -> CookieView {
    CookieView { name: "name"@, value: "foo"@ }
}

/// The two records that the list handler always gives, in this order.
pub open spec fn sample_wizards() -> Seq<WizardView> {
    seq![
        WizardView { name: "Gandalf"@, level: 100 },
        WizardView { name: "Merlin"@, level: 10 },
    ]
}

/// The mathematical value of a handler's result.
pub open spec fn outcome_view(result: Result<Response, Failure>) -> Result<ResponseView, Failure> {
    match result {
        Ok(response) => Ok(response@),
        Err(failure) => Err(failure),
    }
}

/// What the greeting handler gives for `req`.
pub open spec fn greeting_outcome(req: RequestView) -> Result<ResponseView, Failure> {
    match req.query {
        Ok(Some(given)) => Ok(text_response(200, greeting(given))),
        Ok(None) => Ok(text_response(200, greeting(default_name()))),
        Err(_) => Err(Failure::MalformedQuery),
    }
}

/// What the cookie handler gives for `req`.
pub open spec fn cookie_outcome(req: RequestView) -> Result<ResponseView, Failure> {
    match cookie_named(req.cookies, "name"@) {
        Some(cookie) => Ok(
            ResponseView {
                status: 200,
                body: BodyView::Text(cookie_greeting(cookie.value)),
                cookies: seq![
                    CookieChangeView::Store(identity_cookie()),
                    CookieChangeView::Forget(stale_cookie()),
                ],
            },
        ),
        None => Err(Failure::MissingCookie),
    }
}

/// What the list handler gives, whatever the request.
pub open spec fn list_outcome() -> Result<ResponseView, Failure> {
    Ok(ResponseView { status: 200, body: BodyView::Json(sample_wizards()), cookies: Seq::empty() })
}

/// What the create handler gives for `req`.
pub open spec fn create_outcome(req: RequestView) -> Result<ResponseView, Failure> {
    match req.body {
        Ok(wizard) => Ok(text_response(201, level_line(wizard))),
        Err(_) => Err(Failure::MalformedBody),
    }
}

/// Greets by name: status 200 and the text "Hello, " followed by the `name`
/// parameter of the query, or by "World" where the query has none. Any name
/// is taken as it is, the empty one too. A query that could not be read is a
/// [`Failure::MalformedQuery`].
pub fn handle_name(req: &Request) -> (result: Result<Response, Failure>)
    ensures
        outcome_view(result) == greeting_outcome(req@),
{
    match &req.query {
        Ok(name) => {
            let params = NameParams::from_query(name.as_ref());
            let mut text = String::from_str("Hello, ");
            text.append(params.name.as_str());
            Ok(Response::text(200, text))
        },
        Err(_) => Err(Failure::MalformedQuery),
    }
}

/// Greets the holder of the `name` cookie: status 200, the text "hello, "
/// followed by the cookie's value, then the instruction to store the
/// identity cookie and the instruction to forget the fixed stale cookie.
/// Without a `name` cookie the request is a [`Failure::MissingCookie`].
pub fn cookie_handler(req: &Request) -> (result: Result<Response, Failure>)
    ensures
        outcome_view(result) == cookie_outcome(req@),
{
    match req.cookie("name") {
        Some(name) => {
            let mut text = String::from_str("hello, ");
            text.append(name.value.as_str());
            let mut res = Response::text(200, text);
            res.insert_cookie(
                Cookie { name: String::from_str("app"), value: String::from_str("tide_equivalent") },
            );
            res.remove_cookie(
                Cookie { name: String::from_str("name"), value: String::from_str("foo") },
            );
            assert(res@.cookies =~= seq![
                CookieChangeView::Store(identity_cookie()),
                CookieChangeView::Forget(stale_cookie()),
            ]);
            Ok(res)
        },
        None => Err(Failure::MissingCookie),
    }
}

/// Lists the sample records: status 200 and, as a JSON body, the two fixed
/// records in their fixed order. Neither the request nor any store is read.
pub fn read_all(_req: &Request) -> (result: Result<Response, Failure>)
    ensures
        outcome_view(result) == list_outcome(),
{
    let mut wizards: Vec<Wizard> = Vec::new();
    wizards.push(Wizard { name: String::from_str("Gandalf"), level: 100 });
    wizards.push(Wizard { name: String::from_str("Merlin"), level: 10 });
    let res = Response { status: 200, body: Body::Json(wizards), cookies: Vec::new() };
    assert(res@.cookies =~= Seq::empty());
    assert(res@.body->Json_0 =~= sample_wizards());
    Ok(res)
}

/// Reports the record that the body holds: status 201 and the text
/// "{name} is level {level}". A body that holds no record is a
/// [`Failure::MalformedBody`]. The record is not put into the store, which
/// is only lent for reading.
pub fn create(req: &Request, _repository: &Repository) -> (result: Result<Response, Failure>)
    ensures
        outcome_view(result) == create_outcome(req@),
{
    match &req.body {
        Ok(wizard) => {
            let mut text = wizard.name.clone();
            text.append(" is level ");
            text.append(to_decimal(wizard.level).as_str());
            Ok(Response::text(201, text))
        },
        Err(_) => Err(Failure::MalformedBody),
    }
}

} // verus!
