//! Plain-value model of one HTTP exchange: the request as the handlers read
//! it, and the response as they build it.

use crate::record::{Wizard, WizardView};
use crate::text::{eq_ignore_ascii_case, same_ignoring_ascii_case, same_text};
use vstd::prelude::*;

verus! {

/// The request methods that the service tells apart.
#[derive(Debug, Clone, Copy, PartialEq, Eq, Structural)]
pub enum Method {
    Get,
    Head,
    Post,
    Put,
    Delete,
    Connect,
    Options,
    Trace,
    Patch,
    /// Any method that has no name here.
    Other,
}

/// One header line of a request.
#[derive(Debug, PartialEq, Eq)]
pub struct Header {
    pub name: String,
    pub value: String,
}

/// The mathematical value of a [`Header`].
pub struct HeaderView {
    pub name: Seq<char>,
    pub value: Seq<char>,
}

impl View for Header {
    type V = HeaderView;

    open spec fn view(&self) -> HeaderView {
        HeaderView { name: self.name@, value: self.value@ }
    }
}

/// A cookie: a name and the value stored under it.
#[derive(Debug, PartialEq, Eq)]
pub struct Cookie {
    pub name: String,
    pub value: String,
}

/// The mathematical value of a [`Cookie`].
pub struct CookieView {
    pub name: Seq<char>,
    pub value: Seq<char>,
}

impl View for Cookie {
    type V = CookieView;

    open spec fn view(&self) -> CookieView {
        CookieView { name: self.name@, value: self.value@ }
    }
}

/// Marks an input that could not be read in the shape a handler expects.
#[derive(Debug, Clone, Copy, PartialEq, Eq, Structural)]
pub struct Malformed;

/// One inbound request, as far as the service reads it.
///
/// `query` is the outcome of reading the query string for the `name`
/// parameter, and `body` the outcome of reading the body as a record.
#[derive(Debug, PartialEq, Eq)]
pub struct Request {
    pub method: Method,
    pub path: String,
    pub headers: Vec<Header>,
    pub cookies: Vec<Cookie>,
    pub query: Result<Option<String>, Malformed>,
    pub body: Result<Wizard, Malformed>,
}

/// The mathematical value of a [`Request`].
pub struct RequestView {
    pub method: Method,
    pub path: Seq<char>,
    pub headers: Seq<HeaderView>,
    pub cookies: Seq<CookieView>,
    pub query: Result<Option<Seq<char>>, Malformed>,
    pub body: Result<WizardView, Malformed>,
}

impl View for Request {
    type V = RequestView;

    open spec fn view(&self) -> RequestView {
        RequestView {
            method: self.method,
            path: self.path@,
            headers: self.headers@.map_values(|h: Header| h@),
            cookies: self.cookies@.map_values(|c: Cookie| c@),
            query: match self.query {
                Ok(Some(name)) => Ok(Some(name@)),
                Ok(None) => Ok(None),
                Err(e) => Err(e),
            },
            body: match self.body {
                Ok(wizard) => Ok(wizard@),
                Err(e) => Err(e),
            },
        }
    }
}

/// Whether some header in `headers` is named `name`, letter case aside.
pub open spec fn has_header(headers: Seq<HeaderView>, name: Seq<char>) -> bool {
    exists|i: int|
        0 <= i < headers.len() && same_ignoring_ascii_case((#[trigger] headers[i]).name, name)
}

/// The last cookie in `cookies` that is named `name`, if there is one.
pub open spec fn cookie_named(cookies: Seq<CookieView>, name: Seq<char>) -> Option<CookieView>
    decreases cookies.len(),
{
    if cookies.len() == 0 {
        None
    } else if cookies.last().name == name {
        Some(cookies.last())
    } else {
        cookie_named(cookies.drop_last(), name)
    }
}

impl Request {
    /// Whether the request carries a header of this name. Header names are
    /// compared without regard to letter case; the value is not looked at.
    pub fn has_header(&self, name: &str) -> (present: bool)
        ensures
            present == has_header(self@.headers, name@),
    {
        let mut i: usize = 0;
        while i < self.headers.len()
            invariant
                i <= self.headers.len(),
                forall|j: int|
                    0 <= j < i ==> !same_ignoring_ascii_case(
                        (#[trigger] self@.headers[j]).name,
                        name@,
                    ),
            decreases self.headers.len() - i,
        {
            if eq_ignore_ascii_case(self.headers[i].name.as_str(), name) {
                assert(same_ignoring_ascii_case(self@.headers[i as int].name, name@));
                return true;
            }
            i = i + 1;
        }
        false
    }

    /// The cookie of this name that the request carries. Where several share
    /// the name, the last one counts.
    pub fn cookie(&self, name: &str) -> (found: Option<&Cookie>)
        ensures
            match found {
                Some(cookie) => cookie_named(self@.cookies, name@) == Some(cookie@),
                None => cookie_named(self@.cookies, name@) is None,
            },
    {
        let mut i: usize = self.cookies.len();
        assert(self@.cookies.subrange(0, i as int) =~= self@.cookies);
        while i > 0
            invariant
                i <= self.cookies.len(),
                cookie_named(self@.cookies, name@) == cookie_named(
                    self@.cookies.subrange(0, i as int),
                    name@,
                ),
            decreases i,
        {
            let ghost front = self@.cookies.subrange(0, i as int);
            assert(front.last() == self.cookies[i - 1]@);
            assert(front.drop_last() =~= self@.cookies.subrange(0, i - 1));
            if same_text(self.cookies[i - 1].name.as_str(), name) {
                return Some(&self.cookies[i - 1]);
            }
            i = i - 1;
        }
        None
    }
}

/// What a response carries as its body.
#[derive(Debug, PartialEq, Eq)]
pub enum Body {
    /// No body.
    Empty,
    /// Plain text.
    Text(String),
    /// A list of records, sent as a JSON array in this order.
    Json(Vec<Wizard>),
}

/// The mathematical value of a [`Body`].
pub enum BodyView {
    Empty,
    Text(Seq<char>),
    Json(Seq<WizardView>),
}

impl View for Body {
    type V = BodyView;

    open spec fn view(&self) -> BodyView {
        match self {
            Body::Empty => BodyView::Empty,
            Body::Text(text) => BodyView::Text(text@),
            Body::Json(records) => BodyView::Json(records@.map_values(|w: Wizard| w@)),
        }
    }
}

/// The media type under which a body is sent.
#[derive(Debug, Clone, Copy, PartialEq, Eq, Structural)]
pub enum ContentType {
    /// `text/plain`
    TextPlain,
    /// `application/json`
    ApplicationJson,
}

/// The media type of a body: text is plain text, a list of records is JSON,
/// and no body has none.
pub open spec fn content_type_of(body: BodyView) -> Option<ContentType> {
    match body {
        BodyView::Empty => None,
        BodyView::Text(_) => Some(ContentType::TextPlain),
        BodyView::Json(_) => Some(ContentType::ApplicationJson),
    }
}

impl Body {
    /// The media type under which this body is sent.
    pub fn content_type(&self) -> (media: Option<ContentType>)
        ensures
            media == content_type_of(self@),
    {
        match self {
            Body::Empty => None,
            Body::Text(_) => Some(ContentType::TextPlain),
            Body::Json(_) => Some(ContentType::ApplicationJson),
        }
    }
}

/// An instruction to the client about one cookie.
#[derive(Debug, PartialEq, Eq)]
pub enum CookieChange {
    /// Store this cookie.
    Store(Cookie),
    /// Forget the cookie of this name.
    Forget(Cookie),
}

/// The mathematical value of a [`CookieChange`].
pub enum CookieChangeView {
    Store(CookieView),
    Forget(CookieView),
}

impl View for CookieChange {
    type V = CookieChangeView;

    open spec fn view(&self) -> CookieChangeView {
        match self {
            CookieChange::Store(cookie) => CookieChangeView::Store(cookie@),
            CookieChange::Forget(cookie) => CookieChangeView::Forget(cookie@),
        }
    }
}

/// A response: status code, body, and the cookie instructions in the order
/// in which they were issued.
#[derive(Debug, PartialEq, Eq)]
pub struct Response {
    pub status: u16,
    pub body: Body,
    pub cookies: Vec<CookieChange>,
}

/// The mathematical value of a [`Response`].
pub struct ResponseView {
    pub status: u16,
    pub body: BodyView,
    pub cookies: Seq<CookieChangeView>,
}

impl View for Response {
    type V = ResponseView;

    open spec fn view(&self) -> ResponseView {
        ResponseView {
            status: self.status,
            body: self.body@,
            cookies: self.cookies@.map_values(|c: CookieChange| c@),
        }
    }
}

/// A response with this status and text body, and no cookie instruction.
pub open spec fn text_response(status: u16, text: Seq<char>) -> ResponseView {
    ResponseView { status, body: BodyView::Text(text), cookies: Seq::empty() }
}

/// A response with this status, no body and no cookie instruction.
pub open spec fn empty_response(status: u16) -> ResponseView {
    ResponseView { status, body: BodyView::Empty, cookies: Seq::empty() }
}

impl Response {
    /// A response with this status and nothing else.
    pub fn new(status: u16) -> (response: Self)
        ensures
            response@ == empty_response(status),
    {
        let response = Response { status, body: Body::Empty, cookies: Vec::new() };
        assert(response@.cookies =~= Seq::empty());
        response
    }

    /// A response with this status and text body.
    pub fn text(status: u16, text: String) -> (response: Self)
        ensures
            response@ == text_response(status, text@),
    {
        let response = Response { status, body: Body::Text(text), cookies: Vec::new() };
        assert(response@.cookies =~= Seq::empty());
        response
    }

    /// Adds the instruction to store `cookie`, after those already issued.
    pub fn insert_cookie(&mut self, cookie: Cookie)
        ensures
            final(self)@ == (ResponseView {
                cookies: old(self)@.cookies.push(CookieChangeView::Store(cookie@)),
                ..old(self)@
            }),
    {
        self.cookies.push(CookieChange::Store(cookie));
        assert(self@.cookies =~= old(self)@.cookies.push(CookieChangeView::Store(cookie@)));
    }

    /// Adds the instruction to forget the cookie named as `cookie` is, after
    /// those already issued.
    pub fn remove_cookie(&mut self, cookie: Cookie)
        ensures
            final(self)@ == (ResponseView {
                cookies: old(self)@.cookies.push(CookieChangeView::Forget(cookie@)),
                ..old(self)@
            }),
    {
        self.cookies.push(CookieChange::Forget(cookie));
        assert(self@.cookies =~= old(self)@.cookies.push(CookieChangeView::Forget(cookie@)));
    }
}

/// Why a request got no regular response.
#[derive(Debug, Clone, Copy, PartialEq, Eq, Structural)]
pub enum Failure {
    /// The query string could not be read.
    MalformedQuery,
    /// The body does not hold a record.
    MalformedBody,
    /// A cookie that the handler needs is absent.
    MissingCookie,
    /// No route matches the method and path.
    NoRoute,
    /// Something failed that the request is not to blame for.
    Internal,
}

/// The status code that stands for `failure`.
pub open spec fn failure_status(failure: Failure) -> u16 {
    match failure {
        Failure::MalformedQuery => 400,
        Failure::MalformedBody => 422,
        Failure::MissingCookie => 400,
        Failure::NoRoute => 404,
        Failure::Internal => 500,
    }
}

impl Failure {
    /// The status code that stands for this failure: a client error for the
    /// failures that the request caused, a server error otherwise.
    pub fn status(self) -> (status: u16)
        ensures
            status == failure_status(self),
            self != Failure::Internal ==> 400 <= status < 500,
            self == Failure::Internal ==> 500 <= status < 600,
    {
        match self {
            Failure::MalformedQuery => 400,
            Failure::MalformedBody => 422,
            Failure::MissingCookie => 400,
            Failure::NoRoute => 404,
            Failure::Internal => 500,
        }
    }

    /// The response that reports this failure: its status and no body.
    pub fn into_response(self) -> (response: Response)
        ensures
            response@ == empty_response(failure_status(self)),
    {
        Response::new(self.status())
    }
}

} // verus!
