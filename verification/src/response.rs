//! Response statuses and the response value handed to the wire encoders.

use vstd::prelude::*;
use vstd::slice::slice_to_vec;
use vstd::string::*;
use vstd::utf8::encode_utf8;
use crate::text::str_eq;

verus! {

broadcast use vstd::string::group_string_axioms;

/// The closed set of outcomes a request can have.
#[derive(Copy, Clone, Debug, PartialEq, Eq, Structural)]
pub enum Status {
    Success,
    TemporaryRedirect,
    PermanentRedirect,
    Unauthenticated,
    Unauthorized,
    NotFound,
    RequestTooLarge,
    RateLimit,
    OtherServerError,
    OtherClientError,
}

/// A status token that names no status.
#[derive(Copy, Clone, Debug, PartialEq, Eq, Structural)]
pub struct UnknownStatusError;

impl Status {
    /// The token that names this status in error-document file names and in
    /// the control block of rendered output.
    pub open spec fn token(self) -> Seq<char> {
        match self {
            Status::Success => "success"@,
            Status::TemporaryRedirect => "temporary_redirect"@,
            Status::PermanentRedirect => "permanent_redirect"@,
            Status::Unauthenticated => "unauthenticated"@,
            Status::Unauthorized => "unauthorized"@,
            Status::NotFound => "not_found"@,
            Status::RequestTooLarge => "request_too_large"@,
            Status::RateLimit => "rate_limited"@,
            Status::OtherServerError => "other_server_error"@,
            Status::OtherClientError => "other_client_error"@,
        }
    }

    /// The status that a token names, if any.
    pub open spec fn from_token(s: Seq<char>) -> Option<Status> {
        if s == "success"@ {
            Some(Status::Success)
        } else if s == "temporary_redirect"@ {
            Some(Status::TemporaryRedirect)
        } else if s == "permanent_redirect"@ {
            Some(Status::PermanentRedirect)
        } else if s == "unauthenticated"@ {
            Some(Status::Unauthenticated)
        } else if s == "unauthorized"@ {
            Some(Status::Unauthorized)
        } else if s == "not_found"@ {
            Some(Status::NotFound)
        } else if s == "request_too_large"@ {
            Some(Status::RequestTooLarge)
        } else if s == "rate_limited"@ {
            Some(Status::RateLimit)
        } else if s == "other_server_error"@ {
            Some(Status::OtherServerError)
        } else if s == "other_client_error"@ {
            Some(Status::OtherClientError)
        } else {
            None
        }
    }

    /// The plain-text body sent when no error document can be loaded.
    pub open spec fn label(self) -> Seq<char> {
        match self {
            Status::Success => "Success"@,
            Status::TemporaryRedirect => "Temporary redirect"@,
            Status::PermanentRedirect => "Permanent redirect"@,
            Status::Unauthenticated => "Unauthenticated"@,
            Status::Unauthorized => "Unauthorized"@,
            Status::NotFound => "Not found"@,
            Status::RequestTooLarge => "Request too large"@,
            Status::RateLimit => "Rate limited"@,
            Status::OtherServerError => "Other server error"@,
            Status::OtherClientError => "Other client error"@,
        }
    }

    /// The token of this status as a string.
    pub fn to_string(&self) -> (s: String)
        ensures
            s@ == self.token(),
    {
        self.token_str().to_owned()
    }

    /// The token of this status.
    pub fn token_str(&self) -> (s: &'static str)
        ensures
            s@ == self.token(),
    {
        match self {
            Status::Success => "success",
            Status::TemporaryRedirect => "temporary_redirect",
            Status::PermanentRedirect => "permanent_redirect",
            Status::Unauthenticated => "unauthenticated",
            Status::Unauthorized => "unauthorized",
            Status::NotFound => "not_found",
            Status::RequestTooLarge => "request_too_large",
            Status::RateLimit => "rate_limited",
            Status::OtherServerError => "other_server_error",
            Status::OtherClientError => "other_client_error",
        }
    }

    /// The fallback body text of this status.
    pub fn label_str(&self) -> (s: &'static str)
        ensures
            s@ == self.label(),
    {
        match self {
            Status::Success => "Success",
            Status::TemporaryRedirect => "Temporary redirect",
            Status::PermanentRedirect => "Permanent redirect",
            Status::Unauthenticated => "Unauthenticated",
            Status::Unauthorized => "Unauthorized",
            Status::NotFound => "Not found",
            Status::RequestTooLarge => "Request too large",
            Status::RateLimit => "Rate limited",
            Status::OtherServerError => "Other server error",
            Status::OtherClientError => "Other client error",
        }
    }

    /// Reads a status token. Every token names at most one status; any other
    /// text is an `UnknownStatusError`.
    pub fn from_str(s: &str) -> (r: Result<Status, UnknownStatusError>)
        ensures
            r == match Status::from_token(s@) {
                Some(status) => Ok::<Status, UnknownStatusError>(status),
                None => Err(UnknownStatusError),
            },
    {
        if str_eq(s, "success") {
            Ok(Status::Success)
        } else if str_eq(s, "temporary_redirect") {
            Ok(Status::TemporaryRedirect)
        } else if str_eq(s, "permanent_redirect") {
            Ok(Status::PermanentRedirect)
        } else if str_eq(s, "unauthenticated") {
            Ok(Status::Unauthenticated)
        } else if str_eq(s, "unauthorized") {
            Ok(Status::Unauthorized)
        } else if str_eq(s, "not_found") {
            Ok(Status::NotFound)
        } else if str_eq(s, "request_too_large") {
            Ok(Status::RequestTooLarge)
        } else if str_eq(s, "rate_limited") {
            Ok(Status::RateLimit)
        } else if str_eq(s, "other_server_error") {
            Ok(Status::OtherServerError)
        } else if str_eq(s, "other_client_error") {
            Ok(Status::OtherClientError)
        } else {
            Err(UnknownStatusError)
        }
    }

    /// Whether this status is one of the two redirects.
    pub open spec fn is_redirect(self) -> bool {
        self == Status::TemporaryRedirect || self == Status::PermanentRedirect
    }

    /// Reading the token of a status gives that status back: the ten tokens
    /// are pairwise different.
    pub proof fn lemma_token_round_trip(self)
        ensures
            Status::from_token(self.token()) == Some(self),
    {
        reveal_strlit("success");
        reveal_strlit("temporary_redirect");
        reveal_strlit("permanent_redirect");
        reveal_strlit("unauthenticated");
        reveal_strlit("unauthorized");
        reveal_strlit("not_found");
        reveal_strlit("request_too_large");
        reveal_strlit("rate_limited");
        reveal_strlit("other_server_error");
        reveal_strlit("other_client_error");
        assert("success"@.len() == 7);
        assert("temporary_redirect"@.len() == 18 && "temporary_redirect"@[0] == 't');
        assert("permanent_redirect"@.len() == 18 && "permanent_redirect"@[0] == 'p');
        assert("unauthenticated"@.len() == 15);
        assert("unauthorized"@.len() == 12 && "unauthorized"@[0] == 'u');
        assert("not_found"@.len() == 9);
        assert("request_too_large"@.len() == 17);
        assert("rate_limited"@.len() == 12 && "rate_limited"@[0] == 'r');
        assert("other_server_error"@.len() == 18 && "other_server_error"@[0] == 'o'
            && "other_server_error"@[6] == 's');
        assert("other_client_error"@.len() == 18 && "other_client_error"@[0] == 'o'
            && "other_client_error"@[6] == 'c');
    }
}

/// The mathematical value of a `Response`.
pub ghost struct ResponseView {
    pub status: Status,
    pub media_type: Seq<char>,
    pub redirect_uri: Seq<char>,
    pub body: Seq<u8>,
    pub cacheable: bool,
}

/// What is sent back to a client: a status, and either a body with its media
/// type or a redirect target.
#[derive(Clone, Debug)]
pub struct Response {
    status: Status,
    media_type: String,
    redirect_uri: String,
    body: Vec<u8>,
    cacheable: bool,
}

impl View for Response {
    type V = ResponseView;

    closed spec fn view(&self) -> ResponseView {
        ResponseView {
            status: self.status,
            media_type: self.media_type@,
            redirect_uri: self.redirect_uri@,
            body: self.body@,
            cacheable: self.cacheable,
        }
    }
}

impl Response {
    /// A response that carries a body and no redirect target.
    pub fn new(status: Status, media_type: &str, body: &[u8], cacheable: bool) -> (r: Response)
        ensures
            r@ == (ResponseView {
                status,
                media_type: media_type@,
                redirect_uri: Seq::empty(),
                body: body@,
                cacheable,
            }),
    {
        Response {
            status,
            media_type: media_type.to_owned(),
            redirect_uri: String::new(),
            body: slice_to_vec(body),
            cacheable,
        }
    }

    /// A response that carries a redirect target and no body.
    pub fn new_with_redirect_uri(status: Status, redirect_uri: &str) -> (r: Response)
        ensures
            r@ == (ResponseView {
                status,
                media_type: Seq::empty(),
                redirect_uri: redirect_uri@,
                body: Seq::empty(),
                cacheable: false,
            }),
    {
        Response {
            status,
            media_type: String::new(),
            redirect_uri: redirect_uri.to_owned(),
            body: Vec::new(),
            cacheable: false,
        }
    }

    /// The plain-text response for `status` that is sent when no error
    /// document can be loaded: the status's label as `text/plain`, never
    /// cacheable.
    pub fn fallback_for_status(status: Status) -> (r: Response)
        ensures
            r@ == Response::fallback_view(status),
    {
        Response::new(status, "text/plain", status.label_str().as_bytes(), false)
    }

    /// The value of the plain-text fallback response for `status`.
    pub open spec fn fallback_view(status: Status) -> ResponseView {
        ResponseView {
            status,
            media_type: "text/plain"@,
            redirect_uri: Seq::empty(),
            body: encode_utf8(status.label()),
            cacheable: false,
        }
    }

    /// The error document for `status` made of a loaded document: its media
    /// type and body under `status`, never cacheable and without a redirect.
    pub fn error_document(status: Status, loaded: &Response) -> (r: Response)
        ensures
            r@ == Response::error_document_view(status, loaded@),
    {
        Response::new(status, loaded.media_type(), loaded.body(), false)
    }

    /// The value of the error document for `status` made of `loaded`.
    pub open spec fn error_document_view(status: Status, loaded: ResponseView) -> ResponseView {
        ResponseView {
            status,
            media_type: loaded.media_type,
            redirect_uri: Seq::empty(),
            body: loaded.body,
            cacheable: false,
        }
    }

    pub fn status(&self) -> (r: &Status)
        ensures
            *r == self@.status,
    {
        &self.status
    }

    pub fn media_type(&self) -> (r: &str)
        ensures
            r@ == self@.media_type,
    {
        self.media_type.as_str()
    }

    pub fn redirect_uri(&self) -> (r: &str)
        ensures
            r@ == self@.redirect_uri,
    {
        self.redirect_uri.as_str()
    }

    pub fn body(&self) -> (r: &[u8])
        ensures
            r@ == self@.body,
    {
        self.body.as_slice()
    }

    pub fn cacheable(&self) -> (r: bool)
        ensures
            r == self@.cacheable,
    {
        self.cacheable
    }
}

} // verus!
