//! The two wire protocols: their status tables, media types, recognised file
//! extensions, and the encoding of a response as bytes.

use vstd::prelude::*;
use vstd::slice::slice_to_vec;
use vstd::string::*;
use vstd::utf8::{decode_utf8, encode_utf8, valid_utf8};
use crate::response::{Response, ResponseView, Status};
use crate::text::{
    bytes_start_with, chars_find_from, chars_range, decimal, decimal_string, find_from, first_line,
    starts_with, str_concat, str_eq, str_first_line, to_chars, utf8_to_string,
};

verus! {

broadcast use vstd::string::group_string_axioms;

/// How long, in seconds, a client may keep a cacheable response.
pub const CACHEABLE_MAX_AGE_SECONDS: u16 = 14_400;

/// The wire protocol of a request: the line-oriented one or the one with
/// headers.
#[derive(Copy, Clone, Debug, PartialEq, Eq, Structural)]
pub enum Protocol {
    Gemini,
    Https,
}

/// The parts of a request's URL that the server reads.
#[derive(Clone, Debug)]
pub struct RequestUrl {
    pub scheme: String,
    pub path: String,
}

/// The mathematical value of a `RequestUrl`.
pub ghost struct RequestUrlView {
    pub scheme: Seq<char>,
    pub path: Seq<char>,
}

impl View for RequestUrl {
    type V = RequestUrlView;

    open spec fn view(&self) -> RequestUrlView {
        RequestUrlView { scheme: self.scheme@, path: self.path@ }
    }
}

/// One header of a request of the header protocol.
#[derive(Clone, Debug)]
pub struct HttpHeader {
    pub name: String,
    pub value: Vec<u8>,
}

/// The mathematical value of an `HttpHeader`.
pub ghost struct HttpHeaderView {
    pub name: Seq<char>,
    pub value: Seq<u8>,
}

impl View for HttpHeader {
    type V = HttpHeaderView;

    open spec fn view(&self) -> HttpHeaderView {
        HttpHeaderView { name: self.name@, value: self.value@ }
    }
}

/// What the request parser makes of a buffer.
#[derive(Clone, Debug)]
pub enum HttpHead {
    /// A whole request head, with its target and its headers in order.
    Complete { path: Option<String>, headers: Vec<HttpHeader> },
    /// The buffer ends before the head does.
    Partial,
    /// The buffer does not hold a request head.
    Invalid,
}

/// The mathematical value of an `HttpHead`.
pub ghost enum HttpHeadView {
    Complete { path: Option<Seq<char>>, headers: Seq<HttpHeaderView> },
    Partial,
    Invalid,
}

/// The values of a list of headers.
pub open spec fn header_views(headers: Seq<HttpHeader>) -> Seq<HttpHeaderView> {
    Seq::new(headers.len(), |i: int| headers[i]@)
}

impl View for HttpHead {
    type V = HttpHeadView;

    open spec fn view(&self) -> HttpHeadView {
        match self {
            HttpHead::Complete { path, headers } => HttpHeadView::Complete {
                path: match path {
                    Some(p) => Some(p@),
                    None => None,
                },
                headers: header_views(headers@),
            },
            HttpHead::Partial => HttpHeadView::Partial,
            HttpHead::Invalid => HttpHeadView::Invalid,
        }
    }
}

/// Why a request buffer could not be decoded.
#[derive(Copy, Clone, Debug, PartialEq, Eq, Structural)]
pub enum DecodeError {
    /// The buffer starts like a request of the line protocol and is not UTF-8.
    GeminiNotUtf8,
    /// The path of the URL of a request of the line protocol climbs above
    /// its start.
    GeminiPathClimbs,
    /// The first line of a request of the line protocol is no absolute URL.
    GeminiBadUrl,
    /// The buffer does not hold a request head of the header protocol.
    HttpBadRequest,
    /// The request head of the header protocol does not end within the buffer.
    HttpTooLarge,
    /// The target of a request of the header protocol climbs above its
    /// start.
    HttpPathClimbs,
    /// Host and target of a request of the header protocol make no URL.
    HttpBadUrl,
}

impl DecodeError {
    /// The protocol in which the failure is reported to the client.
    pub open spec fn spec_protocol(self) -> Protocol {
        match self {
            DecodeError::GeminiNotUtf8 => Protocol::Gemini,
            DecodeError::GeminiPathClimbs => Protocol::Gemini,
            DecodeError::GeminiBadUrl => Protocol::Gemini,
            _ => Protocol::Https,
        }
    }

    /// The status with which the failure is reported to the client.
    pub open spec fn spec_status(self) -> Status {
        match self {
            DecodeError::HttpTooLarge => Status::RequestTooLarge,
            _ => Status::OtherClientError,
        }
    }

    /// The protocol in which the failure is reported to the client.
    pub fn protocol(&self) -> (p: Protocol)
        ensures
            p == self.spec_protocol(),
    {
        match self {
            DecodeError::GeminiNotUtf8 => Protocol::Gemini,
            DecodeError::GeminiPathClimbs => Protocol::Gemini,
            DecodeError::GeminiBadUrl => Protocol::Gemini,
            _ => Protocol::Https,
        }
    }

    /// The status with which the failure is reported to the client.
    pub fn status(&self) -> (s: Status)
        ensures
            s == self.spec_status(),
    {
        match self {
            DecodeError::HttpTooLarge => Status::RequestTooLarge,
            _ => Status::OtherClientError,
        }
    }

    /// A sentence for the log.
    pub open spec fn spec_message(self) -> Seq<char> {
        match self {
            DecodeError::GeminiNotUtf8 => "request looks like gemini but is not a valid UTF-8 seq"@,
            DecodeError::GeminiPathClimbs => "gemini url climbs above its root"@,
            DecodeError::GeminiBadUrl => "error parsing gemini url"@,
            DecodeError::HttpBadRequest => "error parsing http request"@,
            DecodeError::HttpTooLarge => "http request is too large"@,
            DecodeError::HttpPathClimbs => "http request target climbs above its root"@,
            DecodeError::HttpBadUrl => "error converting http req to a url"@,
        }
    }

    /// A sentence for the log.
    pub fn message(&self) -> (s: String)
        ensures
            s@ == self.spec_message(),
    {
        match self {
            DecodeError::GeminiNotUtf8 => "request looks like gemini but is not a valid UTF-8 seq".to_owned(),
            DecodeError::GeminiPathClimbs => "gemini url climbs above its root".to_owned(),
            DecodeError::GeminiBadUrl => "error parsing gemini url".to_owned(),
            DecodeError::HttpBadRequest => "error parsing http request".to_owned(),
            DecodeError::HttpTooLarge => "http request is too large".to_owned(),
            DecodeError::HttpPathClimbs => "http request target climbs above its root".to_owned(),
            DecodeError::HttpBadUrl => "error converting http req to a url".to_owned(),
        }
    }
}

/// Scheme and path of the absolute URL that `text` holds, as the URL parser
/// reads it; `None` where the parser refuses `text`.
pub uninterp spec fn url_parts(text: Seq<char>) -> Option<RequestUrlView>;

/// What the request parser makes of `buf`, with room for sixteen headers.
pub uninterp spec fn http_head(buf: Seq<u8>) -> HttpHeadView;

/// Parses an absolute URL (`url::Url::parse`) and keeps its scheme
/// (`Url::scheme`) and its path (`Url::path`). The parser reads nothing but
/// its argument, so the outcome is a function of the text.
#[verifier::external_body]
fn parse_url(text: &str) -> (r: Option<RequestUrl>)
    ensures
        r is Some <==> url_parts(text@) is Some,
        r matches Some(u) ==> Some(u@) == url_parts(text@),
{
    match url::Url::parse(text) {
        Ok(u) => Some(RequestUrl { scheme: u.scheme().to_string(), path: u.path().to_string() }),
        Err(_) => None,
    }
}

/// Parses a request head (`httparse::ParserConfig::parse_request`) into at
/// most sixteen headers. The parser reads nothing but the buffer, so the
/// outcome is a function of the bytes: a complete head with its target and
/// headers, a head that the buffer cuts short, or a refusal.
#[verifier::external_body]
fn parse_http_head(buf: &[u8]) -> (r: HttpHead)
    ensures
        r@ == http_head(buf@),
{
    let mut slots = [httparse::EMPTY_HEADER; 16];
    let mut req = httparse::Request::new(&mut slots);
    match httparse::ParserConfig::default().parse_request(&mut req, buf) {
        Err(_) => HttpHead::Invalid,
        Ok(httparse::Status::Partial) => HttpHead::Partial,
        Ok(httparse::Status::Complete(_)) => HttpHead::Complete {
            path: req.path.map(|p| p.to_string()),
            headers: req.headers.iter().map(
                |h| HttpHeader { name: h.name.to_string(), value: h.value.to_vec() },
            ).collect(),
        },
    }
}

/// Whether a header name is `Host`, in any mix of upper and lower case.
pub open spec fn is_host_name(name: Seq<char>) -> bool {
    &&& name.len() == 4
    &&& (name[0] == 'H' || name[0] == 'h')
    &&& (name[1] == 'O' || name[1] == 'o')
    &&& (name[2] == 'S' || name[2] == 's')
    &&& (name[3] == 'T' || name[3] == 't')
}

/// The value of the first `Host` header at or after position `from`.
pub open spec fn find_host(headers: Seq<HttpHeaderView>, from: int) -> Option<Seq<u8>>
    decreases headers.len() - from,
{
    if from < 0 || from >= headers.len() {
        None
    } else if is_host_name(headers[from].name) {
        Some(headers[from].value)
    } else {
        find_host(headers, from + 1)
    }
}

/// The host a request of the header protocol is for: the value of its first
/// `Host` header where that is UTF-8, the default host name otherwise.
pub open spec fn request_host(headers: Seq<HttpHeaderView>, default_hostname: Seq<char>) -> Seq<
    char,
> {
    match find_host(headers, 0) {
        Some(value) => if valid_utf8(value) {
            decode_utf8(value)
        } else {
            default_hostname
        },
        None => default_hostname,
    }
}

/// Whether a character separates the segments of a path: the slash and,
/// where `backslash` says so, the backslash, which the header protocol's
/// URLs read as a slash.
pub open spec fn is_separator(c: char, backslash: bool) -> bool {
    c == '/' || (backslash && c == '\\')
}

/// Whether a character ends the path of a target: the question mark that
/// starts a query and the number sign that starts a fragment.
pub open spec fn ends_path(c: char) -> bool {
    c == '?' || c == '#'
}

/// One more dot, if there are dots only.
pub open spec fn one_more(dots: Option<nat>) -> Option<nat> {
    match dots {
        Some(n) => Some(n + 1),
        None => None,
    }
}

/// The number of dots that a segment holds from position `i` on, where it
/// holds nothing but dots there. A dot is written `.`, `%2e` or `%2E`.
pub open spec fn dots_from(segment: Seq<char>, i: int) -> Option<nat>
    decreases segment.len() - i,
{
    if i < 0 || i >= segment.len() {
        Some(0)
    } else if segment[i] == '.' {
        one_more(dots_from(segment, i + 1))
    } else if segment[i] == '%' && i + 2 < segment.len() && segment[i + 1] == '2' && (segment[i
        + 2] == 'e' || segment[i + 2] == 'E') {
        one_more(dots_from(segment, i + 3))
    } else {
        None
    }
}

/// Whether a segment stands for the directory above: it is made of two dots.
pub open spec fn is_double_dot(segment: Seq<char>) -> bool {
    dots_from(segment, 0) == Some(2nat)
}

/// Whether a segment stands for the directory itself: it is made of one dot.
pub open spec fn is_single_dot(segment: Seq<char>) -> bool {
    dots_from(segment, 0) == Some(1nat)
}

/// Whether the rest of a path climbs above the start of the path, read from
/// position `i` on, where the segment in reading began at `start` and
/// `depth` segments lie below the start. A segment of two dots goes one
/// segment up, a segment of one dot stays, any other segment goes one down;
/// the path climbs where a segment of two dots goes up from the start.
pub open spec fn climbs_from(path: Seq<char>, backslash: bool, i: int, start: int, depth: nat) -> bool
    decreases path.len() - i,
{
    if i < 0 || start < 0 || start > i {
        false
    } else if i >= path.len() || ends_path(path[i]) {
        depth == 0 && start <= path.len() && is_double_dot(
            path.subrange(
                start,
                if i < path.len() {
                    i
                } else {
                    path.len() as int
                },
            ),
        )
    } else if is_separator(path[i], backslash) {
        let segment = path.subrange(start, i);
        if is_double_dot(segment) {
            depth == 0 || climbs_from(path, backslash, i + 1, i + 1, (depth - 1) as nat)
        } else if is_single_dot(segment) {
            climbs_from(path, backslash, i + 1, i + 1, depth)
        } else {
            climbs_from(path, backslash, i + 1, i + 1, depth + 1)
        }
    } else {
        climbs_from(path, backslash, i + 1, start, depth)
    }
}

/// Whether the `..` segments of a path climb above its start, as in
/// `/secret/../../etc/passwd`. The path ends where a query or a fragment
/// starts.
pub open spec fn path_climbs(path: Seq<char>, backslash: bool) -> bool {
    if path.len() > 0 && is_separator(path[0], backslash) {
        climbs_from(path, backslash, 1, 1, 0)
    } else {
        climbs_from(path, backslash, 0, 0, 0)
    }
}

/// Position of the first slash, question mark or number sign at or after
/// `from`, or the length of `s`.
pub open spec fn path_mark_from(s: Seq<char>, from: int) -> int
    decreases s.len() - from,
{
    if from < 0 || from >= s.len() {
        s.len() as int
    } else if s[from] == '/' || ends_path(s[from]) {
        from
    } else {
        path_mark_from(s, from + 1)
    }
}

/// Where the path starts in the text of a URL: behind the authority where
/// `//` follows the colon of the scheme, directly behind the colon
/// otherwise; a text without a colon is a path as a whole.
pub open spec fn url_path_start(text: Seq<char>) -> int {
    let colon = find_from(text, ':', 0);
    if colon >= text.len() {
        0
    } else if text.len() - colon > 2 && text[colon + 1] == '/' && text[colon + 2] == '/' {
        path_mark_from(text, colon + 3)
    } else {
        colon + 1
    }
}

/// Whether the path of the URL that a text holds climbs above its start.
pub open spec fn url_climbs(text: Seq<char>) -> bool {
    path_climbs(text.skip(url_path_start(text)), false)
}

/// The text of the URL that a request of the line protocol asks for: its
/// first line. A buffer that is not UTF-8 holds no such text, and a URL
/// whose path climbs above its start is refused.
pub open spec fn line_url_text(buf: Seq<u8>) -> Result<Seq<char>, DecodeError> {
    if !valid_utf8(buf) {
        Err(DecodeError::GeminiNotUtf8)
    } else if url_climbs(first_line(decode_utf8(buf))) {
        Err(DecodeError::GeminiPathClimbs)
    } else {
        Ok(first_line(decode_utf8(buf)))
    }
}

/// The text of the URL that a parsed request of the header protocol asks
/// for: `https://`, the host and the request target, where a missing target
/// counts as `/`. A head that is cut short is too large, one that is refused
/// is a bad request, and a target that climbs above its start is refused.
pub open spec fn head_url_text(head: HttpHeadView, default_hostname: Seq<char>) -> Result<
    Seq<char>,
    DecodeError,
> {
    match head {
        HttpHeadView::Invalid => Err(DecodeError::HttpBadRequest),
        HttpHeadView::Partial => Err(DecodeError::HttpTooLarge),
        HttpHeadView::Complete { path, headers } => match path {
            Some(target) => if path_climbs(target, true) {
                Err(DecodeError::HttpPathClimbs)
            } else {
                Ok("https://"@ + request_host(headers, default_hostname) + target)
            },
            None => Ok("https://"@ + request_host(headers, default_hostname) + "/"@),
        },
    }
}

/// The URL that a text holds, or the given failure where it holds none.
pub open spec fn url_or(text: Seq<char>, failure: DecodeError) -> Result<
    RequestUrlView,
    DecodeError,
> {
    match url_parts(text) {
        Some(url) => Ok(url),
        None => Err(failure),
    }
}

/// The URL a request buffer asks for, or why it cannot be decoded.
///
/// A buffer that starts with `gemini:` belongs to the line protocol: its
/// first line is the URL. Any other buffer belongs to the header protocol:
/// the URL is made of the host and the target of the request that the buffer
/// holds.
pub open spec fn decode(default_hostname: Seq<char>, buf: Seq<u8>) -> Result<
    RequestUrlView,
    DecodeError,
> {
    if starts_with(buf, encode_utf8("gemini:"@)) {
        match line_url_text(buf) {
            Ok(text) => url_or(text, DecodeError::GeminiBadUrl),
            Err(e) => Err(e),
        }
    } else {
        match head_url_text(http_head(buf), default_hostname) {
            Ok(text) => url_or(text, DecodeError::HttpBadUrl),
            Err(e) => Err(e),
        }
    }
}

/// The value of a text or a failure.
pub open spec fn text_result_view(r: Result<String, DecodeError>) -> Result<
    Seq<char>,
    DecodeError,
> {
    match r {
        Ok(text) => Ok(text@),
        Err(e) => Err(e),
    }
}

/// The value of a URL or a failure.
pub open spec fn url_result_view(r: Result<RequestUrl, DecodeError>) -> Result<
    RequestUrlView,
    DecodeError,
> {
    match r {
        Ok(url) => Ok(url@),
        Err(e) => Err(e),
    }
}

/// Whether a header name is `Host`, in any mix of upper and lower case.
pub fn header_is_host(name: &str) -> (r: bool)
    ensures
        r == is_host_name(name@),
{
    let n = to_chars(name);
    n.len() == 4 && (n[0] == 'H' || n[0] == 'h') && (n[1] == 'O' || n[1] == 'o') && (n[2] == 'S'
        || n[2] == 's') && (n[3] == 'T' || n[3] == 't')
}

/// The host a request of the header protocol is for.
pub fn host_of_request(headers: &Vec<HttpHeader>, default_hostname: &str) -> (host: String)
    ensures
        host@ == request_host(header_views(headers@), default_hostname@),
{
    let mut i: usize = 0;
    while i < headers.len()
        invariant
            i <= headers.len(),
            find_host(header_views(headers@), 0) == find_host(header_views(headers@), i as int),
        decreases headers.len() - i,
    {
        if header_is_host(headers[i].name.as_str()) {
            return match utf8_to_string(headers[i].value.as_slice()) {
                Some(host) => host,
                None => default_hostname.to_owned(),
            };
        }
        i += 1;
    }
    default_hostname.to_owned()
}

/// How a segment of a path moves through the directories.
#[derive(Copy, Clone, Debug, PartialEq, Eq, Structural)]
pub enum Segment {
    /// One directory down.
    Down,
    /// No move: the segment is one dot.
    Stay,
    /// One directory up: the segment is two dots.
    Up,
}

/// How a segment moves.
pub open spec fn segment_move(segment: Seq<char>) -> Segment {
    if is_double_dot(segment) {
        Segment::Up
    } else if is_single_dot(segment) {
        Segment::Stay
    } else {
        Segment::Down
    }
}

/// How a segment moves (see `segment_move`).
pub fn move_of_segment(segment: &[char]) -> (r: Segment)
    ensures
        r == segment_move(segment@),
{
    let mut i: usize = 0;
    let mut dots: usize = 0;
    while i < segment.len()
        invariant
            i <= segment.len(),
            dots <= i,
            dots_from(segment@, 0) == match dots_from(segment@, i as int) {
                Some(more) => Some((more + dots) as nat),
                None => None::<nat>,
            },
        decreases segment.len() - i,
    {
        if segment[i] == '.' {
            i += 1;
        } else if segment[i] == '%' && segment.len() - i > 2 && segment[i + 1] == '2' && (segment[i
            + 2] == 'e' || segment[i + 2] == 'E') {
            i += 3;
        } else {
            return Segment::Down;
        }
        dots += 1;
    }
    if dots == 2 {
        Segment::Up
    } else if dots == 1 {
        Segment::Stay
    } else {
        Segment::Down
    }
}

/// Whether a character separates the segments of a path.
fn separates(c: char, backslash: bool) -> (r: bool)
    ensures
        r == is_separator(c, backslash),
{
    c == '/' || (backslash && c == '\\')
}

/// Whether the `..` segments of a path climb above its start (see
/// `path_climbs`).
pub fn chars_climb(path: &[char], backslash: bool) -> (r: bool)
    ensures
        r == path_climbs(path@, backslash),
{
    let first: usize = if path.len() > 0 && separates(path[0], backslash) {
        1
    } else {
        0
    };
    let mut i: usize = first;
    let mut start: usize = first;
    let mut depth: usize = 0;
    while i < path.len() && path[i] != '?' && path[i] != '#'
        invariant
            start <= i <= path.len(),
            depth <= i,
            path_climbs(path@, backslash) == climbs_from(
                path@,
                backslash,
                i as int,
                start as int,
                depth as nat,
            ),
        decreases path.len() - i,
    {
        if separates(path[i], backslash) {
            let segment = chars_range(path, start, i);
            match move_of_segment(segment.as_slice()) {
                Segment::Up => {
                    if depth == 0 {
                        return true;
                    }
                    depth -= 1;
                },
                Segment::Stay => {},
                Segment::Down => {
                    depth += 1;
                },
            }
            start = i + 1;
        }
        i += 1;
    }
    let segment = chars_range(path, start, i);
    depth == 0 && move_of_segment(segment.as_slice()) == Segment::Up
}

/// Whether the `..` segments of a request target climb above its start (see
/// `path_climbs`).
pub fn target_climbs(target: &str, backslash: bool) -> (r: bool)
    ensures
        r == path_climbs(target@, backslash),
{
    let chars = to_chars(target);
    chars_climb(chars.as_slice(), backslash)
}

/// Whether the path of the URL that a text holds climbs above its start (see
/// `url_climbs`).
pub fn url_text_climbs(text: &str) -> (r: bool)
    ensures
        r == url_climbs(text@),
{
    let chars = to_chars(text);
    let colon = chars_find_from(chars.as_slice(), ':', 0);
    let start: usize = if colon >= chars.len() {
        0
    } else if chars.len() - colon > 2 && chars[colon + 1] == '/' && chars[colon + 2] == '/' {
        let mut i: usize = colon + 3;
        while i < chars.len() && chars[i] != '/' && chars[i] != '?' && chars[i] != '#'
            invariant
                colon + 3 <= i <= chars.len(),
                path_mark_from(chars@, colon + 3) == path_mark_from(chars@, i as int),
            decreases chars.len() - i,
        {
            i += 1;
        }
        i
    } else {
        colon + 1
    };
    let path = chars_range(chars.as_slice(), start, chars.len());
    assert(path@ =~= text@.skip(start as int));
    chars_climb(path.as_slice(), false)
}

/// The text of the URL that a request of the line protocol asks for (see
/// `line_url_text`).
pub fn url_text_of_line(buf: &[u8]) -> (r: Result<String, DecodeError>)
    ensures
        text_result_view(r) == line_url_text(buf@),
{
    match utf8_to_string(buf) {
        None => Err(DecodeError::GeminiNotUtf8),
        Some(text) => {
            let line = str_first_line(text.as_str());
            if url_text_climbs(line.as_str()) {
                Err(DecodeError::GeminiPathClimbs)
            } else {
                Ok(line)
            }
        },
    }
}

/// The text of the URL that a parsed request of the header protocol asks
/// for (see `head_url_text`).
pub fn url_text_of_head(head: &HttpHead, default_hostname: &str) -> (r: Result<String, DecodeError>)
    ensures
        text_result_view(r) == head_url_text(head@, default_hostname@),
{
    match head {
        HttpHead::Invalid => Err(DecodeError::HttpBadRequest),
        HttpHead::Partial => Err(DecodeError::HttpTooLarge),
        HttpHead::Complete { path, headers } => {
            let host = host_of_request(headers, default_hostname);
            let origin = str_concat("https://", host.as_str());
            match path {
                Some(p) => {
                    if target_climbs(p.as_str(), true) {
                        Err(DecodeError::HttpPathClimbs)
                    } else {
                        Ok(str_concat(origin.as_str(), p.as_str()))
                    }
                },
                None => Ok(str_concat(origin.as_str(), "/")),
            }
        },
    }
}

/// A request whose path climbs above its start is refused with a client
/// error, in the protocol that it came in, before any URL is made of it.
pub proof fn lemma_climbing_request_is_refused(default_hostname: Seq<char>, buf: Seq<u8>)
    ensures
        starts_with(buf, encode_utf8("gemini:"@)) && valid_utf8(buf) && url_climbs(
            first_line(decode_utf8(buf)),
        ) ==> decode(default_hostname, buf) == Err::<RequestUrlView, DecodeError>(
            DecodeError::GeminiPathClimbs,
        ),
        !starts_with(buf, encode_utf8("gemini:"@)) && (http_head(buf) matches HttpHeadView::Complete {
            path: Some(target),
            headers,
        } && path_climbs(target, true)) ==> decode(default_hostname, buf) == Err::<
            RequestUrlView,
            DecodeError,
        >(DecodeError::HttpPathClimbs),
        DecodeError::GeminiPathClimbs.spec_status() == Status::OtherClientError,
        DecodeError::HttpPathClimbs.spec_status() == Status::OtherClientError,
        DecodeError::GeminiPathClimbs.spec_protocol() == Protocol::Gemini,
        DecodeError::HttpPathClimbs.spec_protocol() == Protocol::Https,
{
}

impl Protocol {
    /// The protocol's display name.
    pub open spec fn name(self) -> Seq<char> {
        match self {
            Protocol::Gemini => "Gemini"@,
            Protocol::Https => "HTTPS"@,
        }
    }

    /// The protocol's display name as a string.
    pub fn to_string(&self) -> (s: String)
        ensures
            s@ == self.name(),
    {
        match self {
            Protocol::Gemini => "Gemini".to_owned(),
            Protocol::Https => "HTTPS".to_owned(),
        }
    }

    /// The media type of the protocol's native markup.
    pub open spec fn spec_media_type(self) -> Seq<char> {
        match self {
            Protocol::Gemini => "text/gemini"@,
            Protocol::Https => "text/html; charset=utf-8"@,
        }
    }

    /// The media type of the protocol's native markup.
    pub fn media_type(&self) -> (s: String)
        ensures
            s@ == self.spec_media_type(),
    {
        match self {
            Protocol::Gemini => "text/gemini".to_owned(),
            Protocol::Https => "text/html; charset=utf-8".to_owned(),
        }
    }

    /// The file extensions of the protocol's native markup, in the order in
    /// which they are tried.
    pub open spec fn spec_extensions(self) -> Seq<Seq<char>> {
        match self {
            Protocol::Gemini => seq!["gmi"@],
            Protocol::Https => seq!["html"@, "htm"@],
        }
    }

    /// The file extensions of the protocol's native markup, in the order in
    /// which they are tried.
    pub fn media_type_file_extensions(&self) -> (v: Vec<String>)
        ensures
            v.deep_view() == self.spec_extensions(),
    {
        let mut v: Vec<String> = Vec::new();
        match self {
            Protocol::Gemini => {
                v.push("gmi".to_owned());
            },
            Protocol::Https => {
                v.push("html".to_owned());
                v.push("htm".to_owned());
            },
        }
        assert(v.deep_view() =~= self.spec_extensions());
        v
    }

    /// The protocol that serves a URL of the given scheme: the line protocol
    /// for `gemini`, the header protocol for every other scheme.
    pub open spec fn for_scheme(scheme: Seq<char>) -> Protocol {
        if scheme == "gemini"@ {
            Protocol::Gemini
        } else {
            Protocol::Https
        }
    }

    /// The protocol's own numeric code for `status`.
    pub open spec fn status_code(self, status: Status) -> nat {
        match self {
            Protocol::Gemini => match status {
                Status::Success => 20,
                Status::TemporaryRedirect => 30,
                Status::PermanentRedirect => 31,
                Status::Unauthenticated => 60,
                Status::Unauthorized => 61,
                Status::NotFound => 51,
                Status::RequestTooLarge => 50,
                Status::RateLimit => 44,
                Status::OtherServerError => 40,
                Status::OtherClientError => 59,
            },
            Protocol::Https => match status {
                Status::Success => 200,
                Status::PermanentRedirect => 301,
                Status::TemporaryRedirect => 302,
                Status::OtherClientError => 400,
                Status::Unauthenticated => 401,
                Status::Unauthorized => 403,
                Status::NotFound => 404,
                Status::RequestTooLarge => 413,
                Status::RateLimit => 429,
                Status::OtherServerError => 500,
            },
        }
    }

    /// The protocol's fixed text for `status`: the reason phrase of the
    /// header protocol, the error text of the line protocol.
    pub open spec fn reason(self, status: Status) -> Seq<char> {
        match self {
            Protocol::Gemini => match status {
                Status::Success => "OK"@,
                Status::TemporaryRedirect => "Found"@,
                Status::PermanentRedirect => "Moved Permanently"@,
                Status::Unauthenticated => "Unauthorized"@,
                Status::Unauthorized => "Forbidden"@,
                Status::NotFound => "Not Found"@,
                Status::RequestTooLarge => "Payload Too Large"@,
                Status::RateLimit => "Too Many Requests"@,
                Status::OtherServerError => "Internal Server Error"@,
                Status::OtherClientError => "Bad Request"@,
            },
            Protocol::Https => match status {
                Status::Success => "OK"@,
                Status::TemporaryRedirect => "Found"@,
                Status::PermanentRedirect => "Moved Permanently"@,
                Status::Unauthenticated => "Unauthenticated"@,
                Status::Unauthorized => "Forbidden"@,
                Status::NotFound => "Not Found"@,
                Status::RequestTooLarge => "Payload Too Large"@,
                Status::RateLimit => "Too Many Requests"@,
                Status::OtherServerError => "Internal Server Error"@,
                Status::OtherClientError => "Bad Request"@,
            },
        }
    }

    /// Whether the body of a response with `status` is put on the wire: the
    /// line protocol sends it with code 20 only, the header protocol always.
    pub open spec fn emits_body(self, status: Status) -> bool {
        match self {
            Protocol::Gemini => self.status_code(status) == 20,
            Protocol::Https => true,
        }
    }

    /// What follows the code on the header line of the line protocol: the
    /// media type on success, the target on a redirect, the error text
    /// otherwise.
    pub open spec fn gemini_meta(r: ResponseView) -> Seq<char> {
        match r.status {
            Status::Success => r.media_type,
            Status::TemporaryRedirect => r.redirect_uri,
            Status::PermanentRedirect => r.redirect_uri,
            _ => Protocol::Gemini.reason(r.status),
        }
    }

    /// One header line of the header protocol. Name and value are cut down
    /// to their first line, so that neither can start a line of its own.
    pub open spec fn header_line(name: Seq<char>, value: Seq<char>) -> Seq<char> {
        first_line(name) + ": "@ + first_line(value) + "\r\n"@
    }

    /// The seconds a client may keep the response: not zero only for a
    /// cacheable success.
    pub open spec fn max_age(r: ResponseView) -> nat {
        if r.cacheable && r.status == Status::Success {
            CACHEABLE_MAX_AGE_SECONDS as nat
        } else {
            0
        }
    }

    /// The text that precedes the body on the wire.
    pub open spec fn head(self, r: ResponseView) -> Seq<char> {
        match self {
            Protocol::Gemini => decimal(self.status_code(r.status)) + " "@ + first_line(
                Protocol::gemini_meta(r),
            ) + "\r\n"@,
            Protocol::Https => "HTTP/1.1 "@ + decimal(self.status_code(r.status)) + " "@
                + first_line(self.reason(r.status)) + "\r\n"@ + Protocol::header_line(
                "Content-Length"@,
                decimal(r.body.len()),
            ) + (if r.body.len() > 0 {
                Protocol::header_line("Content-Type"@, r.media_type) + Protocol::header_line(
                    "Cache-Control"@,
                    "public, max-age="@ + decimal(Protocol::max_age(r)) + ", must-revalidate"@,
                )
            } else {
                Seq::empty()
            }) + Protocol::header_line("Server"@, "rubyshd"@) + (if r.status.is_redirect() {
                Protocol::header_line("Location"@, r.redirect_uri)
            } else {
                Seq::empty()
            }) + "\r\n"@,
        }
    }

    /// What follows the head on the wire: the body where the protocol sends
    /// one for the status, nothing otherwise.
    pub open spec fn payload(self, r: ResponseView) -> Seq<u8> {
        if self.emits_body(r.status) {
            r.body
        } else {
            Seq::empty()
        }
    }

    /// The bytes that stand for a response on the wire.
    pub open spec fn wire_bytes(self, r: ResponseView) -> Seq<u8> {
        encode_utf8(self.head(r)) + self.payload(r)
    }

    /// The protocol's own numeric code for `status`.
    pub fn code_of(&self, status: Status) -> (code: u16)
        ensures
            code == self.status_code(status),
    {
        match self {
            Protocol::Gemini => match status {
                Status::Success => 20,
                Status::TemporaryRedirect => 30,
                Status::PermanentRedirect => 31,
                Status::Unauthenticated => 60,
                Status::Unauthorized => 61,
                Status::NotFound => 51,
                Status::RequestTooLarge => 50,
                Status::RateLimit => 44,
                Status::OtherServerError => 40,
                Status::OtherClientError => 59,
            },
            Protocol::Https => match status {
                Status::Success => 200,
                Status::PermanentRedirect => 301,
                Status::TemporaryRedirect => 302,
                Status::OtherClientError => 400,
                Status::Unauthenticated => 401,
                Status::Unauthorized => 403,
                Status::NotFound => 404,
                Status::RequestTooLarge => 413,
                Status::RateLimit => 429,
                Status::OtherServerError => 500,
            },
        }
    }

    /// The protocol's fixed text for `status`.
    pub fn reason_of(&self, status: Status) -> (s: &'static str)
        ensures
            s@ == self.reason(status),
    {
        match self {
            Protocol::Gemini => match status {
                Status::Success => "OK",
                Status::TemporaryRedirect => "Found",
                Status::PermanentRedirect => "Moved Permanently",
                Status::Unauthenticated => "Unauthorized",
                Status::Unauthorized => "Forbidden",
                Status::NotFound => "Not Found",
                Status::RequestTooLarge => "Payload Too Large",
                Status::RateLimit => "Too Many Requests",
                Status::OtherServerError => "Internal Server Error",
                Status::OtherClientError => "Bad Request",
            },
            Protocol::Https => match status {
                Status::Success => "OK",
                Status::TemporaryRedirect => "Found",
                Status::PermanentRedirect => "Moved Permanently",
                Status::Unauthenticated => "Unauthenticated",
                Status::Unauthorized => "Forbidden",
                Status::NotFound => "Not Found",
                Status::RequestTooLarge => "Payload Too Large",
                Status::RateLimit => "Too Many Requests",
                Status::OtherServerError => "Internal Server Error",
                Status::OtherClientError => "Bad Request",
            },
        }
    }

    /// Encodes a response for the wire. The line protocol sends a header
    /// line and, with code 20 only, the body. The header protocol sends the
    /// status line, its headers, a blank line and the body.
    pub fn write_response(&self, response: &Response) -> (out: Vec<u8>)
        ensures
            out@ == self.wire_bytes(response@),
    {
        let status = *response.status();
        let code = self.code_of(status);
        let mut head = String::new();
        let mut tail: Vec<u8> = Vec::new();
        match self {
            Protocol::Gemini => {
                let meta = match status {
                    Status::Success => response.media_type(),
                    Status::TemporaryRedirect => response.redirect_uri(),
                    Status::PermanentRedirect => response.redirect_uri(),
                    _ => self.reason_of(status),
                };
                head.append(decimal_string(code as usize).as_str());
                head.append(" ");
                head.append(str_first_line(meta).as_str());
                head.append("\r\n");
                if code == 20 {
                    tail = slice_to_vec(response.body());
                }
                assert(head@ =~= self.head(response@));
            },
            Protocol::Https => {
                let body_len = response.body().len();
                head.append("HTTP/1.1 ");
                head.append(decimal_string(code as usize).as_str());
                head.append(" ");
                head.append(str_first_line(self.reason_of(status)).as_str());
                head.append("\r\n");
                append_header(&mut head, "Content-Length", decimal_string(body_len).as_str());
                if body_len > 0 {
                    append_header(&mut head, "Content-Type", response.media_type());
                    let max_age: u16 = if response.cacheable() && status == Status::Success {
                        CACHEABLE_MAX_AGE_SECONDS
                    } else {
                        0
                    };
                    let mut cache_control = "public, max-age=".to_owned();
                    cache_control.append(decimal_string(max_age as usize).as_str());
                    cache_control.append(", must-revalidate");
                    append_header(&mut head, "Cache-Control", cache_control.as_str());
                }
                append_header(&mut head, "Server", "rubyshd");
                if code == 301 || code == 302 {
                    append_header(&mut head, "Location", response.redirect_uri());
                }
                head.append("\r\n");
                tail = slice_to_vec(response.body());
                assert(head@ =~= self.head(response@));
            },
        }
        let mut out = slice_to_vec(head.as_str().as_bytes());
        out.append(&mut tail);
        out
    }

    /// Decodes a request buffer into the URL it asks for (see `decode`). A
    /// failure names the protocol and the status with which the client is to
    /// be answered before the connection is closed.
    pub fn parse_req_buf(default_hostname: &str, buf: &[u8]) -> (r: Result<RequestUrl, DecodeError>)
        ensures
            url_result_view(r) == decode(default_hostname@, buf@),
    {
        if bytes_start_with(buf, "gemini:".as_bytes()) {
            match url_text_of_line(buf) {
                Ok(text) => match parse_url(text.as_str()) {
                    Some(url) => Ok(url),
                    None => Err(DecodeError::GeminiBadUrl),
                },
                Err(e) => Err(e),
            }
        } else {
            let head = parse_http_head(buf);
            match url_text_of_head(&head, default_hostname) {
                Ok(text) => match parse_url(text.as_str()) {
                    Some(url) => Ok(url),
                    None => Err(DecodeError::HttpBadUrl),
                },
                Err(e) => Err(e),
            }
        }
    }

    /// The protocol that serves a URL of the given scheme.
    pub fn from_scheme(scheme: &str) -> (p: Protocol)
        ensures
            p == Protocol::for_scheme(scheme@),
    {
        if str_eq(scheme, "gemini") {
            Protocol::Gemini
        } else {
            Protocol::Https
        }
    }

    /// Two different statuses have different codes under each protocol.
    pub proof fn lemma_status_codes_distinct(self, a: Status, b: Status)
        requires
            a != b,
        ensures
            self.status_code(a) != self.status_code(b),
    {
    }

    /// The codes of one protocol are never codes of the other: those of the
    /// line protocol have two digits, those of the header protocol three.
    pub proof fn lemma_status_codes_native(a: Status, b: Status)
        ensures
            10 <= Protocol::Gemini.status_code(a) < 100,
            100 <= Protocol::Https.status_code(b) < 1000,
    {
    }

    /// The wire form is the encoded head followed by the body exactly when
    /// the protocol sends a body for the status: the line protocol with code
    /// 20 only, which is success, the header protocol always. Otherwise it is
    /// the encoded head alone.
    pub proof fn lemma_body_emitted(self, r: ResponseView)
        ensures
            self.emits_body(r.status) <==> (self == Protocol::Https || r.status
                == Status::Success),
            self.emits_body(r.status) ==> self.wire_bytes(r) == encode_utf8(self.head(r)) + r.body,
            !self.emits_body(r.status) ==> self.wire_bytes(r) == encode_utf8(self.head(r)),
    {
        if !self.emits_body(r.status) {
            assert(self.wire_bytes(r) =~= encode_utf8(self.head(r)));
        }
    }
}

/// Appends one header line to `head`.
fn append_header(head: &mut String, name: &str, value: &str)
    ensures
        final(head)@ == old(head)@ + Protocol::header_line(name@, value@),
{
    head.append(str_first_line(name).as_str());
    head.append(": ");
    head.append(str_first_line(value).as_str());
    head.append("\r\n");
    assert(head@ =~= old(head)@ + Protocol::header_line(name@, value@));
}

} // verus!
