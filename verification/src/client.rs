//! The rules of talking to the inventory server: which endpoints are called, how responses are
//! bounded and classified, and how listings are read page by page.

use vstd::prelude::*;

use crate::model::Duplicate;
use crate::text;

verus! {

// ---------------------------------------------------------------------------------------------
// Errors
// ---------------------------------------------------------------------------------------------

/// How a connection failed.
#[derive(Clone, Copy, Debug, PartialEq, Eq, Structural)]
pub enum NetworkErrorKind {
    Timeout,
    Connect,
    Other,
}

/// Why the inventory server did not do what it was asked.
#[derive(Clone, Debug, PartialEq, Eq)]
pub enum SnipeItError {
    AuthFailure,
    PermissionDenied,
    NotFound,
    AmbiguousResponse,
    RateLimited { retry_after: Option<u64> },
    Validation { message: String },
    ServerError { status: u16, message: String },
    InvalidResponse { message: String },
    NetworkError { kind: NetworkErrorKind },
}

/// The deep view of a [`SnipeItError`].
#[verifier::ext_equal]
pub enum ErrorView {
    AuthFailure,
    PermissionDenied,
    NotFound,
    AmbiguousResponse,
    RateLimited { retry_after: Option<u64> },
    Validation { message: Seq<char> },
    ServerError { status: u16, message: Seq<char> },
    InvalidResponse { message: Seq<char> },
    NetworkError { kind: NetworkErrorKind },
}

impl DeepView for SnipeItError {
    type V = ErrorView;

    open spec fn deep_view(&self) -> ErrorView {
        match self {
            SnipeItError::AuthFailure => ErrorView::AuthFailure,
            SnipeItError::PermissionDenied => ErrorView::PermissionDenied,
            SnipeItError::NotFound => ErrorView::NotFound,
            SnipeItError::AmbiguousResponse => ErrorView::AmbiguousResponse,
            SnipeItError::RateLimited { retry_after } => ErrorView::RateLimited {
                retry_after: *retry_after,
            },
            SnipeItError::Validation { message } => ErrorView::Validation { message: message@ },
            SnipeItError::ServerError { status, message } => ErrorView::ServerError {
                status: *status,
                message: message@,
            },
            SnipeItError::InvalidResponse { message } => ErrorView::InvalidResponse {
                message: message@,
            },
            SnipeItError::NetworkError { kind } => ErrorView::NetworkError { kind: *kind },
        }
    }
}

impl Duplicate for SnipeItError {
    fn duplicate(&self) -> (copy: Self) {
        match self {
            SnipeItError::AuthFailure => SnipeItError::AuthFailure,
            SnipeItError::PermissionDenied => SnipeItError::PermissionDenied,
            SnipeItError::NotFound => SnipeItError::NotFound,
            SnipeItError::AmbiguousResponse => SnipeItError::AmbiguousResponse,
            SnipeItError::RateLimited { retry_after } => SnipeItError::RateLimited {
                retry_after: *retry_after,
            },
            SnipeItError::Validation { message } => SnipeItError::Validation {
                message: message.clone(),
            },
            SnipeItError::ServerError { status, message } => SnipeItError::ServerError {
                status: *status,
                message: message.clone(),
            },
            SnipeItError::InvalidResponse { message } => SnipeItError::InvalidResponse {
                message: message.clone(),
            },
            SnipeItError::NetworkError { kind } => SnipeItError::NetworkError { kind: *kind },
        }
    }
}

/// The text for how a connection failed.
pub open spec fn network_text(kind: NetworkErrorKind) -> Seq<char> {
    match kind {
        NetworkErrorKind::Timeout => "network timeout"@,
        NetworkErrorKind::Connect => "network connection failed"@,
        NetworkErrorKind::Other => "network request failed"@,
    }
}

/// The text of an error.
pub open spec fn error_text(error: ErrorView) -> Seq<char> {
    match error {
        ErrorView::AuthFailure => "Snipe-IT authentication failed"@,
        ErrorView::PermissionDenied => "Snipe-IT permission denied"@,
        ErrorView::NotFound => "Snipe-IT resource not found"@,
        ErrorView::AmbiguousResponse => "Snipe-IT response is ambiguous"@,
        ErrorView::RateLimited { .. } => "Snipe-IT rate limit exceeded"@,
        ErrorView::Validation { message } => "Snipe-IT validation failed: "@ + message,
        ErrorView::ServerError { status, message } => "Snipe-IT server error "@
            + text::decimal_text(status as nat) + ": "@ + message,
        ErrorView::InvalidResponse { message } => "Snipe-IT response is invalid: "@ + message,
        ErrorView::NetworkError { kind } => "Snipe-IT network error: "@ + network_text(kind),
    }
}

impl SnipeItError {
    /// Describes the error.
    pub fn message(&self) -> (message: String)
        ensures
            message@ == error_text(self.deep_view()),
    {
        match self {
            SnipeItError::AuthFailure => "Snipe-IT authentication failed".to_owned(),
            SnipeItError::PermissionDenied => "Snipe-IT permission denied".to_owned(),
            SnipeItError::NotFound => "Snipe-IT resource not found".to_owned(),
            SnipeItError::AmbiguousResponse => "Snipe-IT response is ambiguous".to_owned(),
            SnipeItError::RateLimited { .. } => "Snipe-IT rate limit exceeded".to_owned(),
            SnipeItError::Validation { message } => {
                let mut text = "Snipe-IT validation failed: ".to_owned();
                text.append(message.as_str());
                text
            },
            SnipeItError::ServerError { status, message } => {
                let code = text::decimal(*status as u128);
                let mut text = text::join3("Snipe-IT server error ", code.as_str(), ": ");
                text.append(message.as_str());
                text
            },
            SnipeItError::InvalidResponse { message } => {
                let mut text = "Snipe-IT response is invalid: ".to_owned();
                text.append(message.as_str());
                text
            },
            SnipeItError::NetworkError { kind } => {
                let mut text = "Snipe-IT network error: ".to_owned();
                match kind {
                    NetworkErrorKind::Timeout => text.append("network timeout"),
                    NetworkErrorKind::Connect => text.append("network connection failed"),
                    NetworkErrorKind::Other => text.append("network request failed"),
                }
                text
            },
        }
    }
}

/// A response that cannot be used, described by a fixed text.
pub open spec fn invalid(message: Seq<char>) -> ErrorView {
    ErrorView::InvalidResponse { message }
}

/// Makes the error for a response that cannot be used.
pub fn safe_invalid(message: &str) -> (error: SnipeItError)
    ensures
        error.deep_view() == invalid(message@),
{
    SnipeItError::InvalidResponse { message: message.to_owned() }
}

/// The error that a status code stands for.
pub open spec fn status_error(status: u16, retry: Option<u64>) -> ErrorView {
    if status == 401 {
        ErrorView::AuthFailure
    } else if status == 403 {
        ErrorView::PermissionDenied
    } else if status == 404 {
        ErrorView::NotFound
    } else if status == 429 {
        ErrorView::RateLimited { retry_after: retry }
    } else if 500 <= status <= 599 {
        ErrorView::ServerError { status, message: "upstream server rejected the request"@ }
    } else if status == 400 || status == 409 || status == 422 {
        ErrorView::Validation { message: "upstream rejected the request"@ }
    } else {
        invalid("unexpected HTTP status"@)
    }
}

/// Classifies a status code that is not a success.
pub fn classify_status(status: u16, retry: Option<u64>) -> (error: SnipeItError)
    ensures
        error.deep_view() == status_error(status, retry),
{
    if status == 401 {
        SnipeItError::AuthFailure
    } else if status == 403 {
        SnipeItError::PermissionDenied
    } else if status == 404 {
        SnipeItError::NotFound
    } else if status == 429 {
        SnipeItError::RateLimited { retry_after: retry }
    } else if 500 <= status && status <= 599 {
        SnipeItError::ServerError {
            status,
            message: "upstream server rejected the request".to_owned(),
        }
    } else if status == 400 || status == 409 || status == 422 {
        SnipeItError::Validation { message: "upstream rejected the request".to_owned() }
    } else {
        safe_invalid("unexpected HTTP status")
    }
}

/// Whether a status code is a success.
pub open spec fn success(status: u16) -> bool {
    200 <= status <= 299
}

/// The error for a body that is too long.
pub open spec fn oversized_error(status: u16, retry: Option<u64>) -> ErrorView {
    if success(status) {
        invalid("response body exceeds limit"@)
    } else {
        status_error(status, retry)
    }
}

/// Classifies a response whose body is too long.
pub fn body_limit_error(status: u16, retry: Option<u64>) -> (error: SnipeItError)
    ensures
        error.deep_view() == oversized_error(status, retry),
{
    if 200 <= status && status <= 299 {
        safe_invalid("response body exceeds limit")
    } else {
        classify_status(status, retry)
    }
}

/// Classifies a failed connection.
pub fn network(timed_out: bool, connecting: bool) -> (error: SnipeItError)
    ensures
        error.deep_view() == (ErrorView::NetworkError {
            kind: if timed_out {
                NetworkErrorKind::Timeout
            } else if connecting {
                NetworkErrorKind::Connect
            } else {
                NetworkErrorKind::Other
            },
        }),
{
    let kind = if timed_out {
        NetworkErrorKind::Timeout
    } else if connecting {
        NetworkErrorKind::Connect
    } else {
        NetworkErrorKind::Other
    };
    SnipeItError::NetworkError { kind }
}

/// The seconds that a `Retry-After` header asks to wait.
pub open spec fn requested_delay(header: Option<Seq<char>>) -> Option<nat> {
    match header {
        Some(value) => text::parsed_decimal(value, u64::MAX as nat),
        None => None,
    }
}

/// Reads a `Retry-After` header. A date, or any other text that is not a number, is ignored.
pub fn retry_after(header: Option<&str>) -> (delay: Option<u64>)
    ensures
        match delay {
            Some(seconds) => requested_delay(
                match header {
                    Some(value) => Some(value@),
                    None => None,
                },
            ) == Some(seconds as nat),
            None => requested_delay(
                match header {
                    Some(value) => Some(value@),
                    None => None,
                },
            ) is None,
        },
{
    match header {
        Some(value) => {
            let chars = text::to_chars(value);
            text::parse_decimal(chars.as_slice(), u64::MAX)
        },
        None => None,
    }
}

/// Whether a serial can stand in a URL path without changing its meaning.
pub open spec fn safe_serial(serial: Seq<char>) -> bool {
    &&& serial != "."@
    &&& serial != ".."@
    &&& forall|i: int| 0 <= i < serial.len() ==> !text::control(#[trigger] serial[i])
}

/// Refuses serials that cannot stand in a URL path.
pub fn validate_serial(serial: &str) -> (result: Result<(), SnipeItError>)
    ensures
        result is Ok <==> safe_serial(serial@),
        result is Err ==> result->Err_0.deep_view() == (ErrorView::Validation {
            message: "serial is not a safe URL segment"@,
        }),
{
    if text::same_text(serial, ".") || text::same_text(serial, "..") {
        return Err(
            SnipeItError::Validation { message: "serial is not a safe URL segment".to_owned() },
        );
    }
    let chars = text::to_chars(serial);
    let mut index: usize = 0;
    while index < chars.len()
        invariant
            index <= chars@.len(),
            chars@ == serial@,
            forall|i: int| 0 <= i < index ==> !text::control(#[trigger] serial@[i]),
        decreases chars.len() - index,
    {
        if text::is_control(chars[index]) {
            return Err(
                SnipeItError::Validation {
                    message: "serial is not a safe URL segment".to_owned(),
                },
            );
        }
        index += 1;
    }
    Ok(())
}

// ---------------------------------------------------------------------------------------------
// Bounded bodies
// ---------------------------------------------------------------------------------------------

/// The longest body of a successful response.
pub const MAX_SUCCESS_BODY_BYTES: usize = 1_048_576;

/// The longest body of a response that is not a success.
pub const MAX_ERROR_BODY_BYTES: usize = 16_384;

/// The longest body that is read from a response.
pub open spec fn body_limit(status: u16) -> int {
    if success(status) {
        MAX_SUCCESS_BODY_BYTES as int
    } else {
        MAX_ERROR_BODY_BYTES as int
    }
}

/// A response whose body is being read.
#[derive(Debug)]
pub struct BodyReader {
    pub status: u16,
    pub retry_after: Option<u64>,
    pub body: Vec<u8>,
}

/// Whether what has been read is within the limit.
pub open spec fn bounded(reader: BodyReader) -> bool {
    reader.body@.len() <= body_limit(reader.status)
}

impl BodyReader {
    fn limit(&self) -> (limit: usize)
        ensures
            limit == body_limit(self.status),
    {
        if 200 <= self.status && self.status <= 299 {
            MAX_SUCCESS_BODY_BYTES
        } else {
            MAX_ERROR_BODY_BYTES
        }
    }

    /// Begins to read a response, unless it announces a body that is too long.
    pub fn start(status: u16, retry_after: Option<u64>, content_length: Option<u64>) -> (result:
        Result<BodyReader, SnipeItError>)
        ensures
            match result {
                Ok(reader) => {
                    &&& content_length is Some ==> content_length->0 <= body_limit(status)
                    &&& bounded(reader)
                    &&& reader.status == status
                    &&& reader.retry_after == retry_after
                    &&& reader.body@ == Seq::<u8>::empty()
                },
                Err(error) => {
                    &&& content_length is Some
                    &&& content_length->0 > body_limit(status)
                    &&& error.deep_view() == oversized_error(status, retry_after)
                },
            },
    {
        let reader = BodyReader { status, retry_after, body: Vec::new() };
        match content_length {
            Some(length) => if length > reader.limit() as u64 {
                return Err(body_limit_error(status, retry_after));
            },
            None => {},
        }
        Ok(reader)
    }

    /// Takes the next chunk, unless the body becomes too long.
    pub fn append(&mut self, chunk: &[u8]) -> (result: Result<(), SnipeItError>)
        requires
            bounded(*old(self)),
        ensures
            bounded(*final(self)),
            final(self).status == old(self).status,
            final(self).retry_after == old(self).retry_after,
            match result {
                Ok(_) => {
                    &&& old(self).body@.len() + chunk@.len() <= body_limit(old(self).status)
                    &&& final(self).body@ == old(self).body@ + chunk@
                },
                Err(error) => {
                    &&& old(self).body@.len() + chunk@.len() > body_limit(old(self).status)
                    &&& final(self).body@ == old(self).body@
                    &&& error.deep_view() == oversized_error(
                        old(self).status,
                        old(self).retry_after,
                    )
                },
            },
    {
        let limit: usize = self.limit();
        let length: usize = self.body.len();
        if chunk.len() > limit - length {
            return Err(body_limit_error(self.status, self.retry_after));
        }
        let ghost before = self.body@;
        let mut index: usize = 0;
        proof {
            assert(before + chunk@.take(0) =~= before);
        }
        while index < chunk.len()
            invariant
                index <= chunk@.len(),
                self.status == old(self).status,
                self.retry_after == old(self).retry_after,
                self.body@ == before + chunk@.take(index as int),
            decreases chunk.len() - index,
        {
            self.body.push(chunk[index]);
            index += 1;
            proof {
                assert(self.body@ =~= before + chunk@.take(index as int));
            }
        }
        proof {
            assert(chunk@.take(chunk@.len() as int) =~= chunk@);
        }
        Ok(())
    }

    /// Ends the reading: the body of a success, or the error that the status stands for.
    pub fn finish(self) -> (result: Result<Vec<u8>, SnipeItError>)
        ensures
            match result {
                Ok(body) => success(self.status) && body@ == self.body@,
                Err(error) => !success(self.status) && error.deep_view() == status_error(
                    self.status,
                    self.retry_after,
                ),
            },
    {
        if 200 <= self.status && self.status <= 299 {
            Ok(self.body)
        } else {
            Err(classify_status(self.status, self.retry_after))
        }
    }
}

/// Reads the body of a response as a text.
pub fn response_text(body: Vec<u8>) -> (result: Result<String, SnipeItError>)
    ensures
        match result {
            Ok(text) => vstd::utf8::valid_utf8(body@) && text@ == vstd::utf8::decode_utf8(body@),
            Err(error) => !vstd::utf8::valid_utf8(body@) && error.deep_view() == invalid(
                "response body is not valid UTF-8"@,
            ),
        },
{
    match text::decode_utf8(body) {
        Some(text) => Ok(text),
        None => Err(safe_invalid("response body is not valid UTF-8")),
    }
}

// ---------------------------------------------------------------------------------------------
// Pages
// ---------------------------------------------------------------------------------------------

/// How many rows a page has.
pub const PAGE_SIZE: usize = 100;

/// How many pages are requested at most.
pub const MAX_PAGE_REQUESTS: usize = 100;

/// How many rows a listing may have.
pub const MAX_TOTAL_ROWS: usize = 10_000;

/// How long a listing may take, in nanoseconds.
pub const PAGINATION_DEADLINE: u128 = 60_000_000_000;

/// A listing that is being read.
#[derive(Debug)]
pub struct Pagination<T> {
    pub values: Vec<T>,
    pub requests: usize,
}

/// A page to request.
#[derive(Clone, Copy, Debug, PartialEq, Eq, Structural)]
pub struct PageRequest {
    pub limit: usize,
    pub offset: usize,
}

/// Whether every page so far was full and another one may be requested.
pub open spec fn reading<T>(pagination: Pagination<T>) -> bool {
    &&& pagination.requests < MAX_PAGE_REQUESTS
    &&& pagination.values@.len() == pagination.requests * PAGE_SIZE
}

/// What a page leads to.
#[derive(Debug, PartialEq, Eq)]
pub enum PageStep {
    /// The listing is complete.
    Complete,
    /// Another page has to be requested.
    More,
}

/// Why a page is refused.
pub open spec fn page_refusal(requests: nat, values: nat, rows: nat) -> Option<Seq<char>> {
    if rows > PAGE_SIZE {
        Some("pagination page exceeds requested limit"@)
    } else if values + rows > MAX_TOTAL_ROWS {
        Some("pagination row limit exceeded"@)
    } else if rows == PAGE_SIZE && requests + 1 >= MAX_PAGE_REQUESTS {
        Some("pagination request limit exceeded"@)
    } else {
        None
    }
}

impl<T> Pagination<T> {
    /// Begins a listing.
    pub fn new() -> (pagination: Self)
        ensures
            reading(pagination),
            pagination.requests == 0,
            pagination.values@ == Seq::<T>::empty(),
    {
        Pagination { values: Vec::new(), requests: 0 }
    }

    /// The page to request next, unless the listing has taken too long.
    pub fn next_request(&self, elapsed: u128) -> (result: Result<PageRequest, SnipeItError>)
        requires
            reading(*self),
        ensures
            match result {
                Ok(request) => {
                    &&& elapsed < PAGINATION_DEADLINE
                    &&& request.limit == PAGE_SIZE
                    &&& request.offset == self.values@.len()
                },
                Err(error) => {
                    &&& elapsed >= PAGINATION_DEADLINE
                    &&& error.deep_view() == invalid("pagination deadline exceeded"@)
                },
            },
    {
        if elapsed >= PAGINATION_DEADLINE {
            return Err(safe_invalid("pagination deadline exceeded"));
        }
        Ok(PageRequest { limit: PAGE_SIZE, offset: self.requests * PAGE_SIZE })
    }

    /// Takes the rows of a page.
    pub fn record_page(&mut self, rows: Vec<T>) -> (result: Result<PageStep, SnipeItError>)
        requires
            reading(*old(self)),
        ensures
            match page_refusal(old(self).requests as nat, old(self).values@.len(), rows@.len()) {
                Some(reason) => {
                    &&& result is Err
                    &&& result->Err_0.deep_view() == invalid(reason)
                    &&& *final(self) == *old(self)
                },
                None => {
                    &&& result is Ok
                    &&& final(self).values@ == old(self).values@ + rows@
                    &&& final(self).requests == old(self).requests + 1
                    &&& match result->Ok_0 {
                        PageStep::Complete => rows@.len() < PAGE_SIZE,
                        PageStep::More => rows@.len() == PAGE_SIZE && reading(*final(self)),
                    }
                },
            },
    {
        let count: usize = rows.len();
        if count > PAGE_SIZE {
            return Err(safe_invalid("pagination page exceeds requested limit"));
        }
        if self.values.len() + count > MAX_TOTAL_ROWS {
            return Err(safe_invalid("pagination row limit exceeded"));
        }
        if count == PAGE_SIZE && self.requests + 1 == MAX_PAGE_REQUESTS {
            return Err(safe_invalid("pagination request limit exceeded"));
        }
        let mut page = rows;
        self.values.append(&mut page);
        self.requests = self.requests + 1;
        if count < PAGE_SIZE {
            Ok(PageStep::Complete)
        } else {
            Ok(PageStep::More)
        }
    }
}

/// All the rows of some pages, in order.
pub open spec fn all_rows<T>(pages: Seq<Seq<T>>) -> Seq<T>
    decreases pages.len(),
{
    if pages.len() == 0 {
        Seq::empty()
    } else {
        all_rows(pages.drop_last()) + pages.last()
    }
}

/// Whether a listing reads some pages and asks for another: all of them are full, and there are
/// fewer than the most that are requested.
pub open spec fn continues<T>(pages: Seq<Seq<T>>) -> bool {
    &&& pages.len() < MAX_PAGE_REQUESTS
    &&& forall|i: int| 0 <= i < pages.len() ==> (#[trigger] pages[i]).len() == PAGE_SIZE
}

/// A listing that goes on after some pages has read all of their rows, and the offset that it
/// requests next is the number of those rows: no row is requested twice and none is left out. A
/// short page after them is accepted, within the bounds on requests and rows.
pub proof fn listings_are_read_without_gaps<T>(pages: Seq<Seq<T>>, last: Seq<T>)
    requires
        continues(pages),
        last.len() < PAGE_SIZE,
    ensures
        all_rows(pages).len() == pages.len() * PAGE_SIZE,
        page_refusal(pages.len(), all_rows(pages).len(), last.len()) is None,
        all_rows(pages.push(last)) == all_rows(pages) + last,
    decreases pages.len(),
{
    assert(pages.push(last).drop_last() =~= pages);
    if pages.len() > 0 {
        let before = pages.drop_last();
        assert forall|i: int| 0 <= i < before.len() implies (#[trigger] before[i]).len()
            == PAGE_SIZE by {
            assert(before[i] == pages[i]);
        }
        listings_are_read_without_gaps(before, last);
    }
}

// ---------------------------------------------------------------------------------------------
// URLs
// ---------------------------------------------------------------------------------------------

/// What the rules look at in a URL.
#[derive(Clone, Debug, PartialEq, Eq)]
pub struct UrlParts {
    pub scheme: String,
    pub username: String,
    pub has_password: bool,
    pub has_query: bool,
    pub has_fragment: bool,
    pub has_host: bool,
}

/// The parts of a URL: its scheme, its user name, and whether it has a password, a query, a
/// fragment and a host.
pub uninterp spec fn url_parts(url: Seq<char>) -> Option<
    (Seq<char>, Seq<char>, bool, bool, bool, bool),
>;

/// A URL without its query.
pub uninterp spec fn unqueried_url(url: Seq<char>) -> Option<Seq<char>>;

/// A URL without its fragment.
pub uninterp spec fn unfragmented_url(url: Seq<char>) -> Option<Seq<char>>;

/// A URL whose path has no empty segment at its end, unless it has only that one.
pub uninterp spec fn unslashed_url(url: Seq<char>) -> Option<Seq<char>>;

/// A URL with some segments added to its path.
pub uninterp spec fn pushed_url(url: Seq<char>, segments: Seq<Seq<char>>) -> Option<Seq<char>>;

/// A URL with some pairs appended to its query.
pub uninterp spec fn queried_url(url: Seq<char>, pairs: Seq<(Seq<char>, Seq<char>)>) -> Option<
    Seq<char>,
>;

/// Reads the parts of a URL.
///
/// Trusted wrapper of `reqwest::Url::parse` and of the accessors of its result. The parts are only
/// named.
#[verifier::external_body]
fn parse_url(url: &str) -> (parts: Option<UrlParts>)
    ensures
        match parts {
            Some(parts) => url_parts(url@) == Some(
                (
                    parts.scheme@,
                    parts.username@,
                    parts.has_password,
                    parts.has_query,
                    parts.has_fragment,
                    parts.has_host,
                ),
            ),
            None => url_parts(url@) is None,
        },
{
    let parsed = reqwest::Url::parse(url).ok()?;
    Some(
        UrlParts {
            scheme: parsed.scheme().to_owned(),
            username: parsed.username().to_owned(),
            has_password: parsed.password().is_some(),
            has_query: parsed.query().is_some(),
            has_fragment: parsed.fragment().is_some(),
            has_host: parsed.host_str().is_some(),
        },
    )
}

/// Takes the query off a URL.
///
/// Trusted wrapper of `reqwest::Url::set_query` without a query, on a URL that is parsed first. The
/// URL is only named. It is `None` if the URL cannot be parsed.
#[verifier::external_body]
fn clear_query(url: &str) -> (cleared: Option<String>)
    ensures
        match cleared {
            Some(cleared) => unqueried_url(url@) == Some(cleared@),
            None => unqueried_url(url@) is None,
        },
{
    let mut url = reqwest::Url::parse(url).ok()?;
    url.set_query(None);
    Some(url.to_string())
}

/// Takes the fragment off a URL.
///
/// Trusted wrapper of `reqwest::Url::set_fragment` without a fragment, on a URL that is parsed
/// first. The URL is only named. It is `None` if the URL cannot be parsed.
#[verifier::external_body]
fn clear_fragment(url: &str) -> (cleared: Option<String>)
    ensures
        match cleared {
            Some(cleared) => unfragmented_url(url@) == Some(cleared@),
            None => unfragmented_url(url@) is None,
        },
{
    let mut url = reqwest::Url::parse(url).ok()?;
    url.set_fragment(None);
    Some(url.to_string())
}

/// Drops an empty last segment of the path of a URL.
///
/// Trusted wrapper of `PathSegmentsMut::pop_if_empty` of a `reqwest::Url`, on a URL that is parsed
/// first. The URL is only named. It is `None` if the URL cannot be parsed or has no path that
/// consists of segments.
#[verifier::external_body]
fn drop_empty_segment(url: &str) -> (shortened: Option<String>)
    ensures
        match shortened {
            Some(shortened) => unslashed_url(url@) == Some(shortened@),
            None => unslashed_url(url@) is None,
        },
{
    let mut url = reqwest::Url::parse(url).ok()?;
    url.path_segments_mut().ok()?.pop_if_empty();
    Some(url.to_string())
}

/// Adds segments to the path of a URL.
///
/// Trusted wrapper of `PathSegmentsMut::extend` of a `reqwest::Url`, on a URL that is parsed first;
/// it adds the segments, percent-encoded where needed. The URL is only named. It is `None` if the
/// URL cannot be parsed or has no path that consists of segments.
#[verifier::external_body]
fn push_segments(url: &str, segments: &Vec<String>) -> (extended: Option<String>)
    ensures
        match extended {
            Some(extended) => pushed_url(url@, segments.deep_view()) == Some(extended@),
            None => pushed_url(url@, segments.deep_view()) is None,
        },
{
    let mut url = reqwest::Url::parse(url).ok()?;
    url.path_segments_mut().ok()?.extend(segments);
    Some(url.to_string())
}

/// The URL whose path is that of a base URL, without an empty segment at its end, followed by
/// some segments, without query and fragment.
pub open spec fn extended_url(base: Seq<char>, segments: Seq<Seq<char>>) -> Option<Seq<char>> {
    match unqueried_url(base) {
        None => None,
        Some(unqueried) => match unfragmented_url(unqueried) {
            None => None,
            Some(plain) => match unslashed_url(plain) {
                None => None,
                Some(stem) => pushed_url(stem, segments),
            },
        },
    }
}

/// Extends the path of a base URL, and drops its query and its fragment.
fn extend_url(base: &str, segments: &Vec<String>) -> (url: Option<String>)
    ensures
        match url {
            Some(url) => extended_url(base@, segments.deep_view()) == Some(url@),
            None => extended_url(base@, segments.deep_view()) is None,
        },
{
    match clear_query(base) {
        None => None,
        Some(unqueried) => match clear_fragment(unqueried.as_str()) {
            None => None,
            Some(plain) => match drop_empty_segment(plain.as_str()) {
                None => None,
                Some(stem) => push_segments(stem.as_str(), segments),
            },
        },
    }
}

/// Appends pairs to the query of a URL.
///
/// Trusted wrapper of `reqwest::Url::parse` and `query_pairs_mut`, which encodes each pair as a
/// form does. The URL is only named. It is `None` if the URL cannot be parsed.
#[verifier::external_body]
fn extend_query(url: &str, pairs: &Vec<(String, String)>) -> (queried: Option<String>)
    ensures
        match queried {
            Some(queried) => queried_url(url@, pairs.deep_view()) == Some(queried@),
            None => queried_url(url@, pairs.deep_view()) is None,
        },
{
    let mut url = reqwest::Url::parse(url).ok()?;
    url.query_pairs_mut().extend_pairs(pairs);
    Some(url.to_string())
}

/// Why a server URL is refused.
#[derive(Clone, Copy, Debug, PartialEq, Eq, Structural)]
pub enum UrlError {
    /// It is not an HTTPS URL.
    NotHttps,
    /// It carries credentials, a query or a fragment, or names no host.
    NotAnEndpoint,
}

/// The text of a [`UrlError`].
pub open spec fn url_error_text(error: UrlError) -> Seq<char> {
    match error {
        UrlError::NotHttps => "Snipe-IT URL must use HTTPS"@,
        UrlError::NotAnEndpoint => "Snipe-IT URL must be a valid HTTPS endpoint"@,
    }
}

impl UrlError {
    /// Describes the error.
    pub fn message(&self) -> (message: String)
        ensures
            message@ == url_error_text(*self),
    {
        match self {
            UrlError::NotHttps => "Snipe-IT URL must use HTTPS".to_owned(),
            UrlError::NotAnEndpoint => "Snipe-IT URL must be a valid HTTPS endpoint".to_owned(),
        }
    }
}

/// Whether a URL with some parts may be the base of the endpoints.
pub open spec fn judged_url(
    parts: Option<(Seq<char>, Seq<char>, bool, bool, bool, bool)>,
) -> Result<(), UrlError> {
    match parts {
        None => Err(UrlError::NotHttps),
        Some((scheme, username, has_password, has_query, has_fragment, has_host)) => {
            if scheme != "https"@ {
                Err(UrlError::NotHttps)
            } else if username.len() != 0 || has_password || has_query || has_fragment
                || !has_host {
                Err(UrlError::NotAnEndpoint)
            } else {
                Ok(())
            }
        },
    }
}

/// The parts of a URL as plain values.
pub open spec fn parts_of(parts: Option<UrlParts>) -> Option<
    (Seq<char>, Seq<char>, bool, bool, bool, bool),
> {
    match parts {
        Some(parts) => Some(
            (
                parts.scheme@,
                parts.username@,
                parts.has_password,
                parts.has_query,
                parts.has_fragment,
                parts.has_host,
            ),
        ),
        None => None,
    }
}

/// Decides whether a URL with some parts may be the base of the endpoints.
pub fn judge_url(parts: Option<UrlParts>) -> (result: Result<(), UrlError>)
    ensures
        result == judged_url(parts_of(parts)),
{
    match parts {
        None => Err(UrlError::NotHttps),
        Some(parts) => {
            if !text::same_text(parts.scheme.as_str(), "https") {
                return Err(UrlError::NotHttps);
            }
            let username = text::to_chars(parts.username.as_str());
            if username.len() != 0 || parts.has_password || parts.has_query || parts.has_fragment
                || !parts.has_host {
                return Err(UrlError::NotAnEndpoint);
            }
            Ok(())
        },
    }
}

/// The base URL that a setting names: the setting without the white space around it.
pub open spec fn trimmed_url(setting: Seq<char>) -> Seq<char> {
    text::trimmed(setting)
}

/// Takes the base URL out of a setting, if it may be the base of the endpoints.
pub fn base_url(setting: &str) -> (result: Result<String, UrlError>)
    ensures
        match result {
            Ok(base) => base@ == trimmed_url(setting@) && judged_url(url_parts(base@)) is Ok,
            Err(error) => judged_url(url_parts(trimmed_url(setting@))) == Err::<(), UrlError>(
                error,
            ),
        },
{
    let chars = text::to_chars(setting);
    let trimmed = text::trim(chars.as_slice());
    let base = text::from_chars(trimmed.as_slice());
    match judge_url(parse_url(base.as_str())) {
        Ok(()) => Ok(base),
        Err(error) => Err(error),
    }
}

/// What the service asks the inventory server for.
#[derive(Clone, Debug, PartialEq, Eq)]
pub enum Endpoint {
    /// The asset with a serial.
    AssetBySerial { serial: String },
    /// One asset.
    Asset { asset_id: u64 },
    /// The check-out of an asset.
    Checkout { asset_id: u64 },
    /// The check-in of an asset.
    Checkin { asset_id: u64 },
    /// The manufacturers.
    Manufacturers,
    /// The categories.
    Categories,
    /// The asset models.
    Models,
}

/// The path segments of an endpoint.
pub open spec fn endpoint_segments(endpoint: Endpoint) -> Seq<Seq<char>> {
    match endpoint {
        Endpoint::AssetBySerial { serial } => seq![
            "api"@,
            "v1"@,
            "hardware"@,
            "byserial"@,
            serial@,
        ],
        Endpoint::Asset { asset_id } => seq![
            "api"@,
            "v1"@,
            "hardware"@,
            text::decimal_text(asset_id as nat),
        ],
        Endpoint::Checkout { asset_id } => seq![
            "api"@,
            "v1"@,
            "hardware"@,
            text::decimal_text(asset_id as nat),
            "checkout"@,
        ],
        Endpoint::Checkin { asset_id } => seq![
            "api"@,
            "v1"@,
            "hardware"@,
            text::decimal_text(asset_id as nat),
            "checkin"@,
        ],
        Endpoint::Manufacturers => seq!["api"@, "v1"@, "manufacturers"@],
        Endpoint::Categories => seq!["api"@, "v1"@, "categories"@],
        Endpoint::Models => seq!["api"@, "v1"@, "models"@],
    }
}

/// Lists the path segments of an endpoint.
pub fn list_segments(endpoint: &Endpoint) -> (segments: Vec<String>)
    ensures
        segments.deep_view() == endpoint_segments(*endpoint),
{
    let mut segments: Vec<String> = Vec::new();
    segments.push("api".to_owned());
    segments.push("v1".to_owned());
    match endpoint {
        Endpoint::AssetBySerial { serial } => {
            segments.push("hardware".to_owned());
            segments.push("byserial".to_owned());
            segments.push(serial.clone());
        },
        Endpoint::Asset { asset_id } => {
            segments.push("hardware".to_owned());
            segments.push(text::decimal(*asset_id as u128));
        },
        Endpoint::Checkout { asset_id } => {
            segments.push("hardware".to_owned());
            segments.push(text::decimal(*asset_id as u128));
            segments.push("checkout".to_owned());
        },
        Endpoint::Checkin { asset_id } => {
            segments.push("hardware".to_owned());
            segments.push(text::decimal(*asset_id as u128));
            segments.push("checkin".to_owned());
        },
        Endpoint::Manufacturers => {
            segments.push("manufacturers".to_owned());
        },
        Endpoint::Categories => {
            segments.push("categories".to_owned());
        },
        Endpoint::Models => {
            segments.push("models".to_owned());
        },
    }
    proof {
        assert(segments.deep_view() =~= endpoint_segments(*endpoint));
    }
    segments
}

/// Why an endpoint has no URL: the serial that it names cannot stand in a path, or else the base
/// has no path that could be extended.
pub open spec fn endpoint_error(endpoint: Endpoint) -> ErrorView {
    if endpoint is AssetBySerial && !safe_serial(endpoint->AssetBySerial_serial@) {
        ErrorView::Validation { message: "serial is not a safe URL segment"@ }
    } else {
        invalid("base URL cannot contain path segments"@)
    }
}

/// The URL of an endpoint under a base URL, if it has one.
pub open spec fn endpoint_target(base: Seq<char>, endpoint: Endpoint) -> Option<Seq<char>> {
    if endpoint is AssetBySerial && !safe_serial(endpoint->AssetBySerial_serial@) {
        None
    } else {
        extended_url(base, endpoint_segments(endpoint))
    }
}

/// Makes the URL of an endpoint.
pub fn endpoint_url(base: &str, endpoint: &Endpoint) -> (result: Result<String, SnipeItError>)
    ensures
        match result {
            Ok(url) => endpoint_target(base@, *endpoint) == Some(url@),
            Err(error) => endpoint_target(base@, *endpoint) is None && error.deep_view()
                == endpoint_error(*endpoint),
        },
{
    match endpoint {
        Endpoint::AssetBySerial { serial } => match validate_serial(serial.as_str()) {
            Ok(()) => {},
            Err(error) => {
                return Err(error);
            },
        },
        _ => {},
    }
    let segments = list_segments(endpoint);
    match extend_url(base, &segments) {
        Some(url) => Ok(url),
        None => Err(safe_invalid("base URL cannot contain path segments")),
    }
}

/// The query of a page of a listing.
pub open spec fn page_query(search: Seq<char>, request: PageRequest) -> Seq<
    (Seq<char>, Seq<char>),
> {
    seq![
        ("search"@, search),
        ("limit"@, text::decimal_text(request.limit as nat)),
        ("offset"@, text::decimal_text(request.offset as nat)),
    ]
}

/// Lists the query of a page of a listing.
pub fn list_query(search: &str, request: PageRequest) -> (pairs: Vec<(String, String)>)
    ensures
        pairs.deep_view() == page_query(search@, request),
{
    let mut pairs: Vec<(String, String)> = Vec::new();
    pairs.push(("search".to_owned(), search.to_owned()));
    pairs.push(("limit".to_owned(), text::decimal(request.limit as u128)));
    pairs.push(("offset".to_owned(), text::decimal(request.offset as u128)));
    proof {
        assert(pairs.deep_view() =~= page_query(search@, request));
    }
    pairs
}

/// The URL of a page of a listing, if it has one.
pub open spec fn page_target(
    base: Seq<char>,
    endpoint: Endpoint,
    search: Seq<char>,
    request: PageRequest,
) -> Option<Seq<char>> {
    match endpoint_target(base, endpoint) {
        Some(url) => queried_url(url, page_query(search, request)),
        None => None,
    }
}

/// Makes the URL of a page of a listing.
pub fn page_url(base: &str, endpoint: &Endpoint, search: &str, request: PageRequest) -> (result:
    Result<String, SnipeItError>)
    ensures
        match result {
            Ok(url) => page_target(base@, *endpoint, search@, request) == Some(url@),
            Err(error) => page_target(base@, *endpoint, search@, request) is None
                && error.deep_view() == endpoint_error(*endpoint),
        },
{
    let url = match endpoint_url(base, endpoint) {
        Ok(url) => url,
        Err(error) => {
            return Err(error);
        },
    };
    let pairs = list_query(search, request);
    match extend_query(url.as_str(), &pairs) {
        Some(url) => Ok(url),
        None => Err(safe_invalid("base URL cannot contain path segments")),
    }
}

/// Every status of a response that is not a success has its meaning: the four that the server gives
/// for a refused token, a refused permission, a missing resource and too many requests; those of its
/// own failures; those of refused values; and all others are unexpected.
pub proof fn statuses_have_their_meaning(status: u16, retry: Option<u64>)
    ensures
        ({
            let error = status_error(status, retry);
            &&& error is AuthFailure <==> status == 401
            &&& error is PermissionDenied <==> status == 403
            &&& error is NotFound <==> status == 404
            &&& error is RateLimited <==> status == 429
            &&& error is RateLimited ==> error->retry_after == retry
            &&& error is ServerError <==> 500 <= status && status < 600
            &&& error is ServerError ==> error->ServerError_status == status
            &&& error is Validation <==> status == 400 || status == 409 || status == 422
            &&& success(status) ==> error is InvalidResponse
            &&& success(status) <==> 200 <= status && status < 300
            &&& oversized_error(status, retry) == if 200 <= status && status < 300 {
                ErrorView::InvalidResponse { message: "response body exceeds limit"@ }
            } else {
                error
            }
            &&& body_limit(status) == if 200 <= status && status < 300 {
                1024 * 1024int
            } else {
                16 * 1024int
            }
        }),
{
}

/// A page is taken exactly if it is no longer than asked for, the listing stays within its bound of
/// rows, and a full page leaves a request for the next.
pub proof fn pages_are_taken_within_bounds(requests: nat, values: nat, rows: nat)
    ensures
        page_refusal(requests, values, rows) is None <==> rows <= 100 && values + rows <= 10_000
            && (rows == 100 ==> requests + 1 < 100),
{
}

/// An address is accepted exactly if it is one of HTTPS, has a host, and has no user, password,
/// query or fragment.
pub proof fn accepted_addresses_are_plain(
    scheme: Seq<char>,
    username: Seq<char>,
    has_password: bool,
    has_query: bool,
    has_fragment: bool,
    has_host: bool,
)
    ensures
        judged_url(None) == Err::<(), UrlError>(UrlError::NotHttps),
        ({
            let judged = judged_url(
                Some((scheme, username, has_password, has_query, has_fragment, has_host)),
            );
            &&& scheme != "https"@ ==> judged == Err::<(), UrlError>(UrlError::NotHttps)
            &&& scheme == "https"@ ==> (judged is Ok <==> has_host && !has_password && !has_query
                && !has_fragment && username.len() == 0)
            &&& scheme == "https"@ && judged is Err ==> judged == Err::<(), UrlError>(
                UrlError::NotAnEndpoint,
            )
        }),
{
}

/// The serial of a request is a segment that stays below its address.
pub proof fn serials_stay_below_the_address(base: Seq<char>, serial: String)
    ensures
        ({
            let endpoint = Endpoint::AssetBySerial { serial };
            let unsafe_serial = serial@ == "."@ || serial@ == ".."@ || exists|i: int|
                0 <= i < serial@.len() && text::control(#[trigger] serial@[i]);
            &&& unsafe_serial ==> endpoint_target(base, endpoint) is None
            &&& unsafe_serial ==> endpoint_error(endpoint) == (ErrorView::Validation {
                message: "serial is not a safe URL segment"@,
            })
            &&& !unsafe_serial ==> endpoint_target(base, endpoint) == extended_url(
                base,
                endpoint_segments(endpoint),
            )
            &&& endpoint_segments(endpoint).last() == serial@
        }),
{
}

/// Endpoints of different assets are at different addresses below the server's, and so are an asset,
/// its check-out and its check-in.
pub proof fn endpoints_are_told_apart(first: u64, second: u64)
    ensures
        endpoint_segments(Endpoint::Asset { asset_id: first }) == endpoint_segments(
            Endpoint::Asset { asset_id: second },
        ) ==> first == second,
        endpoint_segments(Endpoint::Checkout { asset_id: first }) == endpoint_segments(
            Endpoint::Checkout { asset_id: second },
        ) ==> first == second,
        endpoint_segments(Endpoint::Checkin { asset_id: first }) == endpoint_segments(
            Endpoint::Checkin { asset_id: second },
        ) ==> first == second,
        endpoint_segments(Endpoint::Checkout { asset_id: first }) == endpoint_segments(
            Endpoint::Asset { asset_id: first },
        ).push("checkout"@),
        endpoint_segments(Endpoint::Checkin { asset_id: first }) == endpoint_segments(
            Endpoint::Asset { asset_id: first },
        ).push("checkin"@),
        endpoint_segments(Endpoint::Checkout { asset_id: first }) != endpoint_segments(
            Endpoint::Checkin { asset_id: second },
        ),
{
    text::decimal_round_trip(first as nat, u64::MAX as nat);
    text::decimal_round_trip(second as nat, u64::MAX as nat);
    reveal_strlit("checkout");
    reveal_strlit("checkin");
    assert("checkout"@.len() == 8);
    assert("checkin"@.len() == 7);
    let a = endpoint_segments(Endpoint::Asset { asset_id: first });
    let b = endpoint_segments(Endpoint::Asset { asset_id: second });
    assert(a[3] == text::decimal_text(first as nat));
    assert(b[3] == text::decimal_text(second as nat));
    let c = endpoint_segments(Endpoint::Checkout { asset_id: first });
    let d = endpoint_segments(Endpoint::Checkout { asset_id: second });
    assert(c[3] == text::decimal_text(first as nat));
    assert(d[3] == text::decimal_text(second as nat));
    let e = endpoint_segments(Endpoint::Checkin { asset_id: first });
    let f = endpoint_segments(Endpoint::Checkin { asset_id: second });
    assert(e[3] == text::decimal_text(first as nat));
    assert(f[3] == text::decimal_text(second as nat));
    assert(c[4] == "checkout"@);
    assert(f[4] == "checkin"@);
}

/// The query of a page tells what is searched for, and which rows are wanted.
pub proof fn page_queries_are_told_apart(
    search: Seq<char>,
    request: PageRequest,
    other_search: Seq<char>,
    other: PageRequest,
)
    requires
        page_query(search, request) == page_query(other_search, other),
    ensures
        search == other_search,
        request.limit == other.limit,
        request.offset == other.offset,
{
    let a = page_query(search, request);
    let b = page_query(other_search, other);
    assert(a[0] == b[0]);
    assert(a[1] == b[1]);
    assert(a[2] == b[2]);
    text::decimal_round_trip(request.limit as nat, u64::MAX as nat);
    text::decimal_round_trip(other.limit as nat, u64::MAX as nat);
    text::decimal_round_trip(request.offset as nat, u64::MAX as nat);
    text::decimal_round_trip(other.offset as nat, u64::MAX as nat);
}

/// Every request goes below the interface of its version: assets and what is done with them to the
/// hardware, by identifier or by serial, and listings to what they list.
pub proof fn endpoints_are_below_the_interface(serial: String, asset_id: u64)
    ensures
        ({
            let interface = seq!["api"@, "v1"@];
            let hardware = interface.push("hardware"@);
            &&& endpoint_segments(Endpoint::Manufacturers) == interface.push("manufacturers"@)
            &&& endpoint_segments(Endpoint::Categories) == interface.push("categories"@)
            &&& endpoint_segments(Endpoint::Models) == interface.push("models"@)
            &&& endpoint_segments(Endpoint::Asset { asset_id }) == hardware.push(
                text::decimal_text(asset_id as nat),
            )
            &&& endpoint_segments(Endpoint::AssetBySerial { serial }) == hardware.push(
                "byserial"@,
            ).push(serial@)
        }),
{
}

/// A delay is taken from a header that holds a number of seconds and nothing else; a header without
/// one, and no header, ask for none.
pub proof fn delays_are_numbers_of_seconds(seconds: u64, header: Seq<char>, index: int)
    ensures
        requested_delay(Some(text::decimal_text(seconds as nat))) == Some(seconds as nat),
        requested_delay(None) is None,
        0 <= index < header.len() && !text::is_digit(header[index]) && header[index] != '+'
            ==> requested_delay(Some(header)) is None,
        requested_delay(Some(header)) is Some ==> requested_delay(Some(header))->0 <= u64::MAX,
{
    text::decimal_round_trip(seconds as nat, u64::MAX as nat);
    text::numbers_are_read_from_digits(header, u64::MAX as nat, index);
}

} // verus!
