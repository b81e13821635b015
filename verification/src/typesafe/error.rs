//! What can go wrong, and what an unsuccessful response says.

use std::time::Duration;

use reqwest::header::HeaderMap;
use reqwest::StatusCode;
use vstd::arithmetic::power2::pow2;
use vstd::prelude::*;
use vstd::string::*;

use crate::double::{lemma_two_to_64, Double};
use crate::headers::{
    first_text, header_contents, header_text, law_header_text_is_the_first_value,
};
use crate::json::{field_index, parse, parsed, Json, Tree};
use crate::text::{
    decode_lossy, digits_value, is_blank, join, join3, law_unsigned_integers_are_read,
    lemma_trim_blank, lossy_text, optional, parse_unsigned, trimmed, unsigned_value,
};
use crate::time::{debug_duration, duration_text, nanos};

verus! {

/// Errors returned by this client.
#[derive(Debug)]
pub enum Error {
    /// The client is misconfigured (missing API key, invalid base URL, ...).
    Config(String),
    /// The request is invalid before it is sent (empty questions, bad
    /// criteria, ...).
    InvalidRequest(String),
    /// The API returned a non-2xx response after retries.
    Api(Box<ApiError>),
    /// A payload could not be serialized or a response could not be parsed.
    /// Holds what the JSON library said.
    Json(String),
    /// The request could not be sent (DNS, connect, interrupted body, ...).
    /// Holds what the HTTP library said.
    Connection(String),
    /// The request exceeded the per-attempt timeout after retries.
    Timeout { timeout: Duration, source: String },
}

/// What an [`Error`] says.
pub enum ErrorView {
    Config(Seq<char>),
    InvalidRequest(Seq<char>),
    Api(ApiErrorView),
    Json(Seq<char>),
    Connection(Seq<char>),
    Timeout { timeout: nat, source: Seq<char> },
}

/// An unsuccessful HTTP response from the TypeSafe API.
#[derive(Debug)]
pub struct ApiError {
    /// HTTP status code of the response.
    pub status: StatusCode,
    /// Best-effort human-readable message extracted from the response body.
    pub message: String,
    /// The parsed response body, when the body was valid JSON.
    pub body: Option<Json>,
    /// The response headers.
    pub headers: HeaderMap,
    /// Request ID from `x-typesafe-request-id`, when present.
    pub request_id: Option<String>,
}

/// What an [`ApiError`] says.
pub struct ApiErrorView {
    pub status: u16,
    pub message: Seq<char>,
    pub body: Option<Tree>,
    pub headers: Map<Seq<char>, Seq<Seq<u8>>>,
    pub request_id: Option<Seq<char>>,
}

/// The kind of an [`ApiError`], mirroring the error classes of the official SDKs.
#[derive(Debug, Clone, Copy, PartialEq, Eq, Hash, Structural)]
pub enum ApiErrorKind {
    /// 400 Bad Request.
    BadRequest,
    /// 401 Unauthorized: missing or invalid API key.
    Authentication,
    /// 403 Forbidden.
    PermissionDenied,
    /// 404 Not Found.
    NotFound,
    /// 422 Unprocessable Entity: the request body failed validation.
    UnprocessableEntity,
    /// 429 Too Many Requests: rate limit exceeded; back off and retry.
    RateLimit,
    /// 529 Overloaded: TypeSafe is temporarily overloaded; retry after a
    /// short delay.
    Overloaded,
    /// Any other 5xx server error.
    InternalServer,
    /// Any other status code.
    Other,
}

/// What an optional JSON value says.
pub open spec fn optional_tree(value: Option<Json>) -> Option<Tree> {
    match value {
        Some(value) => Some(value.tree()),
        None => None,
    }
}

impl View for ApiError {
    type V = ApiErrorView;

    open spec fn view(&self) -> ApiErrorView {
        ApiErrorView {
            status: status_number(self.status),
            message: self.message@,
            body: optional_tree(self.body),
            headers: header_contents(self.headers),
            request_id: optional(self.request_id),
        }
    }
}

impl View for Error {
    type V = ErrorView;

    open spec fn view(&self) -> ErrorView {
        match *self {
            Error::Config(message) => ErrorView::Config(message@),
            Error::InvalidRequest(message) => ErrorView::InvalidRequest(message@),
            Error::Api(error) => ErrorView::Api(error@),
            Error::Json(source) => ErrorView::Json(source@),
            Error::Connection(source) => ErrorView::Connection(source@),
            Error::Timeout { timeout, source } => ErrorView::Timeout {
                timeout: nanos(timeout),
                source: source@,
            },
        }
    }
}

#[verifier::external_type_specification]
#[verifier::external_body]
pub struct ExStatusCode(reqwest::StatusCode);

/// The number of a status, which is what `StatusCode::as_u16` returns.
pub uninterp spec fn status_number(status: StatusCode) -> u16;

/// The text that the `Display` of a status with this number writes: the number
/// and the reason phrase.
pub uninterp spec fn status_text(status: u16) -> Seq<char>;

/// `StatusCode::as_u16`: the number, which has three digits.
pub assume_specification[ StatusCode::as_u16 ](status: &StatusCode) -> (r: u16)
    ensures
        r == status_number(*status),
        100 <= r <= 999,
;

/// The `Display` of a `StatusCode`. Nothing is said of the text but that the
/// number alone decides it.
#[verifier::external_body]
fn display_status(status: StatusCode) -> (r: String)
    ensures
        r@ == status_text(status_number(status)),
{
    format!("{}", status)
}

impl ApiErrorView {
    /// How the error reads.
    pub open spec fn display(self) -> Seq<char> {
        let text = "TypeSafe API error ("@ + status_text(self.status) + "): "@ + self.message;
        match self.request_id {
            Some(id) => text + " (request id: "@ + id + ")"@,
            None => text,
        }
    }

    /// The delay before the next attempt that the response asks for, in
    /// nanoseconds. `seconds` is what the `Retry-After` header says.
    pub open spec fn requested_delay(self, seconds: Option<nat>) -> Option<nat> {
        match self.requested_millis() {
            Some(millis) => Some((millis * 1_000_000) as nat),
            None => if self.retry_after_text() is Some {
                seconds
            } else {
                None
            },
        }
    }

    /// The number in the `retry-after-ms` header.
    pub open spec fn requested_millis(self) -> Option<u64> {
        match header_text(self.headers, "retry-after-ms"@) {
            Some(text) => unsigned_value(trimmed(text)),
            None => None,
        }
    }

    /// The `Retry-After` header without white space at its ends.
    pub open spec fn retry_after_text(self) -> Option<Seq<char>> {
        match header_text(self.headers, "retry-after"@) {
            Some(text) => Some(trimmed(text)),
            None => None,
        }
    }
}

/// The class of a status code.
pub open spec fn kind_of(status: u16) -> ApiErrorKind {
    if status == 400 {
        ApiErrorKind::BadRequest
    } else if status == 401 {
        ApiErrorKind::Authentication
    } else if status == 403 {
        ApiErrorKind::PermissionDenied
    } else if status == 404 {
        ApiErrorKind::NotFound
    } else if status == 422 {
        ApiErrorKind::UnprocessableEntity
    } else if status == 429 {
        ApiErrorKind::RateLimit
    } else if status == 529 {
        ApiErrorKind::Overloaded
    } else if 500 <= status <= 599 {
        ApiErrorKind::InternalServer
    } else {
        ApiErrorKind::Other
    }
}

impl ApiError {
    /// The kind of error, mirroring the error classes of the official SDKs.
    pub fn kind(&self) -> (r: ApiErrorKind)
        ensures
            r == kind_of(self@.status),
            r == kind_of(status_number(self.status)),
    {
        match self.status.as_u16() {
            400 => ApiErrorKind::BadRequest,
            401 => ApiErrorKind::Authentication,
            403 => ApiErrorKind::PermissionDenied,
            404 => ApiErrorKind::NotFound,
            422 => ApiErrorKind::UnprocessableEntity,
            429 => ApiErrorKind::RateLimit,
            529 => ApiErrorKind::Overloaded,
            500..=599 => ApiErrorKind::InternalServer,
            _ => ApiErrorKind::Other,
        }
    }

    /// The value of the `Retry-After` header, when it is readable text, without
    /// white space at its ends.
    pub fn retry_after_text(&self) -> (r: Option<&str>)
        ensures
            match r {
                Some(text) => self@.retry_after_text() == Some(text@),
                None => self@.retry_after_text() is None,
            },
    {
        proof {
            reveal_strlit("retry-after");
        }
        match first_text(&self.headers, "retry-after") {
            Some(text) => Some(text.trim()),
            None => None,
        }
    }

    /// The server-requested delay before retrying, from the `retry-after-ms`
    /// (milliseconds) or `Retry-After` (seconds) headers. `seconds` is the
    /// duration that [`retry_after_text`](Self::retry_after_text) says, if it
    /// says one; HTTP-date `Retry-After` values say none.
    pub fn retry_after(&self, seconds: Option<Duration>) -> (r: Option<Duration>)
        ensures
            optional_nanos(r) == self@.requested_delay(optional_nanos(seconds)),
    {
        proof {
            reveal_strlit("retry-after-ms");
        }
        if let Some(text) = first_text(&self.headers, "retry-after-ms") {
            if let Some(millis) = parse_unsigned(text.trim()) {
                return Some(Duration::from_millis(millis));
            }
        }
        if self.retry_after_text().is_some() {
            seconds
        } else {
            None
        }
    }

    /// How the error reads: the status, the message and the request ID.
    pub fn to_string(&self) -> (r: String)
        ensures
            r@ == self@.display(),
    {
        let mut text = join3(
            "TypeSafe API error (",
            display_status(self.status).as_str(),
            "): ",
        );
        text.append(self.message.as_str());
        if let Some(request_id) = &self.request_id {
            text.append(" (request id: ");
            text.append(request_id.as_str());
            text.append(")");
        }
        text
    }
}

/// Whether so many seconds are a delay: a number from zero up and below two to
/// the power of 64, from which on no duration is as long.
pub fn is_delay(seconds: Double) -> (r: bool)
    ensures
        r == (!seconds.is_nan() && 0 <= seconds.number() < pow2(64 + 1074)),
{
    let zero = Double { bits: 0 };
    proof {
        lemma_two_to_64();
        assert(zero.number() == 0 && !zero.is_nan());
    }
    seconds.ge(&zero) && !seconds.ge(&Double { bits: 0x43F0_0000_0000_0000 })
}

/// The length of an optional duration in nanoseconds.
pub open spec fn optional_nanos(duration: Option<Duration>) -> Option<nat> {
    match duration {
        Some(duration) => Some(nanos(duration)),
        None => None,
    }
}

impl ErrorView {
    /// How the error reads.
    pub open spec fn display(self) -> Seq<char> {
        match self {
            ErrorView::Config(message) => "invalid client configuration: "@ + message,
            ErrorView::InvalidRequest(message) => "invalid request: "@ + message,
            ErrorView::Api(error) => error.display(),
            ErrorView::Json(source) => "failed to process a TypeSafe API payload: "@ + source,
            ErrorView::Connection(source) => "connection to the TypeSafe API failed: "@ + source,
            ErrorView::Timeout { timeout, .. } => "request to the TypeSafe API timed out after "@
                + duration_text(timeout),
        }
    }

    /// How the error reads that caused this one.
    pub open spec fn source(self) -> Option<Seq<char>> {
        match self {
            ErrorView::Config(_) => None,
            ErrorView::InvalidRequest(_) => None,
            ErrorView::Api(error) => Some(error.display()),
            ErrorView::Json(source) => Some(source),
            ErrorView::Connection(source) => Some(source),
            ErrorView::Timeout { source, .. } => Some(source),
        }
    }
}

impl Error {
    /// How the error reads.
    pub fn to_string(&self) -> (r: String)
        ensures
            r@ == self@.display(),
    {
        match self {
            Error::Config(message) => join("invalid client configuration: ", message.as_str()),
            Error::InvalidRequest(message) => join("invalid request: ", message.as_str()),
            Error::Api(error) => error.to_string(),
            Error::Json(source) => join(
                "failed to process a TypeSafe API payload: ",
                source.as_str(),
            ),
            Error::Connection(source) => join(
                "connection to the TypeSafe API failed: ",
                source.as_str(),
            ),
            Error::Timeout { timeout, .. } => join(
                "request to the TypeSafe API timed out after ",
                debug_duration(*timeout).as_str(),
            ),
        }
    }

    /// How the error reads that caused this one, where there is one.
    pub fn source(&self) -> (r: Option<String>)
        ensures
            optional(r) == self@.source(),
    {
        match self {
            Error::Api(error) => Some(error.to_string()),
            Error::Json(source) => Some(source.clone()),
            Error::Connection(source) => Some(source.clone()),
            Error::Timeout { source, .. } => Some(source.clone()),
            Error::Config(_) => None,
            Error::InvalidRequest(_) => None,
        }
    }
}

impl From<ApiError> for Error {
    fn from(error: ApiError) -> (r: Self) {
        Error::Api(Box::new(error))
    }
}

impl vstd::std_specs::convert::FromSpecImpl<ApiError> for Error {
    open spec fn obeys_from_spec() -> bool {
        true
    }

    open spec fn from_spec(error: ApiError) -> Self {
        Error::Api(Box::new(error))
    }
}

/// Classify a transport failure as an [`Error::Timeout`] or an
/// [`Error::Connection`]. `source` is what the HTTP library said of it.
pub fn transport_error(source: String, timed_out: bool, timeout: Duration) -> (r: Error)
    ensures
        r@ == (if timed_out {
            ErrorView::Timeout { timeout: nanos(timeout), source: source@ }
        } else {
            ErrorView::Connection(source@)
        }),
{
    if timed_out {
        Error::Timeout { timeout, source }
    } else {
        Error::Connection(source)
    }
}

/// The place of the field that tells the message: the first of the keys
/// `message`, `error`, `detail` and `msg` that occurs.
pub open spec fn message_field(fields: Seq<(Seq<char>, Tree)>) -> nat {
    if field_index(fields, "message"@) < fields.len() {
        field_index(fields, "message"@)
    } else if field_index(fields, "error"@) < fields.len() {
        field_index(fields, "error"@)
    } else if field_index(fields, "detail"@) < fields.len() {
        field_index(fields, "detail"@)
    } else {
        field_index(fields, "msg"@)
    }
}

/// The message inside an error body: a text is its own message, an object has
/// that of its message field, an array that of its first item with one.
pub open spec fn message_in(tree: Tree) -> Option<Seq<char>>
    decreases tree, 0nat,
{
    match tree {
        Tree::Text(text) => Some(text),
        Tree::Object(fields) => {
            let i = message_field(fields);
            if i < fields.len() {
                message_in(fields[i as int].1)
            } else {
                None
            }
        },
        Tree::Array(items) => message_among(items, 0),
        _ => None,
    }
}

/// The message of the first item with one, from the item at `from` on.
pub open spec fn message_among(items: Seq<Tree>, from: nat) -> Option<Seq<char>>
    decreases items, items.len() - from,
{
    if from >= items.len() {
        None
    } else {
        match message_in(items[from as int]) {
            Some(message) => Some(message),
            None => message_among(items, from + 1),
        }
    }
}

/// The message of a response body that reads `raw` and says `body` as JSON.
pub open spec fn message_of(body: Option<Tree>, raw: Seq<char>) -> Seq<char> {
    match body {
        Some(tree) if message_in(tree) is Some => message_in(tree)->0,
        _ => if is_blank(raw) {
            "the API returned an error with no details"@
        } else if trimmed(raw).len() <= 500 {
            trimmed(raw)
        } else {
            trimmed(raw).take(500) + "…"@
        },
    }
}

/// Where the body tells no message, what it reads stands in for one: never
/// nothing, and at most 500 characters and an ellipsis.
pub proof fn law_raw_message_is_short(body: Option<Tree>, raw: Seq<char>)
    requires
        body matches Some(tree) ==> message_in(tree) is None,
    ensures
        1 <= message_of(body, raw).len() <= 501,
{
    lemma_trim_blank(raw);
    reveal_strlit("the API returned an error with no details");
    reveal_strlit("…");
}

/// The milliseconds that a response asks for count, whatever its `Retry-After`
/// header says, and without either header no delay is asked for.
pub proof fn law_milliseconds_count_first(error: ApiErrorView, seconds: Option<nat>)
    ensures
        error.requested_millis() matches Some(millis) ==> error.requested_delay(seconds) == Some(
            (millis * 1_000_000) as nat,
        ),
        error.requested_millis() is None && error.retry_after_text() is None
            ==> error.requested_delay(seconds) is None,
{
}

/// Build a human-readable message from an error response body.
pub fn error_message(body: &Option<Json>, raw: &str) -> (r: String)
    ensures
        r@ == message_of(optional_tree(*body), raw@),
{
    if let Some(value) = body {
        if let Some(message) = extract_message(value) {
            return message;
        }
    }
    proof {
        lemma_trim_blank(raw@);
    }
    let raw = raw.trim();
    let count: usize = raw.unicode_len();
    if count == 0 {
        "the API returned an error with no details".to_owned()
    } else if count <= 500 {
        raw.to_owned()
    } else {
        let start = raw.substring_char(0, 500);
        assert(raw@.subrange(0, 500) =~= raw@.take(500));
        join(start, "…")
    }
}

/// Find a message inside an error body: the first of the keys `message`,
/// `error`, `detail`, or `msg` (recursively, as in `{"detail": [{"msg": ...}]}`).
pub fn extract_message(value: &Json) -> (r: Option<String>)
    ensures
        optional(r) == message_in(value.tree()),
    decreases value,
{
    match value {
        Json::Text(text) => Some(text.clone()),
        Json::Object(_) => {
            if let Some(inner) = value.get("message") {
                return extract_message(inner);
            }
            if let Some(inner) = value.get("error") {
                return extract_message(inner);
            }
            if let Some(inner) = value.get("detail") {
                return extract_message(inner);
            }
            if let Some(inner) = value.get("msg") {
                return extract_message(inner);
            }
            None
        },
        Json::Array(items) => {
            let ghost trees = value.tree()->Array_0;
            let mut i: usize = 0;
            while i < items.len()
                invariant
                    *value == Json::Array(*items),
                    value.tree() == Tree::Array(trees),
                    trees.len() == items@.len(),
                    i <= items@.len(),
                    message_in(value.tree()) == message_among(trees, i as nat),
                decreases items@.len() - i,
            {
                assert(decreases_to!(*value => value->Array_0));
                assert(decreases_to!(items => items@));
                assert(decreases_to!(items@ => items@[i as int]));
                assert(trees[i as int] == items@[i as int].tree());
                if let Some(message) = extract_message(&items[i]) {
                    return Some(message);
                }
                i = i + 1;
            }
            None
        },
        _ => None,
    }
}

/// What an unsuccessful response says.
pub open spec fn response_error(
    status: u16,
    headers: Map<Seq<char>, Seq<Seq<u8>>>,
    bytes: Seq<u8>,
) -> ApiErrorView {
    ApiErrorView {
        status,
        message: message_of(parsed(bytes), lossy_text(bytes)),
        body: parsed(bytes),
        headers,
        request_id: header_text(headers, "x-typesafe-request-id"@),
    }
}

/// Whether a status reports success.
pub open spec fn is_success(status: u16) -> bool {
    200 <= status <= 299
}

/// Check the status of a response that was read whole: an unsuccessful one
/// becomes an [`Error::Api`] with the message found in its body.
pub fn check_response(status: StatusCode, headers: HeaderMap, bytes: &[u8]) -> (r: Result<
    (),
    Error,
>)
    ensures
        match r {
            Ok(_) => is_success(status_number(status)),
            Err(error) => !is_success(status_number(status)) && error@ == ErrorView::Api(
                response_error(status_number(status), header_contents(headers), bytes@),
            ),
        },
        r is Ok <==> 200 <= status_number(status) <= 299,
        r matches Err(error) ==> error matches Error::Api(error) && error.status == status
            && error.headers == headers,
{
    let number: u16 = status.as_u16();
    if number >= 200 && number <= 299 {
        return Ok(());
    }
    let body = parse(bytes);
    let message = error_message(&body, decode_lossy(bytes).as_str());
    proof {
        reveal_strlit("x-typesafe-request-id");
    }
    let request_id = match first_text(&headers, "x-typesafe-request-id") {
        Some(id) => Some(id.to_owned()),
        None => None,
    };
    Err(Error::Api(Box::new(ApiError { status, message, body, headers, request_id })))
}

// ---------------------------------------------------------------------------
// Laws
// ---------------------------------------------------------------------------

/// A response is a success exactly when its status is from 200 to 299: neither
/// a redirect, nor an error of the client, nor one of the server is.
pub proof fn law_success_is_200_to_299(status: u16)
    ensures
        is_success(status) <==> 200 <= status && status < 300,
        status >= 300 ==> !is_success(status),
        status < 200 ==> !is_success(status),
{
}

/// A status that is a kind of error by itself is no success, and each kind
/// belongs to its statuses and to no other.
pub proof fn law_kinds_of_statuses(status: u16)
    ensures
        kind_of(status) is BadRequest <==> status == 400,
        kind_of(status) is Authentication <==> status == 401,
        kind_of(status) is PermissionDenied <==> status == 403,
        kind_of(status) is NotFound <==> status == 404,
        kind_of(status) is UnprocessableEntity <==> status == 422,
        kind_of(status) is RateLimit <==> status == 429,
        kind_of(status) is Overloaded <==> status == 529,
        kind_of(status) is InternalServer <==> status / 100 == 5 && status != 529,
        !(kind_of(status) is Other) ==> !is_success(status),
{
}

/// A response is reported as it was: its status, its headers, what its body
/// says as JSON, and the request ID among its headers.
pub proof fn law_response_is_reported(
    status: u16,
    headers: Map<Seq<char>, Seq<Seq<u8>>>,
    bytes: Seq<u8>,
)
    ensures
        response_error(status, headers, bytes).status == status,
        response_error(status, headers, bytes).headers == headers,
        response_error(status, headers, bytes).body == parsed(bytes),
        response_error(status, headers, bytes).request_id == header_text(
            headers,
            "x-typesafe-request-id"@,
        ),
        response_error(status, headers, bytes).message == message_of(
            parsed(bytes),
            lossy_text(bytes),
        ),
{
}

/// The message that the body tells is the message. Without one it is what the
/// body reads, without white space at its ends, cut behind 500 characters with
/// an ellipsis, and a blank body is said to have no details.
pub proof fn law_message_of_a_body(body: Option<Tree>, raw: Seq<char>, tree: Tree, told: Seq<char>)
    ensures
        body == Some(tree) && message_in(tree) == Some(told) ==> message_of(body, raw) == told,
        body is None || message_in(body->0) is None ==> {
            let message = message_of(body, raw);
            let text = trimmed(raw);
            &&& text.len() == 0 ==> message == "the API returned an error with no details"@
            &&& 1 <= text.len() <= 500 ==> message == text
            &&& text.len() > 500 ==> message.len() == 501 && message.take(500) == text.take(500)
                && message[500] == '…'
        },
{
    lemma_trim_blank(raw);
    reveal_strlit("…");
    if trimmed(raw).len() > 500 {
        let message = trimmed(raw).take(500) + "…"@;
        assert(message.take(500) =~= trimmed(raw).take(500));
        assert(message[500] == "…"@[0]);
    }
}

/// A text is its own message, and a number, a truth value or nothing tells
/// none.
pub proof fn law_message_of_a_scalar(tree: Tree)
    ensures
        tree matches Tree::Text(text) ==> message_in(tree) == Some(text),
        tree is Null || tree is Bool || tree is Number ==> message_in(tree) is None,
{
}

/// An object tells the message in the first of the fields `message`, `error`,
/// `detail` and `msg` that it has, whatever else it has, and none without
/// them.
pub proof fn law_message_of_an_object(tree: Tree, k: int)
    requires
        tree is Object,
        0 <= k <= 4,
        ({
            let keys = seq!["message"@, "error"@, "detail"@, "msg"@];
            &&& forall|j: int| 0 <= j < k ==> tree.field(#[trigger] keys[j]) is None
            &&& k < 4 ==> tree.field(keys[k]) is Some
        }),
    ensures
        k < 4 ==> message_in(tree) == message_in(
            tree.field(seq!["message"@, "error"@, "detail"@, "msg"@][k])->0,
        ),
        k == 4 ==> message_in(tree) is None,
{
    let keys = seq!["message"@, "error"@, "detail"@, "msg"@];
    assert(keys[0] == "message"@ && keys[1] == "error"@ && keys[2] == "detail"@ && keys[3]
        == "msg"@);
    if k > 0 {
        assert(tree.field(keys[0]) is None);
    }
    if k > 1 {
        assert(tree.field(keys[1]) is None);
    }
    if k > 2 {
        assert(tree.field(keys[2]) is None);
    }
    if k > 3 {
        assert(tree.field(keys[3]) is None);
    }
}

/// An array tells the message of its first item that tells one, and none where
/// no item does.
pub proof fn law_message_of_an_array(items: Seq<Tree>)
    ensures
        match message_in(Tree::Array(items)) {
            Some(message) => exists|i: int|
                {
                    &&& 0 <= i < items.len()
                    &&& message_in(#[trigger] items[i]) == Some(message)
                    &&& forall|j: int| 0 <= j < i ==> message_in(#[trigger] items[j]) is None
                },
            None => forall|i: int| 0 <= i < items.len() ==> message_in(#[trigger] items[i]) is None,
        },
{
    lemma_message_among(items, 0);
}

proof fn lemma_message_among(items: Seq<Tree>, from: nat)
    requires
        from <= items.len(),
    ensures
        match message_among(items, from) {
            Some(message) => exists|i: int|
                {
                    &&& from <= i < items.len()
                    &&& message_in(#[trigger] items[i]) == Some(message)
                    &&& forall|j: int| from <= j < i ==> message_in(#[trigger] items[j]) is None
                },
            None => forall|i: int|
                from <= i < items.len() ==> message_in(#[trigger] items[i]) is None,
        },
    decreases items.len() - from,
{
    if from < items.len() {
        if message_in(items[from as int]) is None {
            lemma_message_among(items, from + 1);
            if let Some(message) = message_among(items, from + 1) {
                let i = choose|i: int|
                    {
                        &&& from + 1 <= i < items.len()
                        &&& message_in(#[trigger] items[i]) == Some(message)
                        &&& forall|j: int|
                            from + 1 <= j < i ==> message_in(#[trigger] items[j]) is None
                    };
                assert(message_in(items[i]) == Some(message));
            }
        } else {
            assert(message_in(items[from as int]) == message_among(items, from));
        }
    }
}

/// The headers alone say which delay a response asks for: not its status, its
/// message or its body.
pub proof fn law_headers_decide_the_requested_delay(
    one: ApiErrorView,
    other: ApiErrorView,
    seconds: Option<nat>,
)
    requires
        one.headers == other.headers,
    ensures
        one.requested_delay(seconds) == other.requested_delay(seconds),
{
}

/// Digits in the `retry-after-ms` header are milliseconds, of a million
/// nanoseconds each, whatever status the response has and whatever its
/// `Retry-After` header says.
pub proof fn law_milliseconds_are_read(error: ApiErrorView, seconds: Option<nat>)
    requires
        error.headers.contains_key("retry-after-ms"@),
        ({
            let bytes = error.headers["retry-after-ms"@][0];
            &&& bytes.len() > 0
            &&& forall|i: int| 0 <= i < bytes.len() ==> 48 <= #[trigger] bytes[i] <= 57
            &&& digits_value(Seq::new(bytes.len(), |i: int| bytes[i] as char)) <= u64::MAX
        }),
    ensures
        ({
            let bytes = error.headers["retry-after-ms"@][0];
            let digits = Seq::new(bytes.len(), |i: int| bytes[i] as char);
            error.requested_delay(seconds) == Some(digits_value(digits) * 1_000_000)
        }),
{
    let bytes = error.headers["retry-after-ms"@][0];
    let digits = Seq::new(bytes.len(), |i: int| bytes[i] as char);
    law_header_text_is_the_first_value(error.headers, "retry-after-ms"@);
    let text = header_text(error.headers, "retry-after-ms"@)->0;
    assert(text =~= digits);
    assert(digits.first() == bytes[0] as char && digits.last() == bytes[bytes.len() - 1] as char);
    assert(trimmed(digits) == digits);
    assert forall|i: int| 0 <= i < digits.len() implies '0' <= #[trigger] digits[i] <= '9' by {
        assert(digits[i] == bytes[i] as char);
    }
    law_unsigned_integers_are_read(digits);
}

/// Without a number in the `retry-after-ms` header, a response with a readable
/// `Retry-After` header asks for the delay that this says, and one without asks
/// for none.
pub proof fn law_seconds_are_the_fallback(error: ApiErrorView, seconds: Option<nat>)
    requires
        match header_text(error.headers, "retry-after-ms"@) {
            Some(text) => unsigned_value(trimmed(text)) is None,
            None => true,
        },
    ensures
        match header_text(error.headers, "retry-after"@) {
            Some(text) => error.retry_after_text() == Some(trimmed(text)) && error.requested_delay(
                seconds,
            ) == seconds,
            None => error.retry_after_text() is None && error.requested_delay(seconds) is None,
        },
{
}

/// An unsuccessful response reads as its status and its message, followed by
/// the request ID where it has one.
pub proof fn law_api_errors_read(error: ApiErrorView, id: Seq<char>)
    ensures
        (ApiErrorView { request_id: None, ..error }).display() == "TypeSafe API error ("@
            + status_text(error.status) + "): "@ + error.message,
        (ApiErrorView { request_id: Some(id), ..error }).display() == (ApiErrorView {
            request_id: None,
            ..error
        }).display() + " (request id: "@ + id + ")"@,
{
}

/// Every error reads as what went wrong and the text that it holds, and the
/// error that caused it, where there is one, reads as that text.
pub proof fn law_errors_read(text: Seq<char>, error: ApiErrorView, timeout: nat)
    ensures
        ErrorView::Config(text).display() == "invalid client configuration: "@ + text,
        ErrorView::InvalidRequest(text).display() == "invalid request: "@ + text,
        ErrorView::Api(error).display() == error.display(),
        ErrorView::Json(text).display() == "failed to process a TypeSafe API payload: "@ + text,
        ErrorView::Connection(text).display() == "connection to the TypeSafe API failed: "@ + text,
        (ErrorView::Timeout { timeout, source: text }).display()
            == "request to the TypeSafe API timed out after "@ + duration_text(timeout),
        ErrorView::Config(text).source() is None,
        ErrorView::InvalidRequest(text).source() is None,
        ErrorView::Api(error).source() == Some(error.display()),
        ErrorView::Json(text).source() == Some(text),
        ErrorView::Connection(text).source() == Some(text),
        (ErrorView::Timeout { timeout, source: text }).source() == Some(text),
{
}

/// What an unsuccessful response says is what its fields hold.
pub proof fn law_api_errors_say(error: ApiError)
    ensures
        error@.status == status_number(error.status),
        error@.message == error.message@,
        match error.body {
            Some(body) => error@.body == Some(body.tree()),
            None => error@.body is None,
        },
        error@.headers == header_contents(error.headers),
        match error.request_id {
            Some(id) => error@.request_id == Some(id@),
            None => error@.request_id is None,
        },
{
}

/// What an optional value says is what the value says, if there is one.
pub proof fn law_optional_values(value: Json, duration: Duration)
    ensures
        optional_tree(Some(value)) == Some(value.tree()),
        optional_tree(None) is None,
        optional_nanos(Some(duration)) == Some(nanos(duration)),
        optional_nanos(None) is None,
{
}

/// An error says its kind and the text that it holds.
pub proof fn law_errors_say(error: Error)
    ensures
        match error {
            Error::Config(text) => error@ == ErrorView::Config(text@),
            Error::InvalidRequest(text) => error@ == ErrorView::InvalidRequest(text@),
            Error::Api(response) => error@ == ErrorView::Api(response@),
            Error::Json(text) => error@ == ErrorView::Json(text@),
            Error::Connection(text) => error@ == ErrorView::Connection(text@),
            Error::Timeout { timeout, source } => error@ == (ErrorView::Timeout {
                timeout: nanos(timeout),
                source: source@,
            }),
        },
{
}

} // verus!
