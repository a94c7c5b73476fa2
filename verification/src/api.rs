//! Talking to the API: authentication, requests, responses and uploads.
use vstd::prelude::*;
use vstd::string::*;

use crate::clock;
use crate::config::{OAuthConfig, OAuthConfigView};
use crate::error::{CliError, CliErrorView, ErrorKind, Failure, FailureView};
use crate::json::{Json, JsonNumberView, JsonView};
use crate::json_text;
use crate::retry::RetryConfig;
use crate::text;
use crate::text::{clone_text, joined2, joined3, same_text};

verus! {

pub const LINEAR_API_URL: &'static str = "https://api.linear.app/graphql";

pub const LINEAR_UPLOADS_HOST: &'static str = "uploads.linear.app";

/// A GraphQL request: the text of the operation and its variables.
#[derive(Debug)]
pub struct Request {
    pub query: &'static str,
    pub variables: Option<Json>,
}

#[verifier::ext_equal]
pub struct RequestView {
    pub query: Seq<char>,
    pub variables: Option<JsonView>,
}

impl View for Request {
    type V = RequestView;

    open spec fn view(&self) -> RequestView {
        RequestView { query: self.query@, variables: self.variables.deep_view() }
    }
}

impl RequestView {
    pub open spec fn plain(query: Seq<char>) -> RequestView {
        RequestView { query, variables: None }
    }

    pub open spec fn with(query: Seq<char>, variables: JsonView) -> RequestView {
        RequestView { query, variables: Some(variables) }
    }
}

impl Request {
    pub fn plain(query: &'static str) -> (r: Request)
        ensures
            r@ == RequestView::plain(query@),
    {
        Request { query, variables: None }
    }

    pub fn with(query: &'static str, variables: Json) -> (r: Request)
        ensures
            r@ == RequestView::with(query@, variables@),
    {
        Request { query, variables: Some(variables) }
    }
}

pub open spec fn body_of(query: Seq<char>, variables: Option<JsonView>) -> JsonView {
    let body = JsonView::object().with("query"@, JsonView::Text(query));
    match variables {
        Some(variables) => body.with("variables"@, variables),
        None => body,
    }
}

/// The JSON body that a request is sent with.
pub fn request_body(query: &str, variables: &Option<Json>) -> (r: Json)
    ensures
        r@ == body_of(query@, variables.deep_view()),
{
    let body = Json::object().with("query", Json::text(query));
    match variables {
        Some(variables) => body.with("variables", variables.copy()),
        None => body,
    }
}

/// What a change is answered with: a part of the answer where the change is
/// confirmed, else the refusal.
pub open spec fn confirmation(
    response: JsonView,
    field: Seq<char>,
    part: Seq<char>,
    refusal: Seq<char>,
) -> Result<JsonView, FailureView> {
    let answer = response.at("data"@).at(field);
    if answer.at("success"@).is_true() {
        Ok(answer.at(part))
    } else {
        Err(FailureView::message(refusal))
    }
}

/// The part of an answer that shows a change, where the change is confirmed.
pub fn confirmed<'a>(response: &'a Json, field: &str, part: &str, refusal: &str) -> (r: Result<
    &'a Json,
    Failure,
>)
    ensures
        match confirmation(response@, field@, part@, refusal@) {
            Ok(value) => r is Ok && r->Ok_0@ == value,
            Err(failure) => r is Err && r->Err_0@ == failure,
        },
{
    let answer = response.at("data").at(field);
    if answer.at("success").is_true() {
        Ok(answer.at(part))
    } else {
        Err(Failure::message(refusal))
    }
}

/// The headers of a response that matter when it is an error.
pub struct ResponseHeaders {
    /// `retry-after`
    pub retry_after: Option<String>,
    /// `x-request-id`
    pub request_id: Option<String>,
}

#[verifier::ext_equal]
pub struct ResponseHeadersView {
    pub retry_after: Option<Seq<char>>,
    pub request_id: Option<Seq<char>>,
}

impl View for ResponseHeaders {
    type V = ResponseHeadersView;

    open spec fn view(&self) -> ResponseHeadersView {
        ResponseHeadersView {
            retry_after: self.retry_after.deep_view(),
            request_id: self.request_id.deep_view(),
        }
    }
}

/// The standard phrase of a status code: what `StatusCode::canonical_reason`
/// gives for it.
pub uninterp spec fn canonical_reason(status: u16) -> Option<Seq<char>>;

/// `reqwest::StatusCode::canonical_reason` of a status number; nothing where the
/// number is no status code.
#[verifier::external_body]
fn status_reason(status: u16) -> (r: Option<String>)
    ensures
        r.deep_view() == canonical_reason(status),
{
    let code = reqwest::StatusCode::from_u16(status).ok()?;
    code.canonical_reason().map(|reason| reason.to_string())
}

/// The seconds to wait that a response asks for.
pub open spec fn retry_seconds(headers: ResponseHeadersView) -> Option<u64> {
    match headers.retry_after {
        Some(value) => match text::within(
            text::nat_value(text::unsigned_value(value)),
            0,
            u64::MAX as int,
        ) {
            Some(n) => Some(n as u64),
            None => None,
        },
        None => None,
    }
}

pub open spec fn reason_text(reason: Option<Seq<char>>) -> Seq<char> {
    match reason {
        Some(reason) => reason,
        None => "Unknown error"@,
    }
}

pub open spec fn status_number(status: u16) -> JsonView {
    JsonView::Number(JsonNumberView::Unsigned(status as u64))
}

/// What is known of a response that is an error.
pub open spec fn http_details(
    status: u16,
    headers: ResponseHeadersView,
    reason: Option<Seq<char>>,
) -> JsonView {
    JsonView::object().with("status"@, status_number(status)).with(
        "reason"@,
        JsonView::Text(reason_text(reason)),
    ).with("request_id"@, JsonView::opt_text(headers.request_id))
}

/// The error that a status stands for.
pub open spec fn http_fault(
    status: u16,
    headers: ResponseHeadersView,
    context: Seq<char>,
    reason: Option<Seq<char>>,
) -> CliErrorView {
    let plain = if status == 401 {
        CliErrorView::plain(ErrorKind::Auth, "Authentication failed - check your API key"@)
    } else if status == 403 {
        CliErrorView::plain(ErrorKind::Auth, "Access denied - "@ + context)
    } else if status == 404 {
        CliErrorView::plain(ErrorKind::NotFound, context + " not found"@)
    } else if status == 429 {
        CliErrorView {
            retry_after: retry_seconds(headers),
            ..CliErrorView::plain(ErrorKind::RateLimited, "Rate limit exceeded"@)
        }
    } else {
        CliErrorView::plain(
            ErrorKind::General,
            "HTTP "@ + text::decimal(status as nat) + " "@ + reason_text(reason),
        )
    };
    CliErrorView { details: Some(http_details(status, headers, reason)), ..plain }
}

fn retry_delay(headers: &ResponseHeaders) -> (r: Option<u64>)
    ensures
        r == retry_seconds(headers@),
{
    match &headers.retry_after {
        Some(value) => text::parse_u64(value.as_str()),
        None => None,
    }
}

/// The error of a response, given the standard phrase of its status.
pub fn http_error_with_reason(
    status: u16,
    headers: &ResponseHeaders,
    context: &str,
    reason: &Option<String>,
) -> (r: CliError)
    ensures
        r@ == http_fault(status, headers@, context@, reason.deep_view()),
{
    let phrase = match reason {
        Some(reason) => reason.clone(),
        None => "Unknown error".to_string(),
    };
    let details = Json::object().with("status", Json::number(status as u64)).with(
        "reason",
        Json::text(phrase.as_str()),
    ).with("request_id", Json::opt_text(&headers.request_id));
    let error = if status == 401 {
        CliError::auth("Authentication failed - check your API key")
    } else if status == 403 {
        CliError::auth(joined2("Access denied - ", context).as_str())
    } else if status == 404 {
        CliError::not_found(joined2(context, " not found").as_str())
    } else if status == 429 {
        CliError::rate_limited("Rate limit exceeded").with_retry_after(retry_delay(headers))
    } else {
        let number = joined3("HTTP ", text::decimal_text(status as u64).as_str(), " ");
        CliError::general(joined2(number.as_str(), phrase.as_str()).as_str())
    };
    error.with_details(details)
}

/// Builds an error from the status and the headers of a response.
pub fn http_error(status: u16, headers: &ResponseHeaders, context: &str) -> (r: CliError)
    ensures
        r@ == http_fault(status, headers@, context@, canonical_reason(status)),
{
    let reason = status_reason(status);
    http_error_with_reason(status, headers, context, &reason)
}

/// The transport's error, refined by what the payload says of it.
pub open spec fn refined(http: CliErrorView, body: JsonView) -> CliErrorView {
    match body.get("errors"@) {
        Some(errors) => {
            let payload = CliErrorView::from_graphql_errors(errors);
            if payload.kind == ErrorKind::General {
                http
            } else {
                CliErrorView {
                    kind: payload.kind,
                    message: http.message,
                    details: None,
                    retry_after: match http.retry_after {
                        Some(seconds) => Some(seconds),
                        None => payload.retry_after,
                    },
                }
            }
        },
        None => http,
    }
}

/// Refines a transport-level error using its GraphQL payload.
///
/// Linear can return application errors (notably RATELIMITED) as a non-2xx
/// status carrying a GraphQL `errors` array, so the transport status alone
/// under-classifies them. When the payload resolves to a more specific kind
/// than the status, prefer it so the exit code stays precise (e.g. 4 for a
/// rate limit behind HTTP 400). The status-derived message is kept.
pub fn refine_http_error(http_err: CliError, body: &Json) -> (r: CliError)
    ensures
        r@ == refined(http_err@, body@),
{
    match body.get("errors") {
        Some(errors) => {
            let payload = CliError::from_graphql_errors(errors);
            if payload.kind == ErrorKind::General {
                return http_err;
            }
            let retry_after = match http_err.retry_after {
                Some(seconds) => Some(seconds),
                None => payload.retry_after,
            };
            CliError::new(payload.kind, http_err.message.as_str()).with_retry_after(retry_after)
        },
        None => http_err,
    }
}

/// Refining keeps the message, never turns a specific error into a general one
/// and never loses a delay that the transport asked for.
pub proof fn refining_never_downgrades(http: CliErrorView, body: JsonView)
    ensures
        refined(http, body).message == http.message,
        http.kind != ErrorKind::General ==> refined(http, body).kind != ErrorKind::General,
        refined(http, body).kind == ErrorKind::General ==> refined(http, body) == http,
        http.retry_after is Some ==> refined(http, body).retry_after == http.retry_after,
{
}

/// The payload of an error response.
pub open spec fn error_payload(body: Seq<char>, parsed: Option<JsonView>) -> JsonView {
    match parsed {
        Some(payload) => payload,
        None => JsonView::object().with("body"@, JsonView::Text(body)),
    }
}

/// The error of a response, with its payload as the details.
pub open spec fn response_fault(
    status: u16,
    headers: ResponseHeadersView,
    body: Seq<char>,
    parsed: Option<JsonView>,
    reason: Option<Seq<char>>,
) -> CliErrorView {
    let payload = error_payload(body, parsed);
    let error = refined(http_fault(status, headers, "resource"@, reason), payload);
    if body.len() == 0 {
        error
    } else {
        CliErrorView { details: Some(payload), ..error }
    }
}

pub open spec fn is_success(status: u16) -> bool {
    200 <= status < 300
}

pub const UNDECODABLE: &'static str = "error decoding response body";

/// What a response amounts to: the JSON value that a request was answered with,
/// or the failure. A 2xx answer with an `errors` field is a failure too.
pub open spec fn outcome(
    status: u16,
    headers: ResponseHeadersView,
    body: Seq<char>,
    parsed: Option<JsonView>,
    reason: Option<Seq<char>>,
) -> Result<JsonView, FailureView> {
    if !is_success(status) {
        Err(FailureView::cli(response_fault(status, headers, body, parsed, reason)))
    } else {
        match parsed {
            Some(value) => match value.get("errors"@) {
                Some(errors) => Err(FailureView::cli(CliErrorView::from_graphql_errors(errors))),
                None => Ok(value),
            },
            None => Err(FailureView::message(UNDECODABLE@)),
        }
    }
}

pub open spec fn json_result(
    r: Result<Json, Failure>,
    expected: Result<JsonView, FailureView>,
) -> bool {
    match expected {
        Ok(value) => r is Ok && r->Ok_0@ == value,
        Err(failure) => r is Err && r->Err_0@ == failure,
    }
}

/// What a response amounts to, given its body as JSON and the standard phrase of
/// its status.
pub fn interpret_parsed(
    status: u16,
    headers: &ResponseHeaders,
    body: &str,
    parsed: Option<Json>,
    reason: &Option<String>,
) -> (r: Result<Json, Failure>)
    ensures
        json_result(
            r,
            outcome(status, headers@, body@, parsed.deep_view(), reason.deep_view()),
        ),
{
    if status < 200 || status >= 300 {
        let payload = match parsed {
            Some(payload) => payload,
            None => Json::object().with("body", Json::text(body)),
        };
        let error = refine_http_error(
            http_error_with_reason(status, headers, "resource", reason),
            &payload,
        );
        if body.is_empty() {
            return Err(Failure::cli(error));
        }
        return Err(Failure::cli(error.with_details(payload)));
    }
    match parsed {
        Some(value) => {
            match value.get("errors") {
                Some(errors) => {
                    return Err(Failure::cli(CliError::from_graphql_errors(errors)));
                },
                None => {},
            }
            Ok(value)
        },
        None => Err(Failure::message(UNDECODABLE)),
    }
}

/// The value of a body that is JSON.
pub open spec fn value_of(parsed: Result<JsonView, Seq<char>>) -> Option<JsonView> {
    match parsed {
        Ok(value) => Some(value),
        Err(_) => None,
    }
}

/// What a response amounts to.
pub fn interpret_response(status: u16, headers: &ResponseHeaders, body: &str) -> (r: Result<
    Json,
    Failure,
>)
    ensures
        json_result(
            r,
            outcome(
                status,
                headers@,
                body@,
                value_of(json_text::parsed_json(body@)),
                canonical_reason(status),
            ),
        ),
{
    let reason = status_reason(status);
    let parsed = match json_text::parse_json(body) {
        Ok(value) => Some(value),
        Err(_) => None,
    };
    interpret_parsed(status, headers, body, parsed, &reason)
}

/// A request succeeds only on a 2xx answer without errors, and then with that
/// answer; every refusal exits with a code of its own kind.
pub proof fn refusals_are_reported(
    status: u16,
    headers: ResponseHeadersView,
    body: Seq<char>,
    parsed: Option<JsonView>,
    reason: Option<Seq<char>>,
)
    ensures
        ({
            let r = outcome(status, headers, body, parsed, reason);
            &&& r is Ok <==> is_success(status) && parsed is Some && parsed->0.get(
                "errors"@,
            ) is None
            &&& r is Ok ==> r->Ok_0 == parsed->0
            &&& (status == 401 || status == 403) && (parsed is None || parsed->0.get(
                "errors"@,
            ) is None) ==> r->Err_0.cli_error() is Some && r->Err_0.cli_error()->0.kind
                == ErrorKind::Auth
            &&& status == 429 && (parsed is None || parsed->0.get("errors"@) is None)
                ==> r->Err_0.cli_error() is Some && r->Err_0.cli_error()->0.kind
                == ErrorKind::RateLimited
        }),
{
    let wrapped = JsonView::object().with("body"@, JsonView::Text(body));
    assert(wrapped.get("errors"@) is None) by {
        reveal_strlit("body");
        reveal_strlit("errors");
        assert("body"@.len() != "errors"@.len());
        let fields = wrapped->Object_0;
        assert(fields =~= seq![("body"@, JsonView::Text(body))]);
        assert(fields.drop_first() =~= Seq::<(Seq<char>, JsonView)>::empty());
        reveal_with_fuel(crate::json::field_index, 3);
    }
}

/// The parts of a URL.
pub struct UrlParts {
    pub text: String,
    pub scheme: String,
    pub host: Option<String>,
    pub username: String,
    pub password: Option<String>,
    pub port: Option<u16>,
}

#[verifier::ext_equal]
pub struct UrlPartsView {
    pub text: Seq<char>,
    pub scheme: Seq<char>,
    pub host: Option<Seq<char>>,
    pub username: Seq<char>,
    pub password: Option<Seq<char>>,
    pub port: Option<u16>,
}

impl View for UrlParts {
    type V = UrlPartsView;

    open spec fn view(&self) -> UrlPartsView {
        UrlPartsView {
            text: self.text@,
            scheme: self.scheme@,
            host: self.host.deep_view(),
            username: self.username@,
            password: self.password.deep_view(),
            port: self.port,
        }
    }
}

/// The parts of the URL that `Url::parse` makes of a text, or the text of the error
/// that it reports.
pub uninterp spec fn parsed_url(raw: Seq<char>) -> Result<UrlPartsView, Seq<char>>;

/// `reqwest::Url::parse`, with the parts that the URL's own accessors give, and its
/// error as a text. What it makes of a text depends on the text alone.
#[verifier::external_body]
fn parse_url(raw: &str) -> (r: Result<UrlParts, String>)
    ensures
        match r {
            Ok(parts) => parsed_url(raw@) == Ok::<UrlPartsView, Seq<char>>(parts@),
            Err(fault) => parsed_url(raw@) == Err::<UrlPartsView, Seq<char>>(fault@),
        },
{
    let url = reqwest::Url::parse(raw).map_err(|fault| fault.to_string())?;
    Ok(UrlParts {
        text: url.as_str().to_string(),
        scheme: url.scheme().to_string(),
        host: url.host_str().map(|host| host.to_string()),
        username: url.username().to_string(),
        password: url.password().map(|password| password.to_string()),
        port: url.port(),
    })
}

/// Why a URL is no upload URL.
pub open spec fn upload_fault(parts: UrlPartsView) -> Option<Seq<char>> {
    if parts.scheme != "https"@ {
        Some("Invalid upload URL: expected https"@)
    } else if parts.host != Some(LINEAR_UPLOADS_HOST@) {
        Some("Invalid upload URL: expected exact host 'uploads.linear.app'"@)
    } else if parts.username.len() > 0 || parts.password is Some {
        Some("Invalid upload URL: credentials are not allowed"@)
    } else if parts.port is Some && parts.port->0 != 443 {
        Some("Invalid upload URL: non-default ports are not allowed"@)
    } else {
        None
    }
}

/// The port of a URL, or that of its scheme.
pub open spec fn port_or_known_default(parts: UrlPartsView) -> Option<u16> {
    if parts.port is Some {
        parts.port
    } else if parts.scheme == "http"@ || parts.scheme == "ws"@ {
        Some(80u16)
    } else if parts.scheme == "https"@ || parts.scheme == "wss"@ {
        Some(443u16)
    } else if parts.scheme == "ftp"@ {
        Some(21u16)
    } else {
        None
    }
}

/// An upload may be redirected to a URL.
pub open spec fn redirect_allowed(parts: UrlPartsView) -> bool {
    &&& parts.scheme == "https"@
    &&& parts.host == Some(LINEAR_UPLOADS_HOST@)
    &&& parts.username.len() == 0
    &&& parts.password is None
    &&& port_or_known_default(parts) == Some(443u16)
}

/// A redirect is followed to exactly the URLs that an upload may start from.
pub proof fn redirects_stay_on_upload_urls(parts: UrlPartsView)
    ensures
        redirect_allowed(parts) <==> upload_fault(parts) is None,
{
    reveal_strlit("https");
    reveal_strlit("http");
    reveal_strlit("ws");
    assert("https"@.len() != "http"@.len());
    assert("https"@.len() != "ws"@.len());
}

fn host_is_uploads(parts: &UrlParts) -> (r: bool)
    ensures
        r == (parts@.host == Some(LINEAR_UPLOADS_HOST@)),
{
    match &parts.host {
        Some(host) => same_text(host.as_str(), LINEAR_UPLOADS_HOST),
        None => false,
    }
}

/// Accepts the parts of a URL as those of an upload URL.
pub fn check_upload_url(parts: UrlParts) -> (r: Result<UrlParts, Failure>)
    ensures
        match upload_fault(parts@) {
            Some(message) => r is Err && r->Err_0@ == FailureView::message(message),
            None => r is Ok && r->Ok_0@ == parts@,
        },
{
    if !same_text(parts.scheme.as_str(), "https") {
        return Err(Failure::message("Invalid upload URL: expected https"));
    }
    if !host_is_uploads(&parts) {
        return Err(
            Failure::message("Invalid upload URL: expected exact host 'uploads.linear.app'"),
        );
    }
    if !parts.username.as_str().is_empty() || parts.password.is_some() {
        return Err(Failure::message("Invalid upload URL: credentials are not allowed"));
    }
    match parts.port {
        Some(port) => {
            if port != 443 {
                return Err(
                    Failure::message("Invalid upload URL: non-default ports are not allowed"),
                );
            }
        },
        None => {},
    }
    Ok(parts)
}

pub open spec fn upload_url(parsed: Result<UrlPartsView, Seq<char>>) -> Result<
    UrlPartsView,
    FailureView,
> {
    match parsed {
        Ok(parts) => match upload_fault(parts) {
            Some(message) => Err(FailureView::message(message)),
            None => Ok(parts),
        },
        Err(fault) => Err(
            FailureView::message(fault).with_context("Failed to parse upload URL"@),
        ),
    }
}

/// Accepts a URL that Linear's uploads are read from, and no other.
pub fn parse_linear_upload_url(raw: &str) -> (r: Result<UrlParts, Failure>)
    ensures
        match upload_url(parsed_url(raw@)) {
            Ok(parts) => r is Ok && r->Ok_0@ == parts,
            Err(failure) => r is Err && r->Err_0@ == failure,
        },
{
    match parse_url(raw) {
        Ok(parts) => check_upload_url(parts),
        Err(fault) => Err(
            Failure::message(fault.as_str()).with_context("Failed to parse upload URL"),
        ),
    }
}

fn known_port(parts: &UrlParts) -> (r: Option<u16>)
    ensures
        r == port_or_known_default(parts@),
{
    let scheme = parts.scheme.as_str();
    if parts.port.is_some() {
        parts.port
    } else if same_text(scheme, "http") || same_text(scheme, "ws") {
        Some(80)
    } else if same_text(scheme, "https") || same_text(scheme, "wss") {
        Some(443)
    } else if same_text(scheme, "ftp") {
        Some(21)
    } else {
        None
    }
}

/// Whether an upload may be redirected to the URL of given parts.
pub fn upload_redirect_allowed(parts: &UrlParts) -> (r: bool)
    ensures
        r == redirect_allowed(parts@),
{
    same_text(parts.scheme.as_str(), "https") && host_is_uploads(parts)
        && parts.username.as_str().is_empty() && parts.password.is_none() && known_port(parts)
        == Some(443u16)
}

/// Whether an upload may be redirected to a URL.
pub fn upload_redirect_policy(target: &str) -> (r: bool)
    ensures
        r == (parsed_url(target@) matches Ok(parts) && redirect_allowed(parts)),
{
    match parse_url(target) {
        Ok(parts) => upload_redirect_allowed(&parts),
        Err(_) => false,
    }
}

/// Authentication state of the client.
#[derive(Debug)]
pub enum AuthState {
    /// Personal API key (sent as-is in the Authorization header)
    ApiKey(String),
    /// OAuth tokens (sent as "Bearer {token}", supports refreshing)
    OAuth {
        access_token: String,
        refresh_token: Option<String>,
        client_id: String,
        expires_at: Option<i64>,
        profile: String,
    },
}

#[verifier::ext_equal]
pub enum AuthStateView {
    ApiKey(Seq<char>),
    OAuth {
        access_token: Seq<char>,
        refresh_token: Option<Seq<char>>,
        client_id: Seq<char>,
        expires_at: Option<i64>,
        profile: Seq<char>,
    },
}

impl View for AuthState {
    type V = AuthStateView;

    open spec fn view(&self) -> AuthStateView {
        match self {
            AuthState::ApiKey(key) => AuthStateView::ApiKey(key@),
            AuthState::OAuth { access_token, refresh_token, client_id, expires_at, profile } =>
                AuthStateView::OAuth {
                access_token: access_token@,
                refresh_token: refresh_token.deep_view(),
                client_id: client_id@,
                expires_at: *expires_at,
                profile: profile@,
            },
        }
    }
}

/// Seconds before its end at which a token counts as expired.
pub const EXPIRY_BUFFER: i64 = 300;

/// A token counts as expired.
pub open spec fn expired(expires_at: Option<i64>, now: int) -> bool {
    expires_at is Some && now >= expires_at->0 - EXPIRY_BUFFER
}

/// The end of a token, less the buffer, is a time that can be counted.
pub open spec fn countable(expires_at: Option<i64>) -> bool {
    expires_at is Some ==> expires_at->0 >= i64::MIN + EXPIRY_BUFFER
}

impl AuthStateView {
    pub open spec fn header(self) -> Seq<char> {
        match self {
            AuthStateView::ApiKey(key) => key,
            AuthStateView::OAuth { access_token, .. } => "Bearer "@ + access_token,
        }
    }

    pub open spec fn needs_refresh_at(self, now: int) -> bool {
        match self {
            AuthStateView::ApiKey(_) => false,
            AuthStateView::OAuth { refresh_token, expires_at, .. } => refresh_token is Some
                && expired(expires_at, now),
        }
    }

    pub open spec fn countable(self) -> bool {
        match self {
            AuthStateView::ApiKey(_) => true,
            AuthStateView::OAuth { refresh_token, expires_at, .. } => refresh_token is Some
                ==> countable(expires_at),
        }
    }

    pub open spec fn from_tokens(profile: Seq<char>, oauth: OAuthConfigView) -> AuthStateView {
        AuthStateView::OAuth {
            access_token: oauth.access_token,
            refresh_token: oauth.refresh_token,
            client_id: oauth.client_id,
            expires_at: oauth.expires_at,
            profile,
        }
    }
}

impl Clone for AuthState {
    fn clone(&self) -> (r: AuthState)
        ensures
            r@ == self@,
    {
        match self {
            AuthState::ApiKey(key) => AuthState::ApiKey(key.clone()),
            AuthState::OAuth { access_token, refresh_token, client_id, expires_at, profile } =>
                AuthState::OAuth {
                access_token: access_token.clone(),
                refresh_token: clone_text(refresh_token),
                client_id: client_id.clone(),
                expires_at: *expires_at,
                profile: profile.clone(),
            },
        }
    }
}

impl AuthState {
    /// The value of the Authorization header.
    pub fn auth_header(&self) -> (r: String)
        ensures
            r@ == self@.header(),
    {
        match self {
            AuthState::ApiKey(key) => key.clone(),
            AuthState::OAuth { access_token, .. } => joined2("Bearer ", access_token.as_str()),
        }
    }

    /// Whether the tokens are to be refreshed at a time.
    pub fn needs_refresh_at(&self, now: i64) -> (r: bool)
        requires
            self@.countable(),
        ensures
            r == self@.needs_refresh_at(now as int),
    {
        match self {
            AuthState::ApiKey(_) => false,
            AuthState::OAuth { refresh_token, expires_at, .. } => {
                if refresh_token.is_none() {
                    return false;
                }
                match expires_at {
                    Some(end) => now >= *end - EXPIRY_BUFFER,
                    None => false,
                }
            },
        }
    }

    /// Whether the tokens are to be refreshed now.
    pub fn needs_refresh(&self) -> (r: bool)
        requires
            self@.countable(),
        ensures
            exists|now: i64|
                clock::has_date(now as int) && r == #[trigger] self@.needs_refresh_at(now as int),
    {
        let now: i64 = clock::utc_now().0;
        let r = self.needs_refresh_at(now);
        assert(clock::has_date(now as int) && r == self@.needs_refresh_at(now as int));
        r
    }
}

/// A key, and tokens that cannot be refreshed or do not expire, never need a
/// refresh; tokens that need one at a time need it at every later time.
pub proof fn refresh_is_needed_only_on_expiry(state: AuthStateView, now: int, later: int)
    requires
        now <= later,
    ensures
        state is ApiKey ==> !state.needs_refresh_at(now),
        state is OAuth && (state->refresh_token is None || state->expires_at is None)
            ==> !state.needs_refresh_at(now),
        state.needs_refresh_at(now) ==> state.needs_refresh_at(later),
{
}

/// The tokens are used: they are there, and can be refreshed or have not expired.
pub open spec fn usable_tokens(oauth: Option<OAuthConfigView>, now: int) -> bool {
    oauth is Some && oauth->0.access_token.len() > 0 && (oauth->0.refresh_token is Some || !expired(
        oauth->0.expires_at,
        now,
    ))
}

/// The state that stored tokens give at a time; nothing where the API key is to be
/// used in their place.
pub fn oauth_state_at(profile: &str, oauth: &Option<OAuthConfig>, now: i64) -> (r: Option<AuthState>)
    requires
        oauth is Some ==> countable(oauth->0.expires_at),
    ensures
        match r {
            Some(state) => usable_tokens(oauth.deep_view(), now as int) && state@
                == AuthStateView::from_tokens(profile@, oauth.deep_view()->0),
            None => !usable_tokens(oauth.deep_view(), now as int),
        },
{
    match oauth {
        Some(oauth) => {
            if oauth.access_token.as_str().is_empty() {
                return None;
            }
            let is_expired = match oauth.expires_at {
                Some(end) => now >= end - EXPIRY_BUFFER,
                None => false,
            };
            if oauth.refresh_token.is_none() && is_expired {
                return None;
            }
            Some(
                AuthState::OAuth {
                    access_token: oauth.access_token.clone(),
                    refresh_token: clone_text(&oauth.refresh_token),
                    client_id: oauth.client_id.clone(),
                    expires_at: oauth.expires_at,
                    profile: profile.to_string(),
                },
            )
        },
        None => None,
    }
}

/// How requests are authenticated at a time: by stored tokens that can be used, else
/// by the API key.
pub open spec fn chosen_auth(
    profile: Seq<char>,
    oauth: Option<OAuthConfigView>,
    now: int,
    api_key: Result<Seq<char>, FailureView>,
) -> Result<AuthStateView, FailureView> {
    if usable_tokens(oauth, now) {
        Ok(AuthStateView::from_tokens(profile, oauth->0))
    } else {
        match api_key {
            Ok(key) => Ok(AuthStateView::ApiKey(key)),
            Err(failure) => Err(failure),
        }
    }
}

/// The text of a key, or the failure to find one.
pub open spec fn key_found(api_key: Result<String, Failure>) -> Result<Seq<char>, FailureView> {
    match api_key {
        Ok(key) => Ok(key@),
        Err(failure) => Err(failure@),
    }
}

/// Decides at a time how requests are authenticated, given the stored tokens and the
/// API key.
pub fn resolve_auth(
    profile: &str,
    oauth: &Option<OAuthConfig>,
    now: i64,
    api_key: Result<String, Failure>,
) -> (r: Result<AuthState, Failure>)
    requires
        oauth is Some ==> countable(oauth->0.expires_at),
    ensures
        match chosen_auth(profile@, oauth.deep_view(), now as int, key_found(api_key)) {
            Ok(state) => r is Ok && r->Ok_0@ == state,
            Err(failure) => r is Err && r->Err_0@ == failure,
        },
{
    match oauth_state_at(profile, oauth, now) {
        Some(state) => Ok(state),
        None => match api_key {
            Ok(key) => Ok(AuthState::ApiKey(key)),
            Err(failure) => Err(failure),
        },
    }
}

/// Tokens that expire without a way to refresh them give way to the API key, and
/// tokens that can be refreshed are used whatever the time; without tokens and
/// without a key nothing is sent.
pub proof fn expired_tokens_give_way_to_the_key(
    profile: Seq<char>,
    oauth: Option<OAuthConfigView>,
    now: int,
    api_key: Result<Seq<char>, FailureView>,
)
    ensures
        ({
            let r = chosen_auth(profile, oauth, now, api_key);
            &&& oauth is None && api_key is Ok ==> r == Ok::<AuthStateView, FailureView>(
                AuthStateView::ApiKey(api_key->Ok_0),
            )
            &&& oauth is None && api_key is Err ==> r is Err
            &&& oauth is Some && oauth->0.refresh_token is None && expired(
                oauth->0.expires_at,
                now,
            ) && api_key is Ok ==> r == Ok::<AuthStateView, FailureView>(
                AuthStateView::ApiKey(api_key->Ok_0),
            )
            &&& oauth is Some && oauth->0.access_token.len() > 0 && oauth->0.refresh_token is Some
                ==> r is Ok && r->Ok_0.header() == "Bearer "@ + oauth->0.access_token
        }),
{
}

/// Tokens that a refresh brought.
pub struct FreshTokens {
    pub access_token: String,
    pub refresh_token: Option<String>,
    pub expires_at: Option<i64>,
    pub token_type: String,
}

#[verifier::ext_equal]
pub struct FreshTokensView {
    pub access_token: Seq<char>,
    pub refresh_token: Option<Seq<char>>,
    pub expires_at: Option<i64>,
    pub token_type: Seq<char>,
}

impl View for FreshTokens {
    type V = FreshTokensView;

    open spec fn view(&self) -> FreshTokensView {
        FreshTokensView {
            access_token: self.access_token@,
            refresh_token: self.refresh_token.deep_view(),
            expires_at: self.expires_at,
            token_type: self.token_type@,
        }
    }
}

/// What has to be done before a request is sent.
pub enum FreshAuth {
    /// Send this header.
    Use(String),
    /// Ask for new tokens first.
    Refresh { client_id: String, refresh_token: String, profile: String },
}

#[verifier::ext_equal]
pub enum FreshAuthView {
    Use(Seq<char>),
    Refresh { client_id: Seq<char>, refresh_token: Seq<char>, profile: Seq<char> },
}

impl View for FreshAuth {
    type V = FreshAuthView;

    open spec fn view(&self) -> FreshAuthView {
        match self {
            FreshAuth::Use(header) => FreshAuthView::Use(header@),
            FreshAuth::Refresh { client_id, refresh_token, profile } => FreshAuthView::Refresh {
                client_id: client_id@,
                refresh_token: refresh_token@,
                profile: profile@,
            },
        }
    }
}

/// What has to be done at a time before a request is sent.
pub open spec fn fresh_auth(state: AuthStateView, now: int) -> FreshAuthView {
    match state {
        AuthStateView::OAuth {
            refresh_token: Some(refresh_token),
            client_id,
            profile,
            ..
        } => if state.needs_refresh_at(now) {
            FreshAuthView::Refresh { client_id, refresh_token, profile }
        } else {
            FreshAuthView::Use(state.header())
        },
        _ => FreshAuthView::Use(state.header()),
    }
}

/// Decides at a time whether the tokens are refreshed before a request is sent.
pub fn ensure_fresh_auth(state: &AuthState, now: i64) -> (r: FreshAuth)
    requires
        state@.countable(),
    ensures
        r@ == fresh_auth(state@, now as int),
{
    if state.needs_refresh_at(now) {
        match state {
            AuthState::OAuth { refresh_token: Some(refresh_token), client_id, profile, .. } => {
                return FreshAuth::Refresh {
                    client_id: client_id.clone(),
                    refresh_token: refresh_token.clone(),
                    profile: profile.clone(),
                };
            },
            _ => {},
        }
    }
    FreshAuth::Use(state.auth_header())
}

/// What is stored of tokens that a refresh brought.
pub open spec fn stored_tokens(
    client_id: Seq<char>,
    tokens: FreshTokensView,
    existing: Option<OAuthConfigView>,
) -> OAuthConfigView {
    OAuthConfigView {
        client_id,
        access_token: tokens.access_token,
        refresh_token: tokens.refresh_token,
        expires_at: tokens.expires_at,
        token_type: tokens.token_type,
        scopes: match existing {
            Some(oauth) => oauth.scopes,
            None => Seq::empty(),
        },
    }
}

/// What is stored of tokens that a refresh brought; the scopes are those that
/// were stored before.
pub fn refreshed_config(client_id: &str, tokens: &FreshTokens, existing: &Option<OAuthConfig>) -> (r:
    OAuthConfig)
    ensures
        r@ == stored_tokens(client_id@, tokens@, existing.deep_view()),
{
    let scopes = match existing {
        Some(oauth) => text::clone_texts(&oauth.scopes),
        None => {
            let none: Vec<String> = Vec::new();
            assert(none.deep_view() =~= Seq::<Seq<char>>::empty());
            none
        },
    };
    OAuthConfig {
        client_id: client_id.to_string(),
        access_token: tokens.access_token.clone(),
        refresh_token: clone_text(&tokens.refresh_token),
        expires_at: tokens.expires_at,
        token_type: tokens.token_type.clone(),
        scopes,
    }
}

/// How requests are authenticated after a refresh.
pub open spec fn auth_after_refresh(
    client_id: Seq<char>,
    profile: Seq<char>,
    tokens: FreshTokensView,
) -> AuthStateView {
    AuthStateView::OAuth {
        access_token: tokens.access_token,
        refresh_token: tokens.refresh_token,
        client_id,
        expires_at: tokens.expires_at,
        profile,
    }
}

/// The state after a refresh.
pub fn refreshed_state(client_id: &str, profile: &str, tokens: &FreshTokens) -> (r: AuthState)
    ensures
        r@ == auth_after_refresh(client_id@, profile@, tokens@),
        r@.header() == "Bearer "@ + tokens@.access_token,
{
    AuthState::OAuth {
        access_token: tokens.access_token.clone(),
        refresh_token: clone_text(&tokens.refresh_token),
        client_id: client_id.to_string(),
        expires_at: tokens.expires_at,
        profile: profile.to_string(),
    }
}

/// How often requests are tried again once that is set.
pub open spec fn retry_setting(configured: Option<RetryConfig>, retry_count: u32) -> RetryConfig {
    match configured {
        Some(config) => config,
        None => RetryConfig { max_retries: retry_count },
    }
}

/// How often requests are tried again.
pub open spec fn retry_in_force(configured: Option<RetryConfig>) -> RetryConfig {
    match configured {
        Some(config) => config,
        None => RetryConfig { max_retries: crate::retry::DEFAULT_RETRIES },
    }
}

/// Sets how often requests are tried again, unless that was set before.
pub fn set_default_retry(configured: &mut Option<RetryConfig>, retry_count: u32)
    ensures
        *final(configured) == Some(retry_setting(*old(configured), retry_count)),
{
    if configured.is_none() {
        *configured = Some(
            if retry_count == 0 {
                RetryConfig::no_retry()
            } else {
                RetryConfig::new(retry_count)
            },
        );
    }
}

pub fn default_retry_config(configured: &Option<RetryConfig>) -> (r: RetryConfig)
    ensures
        r == retry_in_force(*configured),
{
    match configured {
        Some(config) => *config,
        None => RetryConfig::default(),
    }
}

// ---------------------------------------------------------------------------
// What is sent, what an answer means, and what is refused
// ---------------------------------------------------------------------------

/// The body of a request holds the operation, and the variables where there are some.
pub proof fn body_carries_query_and_variables(query: Seq<char>, variables: Option<JsonView>)
    ensures
        body_of(query, variables).get("query"@) == Some(JsonView::Text(query)),
        body_of(query, variables).get("variables"@) == variables,
{
    broadcast use crate::json::group_fields;

    reveal_strlit("query");
    reveal_strlit("variables");
    assert("query"@.len() == 5 && "variables"@.len() == 9);
    let plain = JsonView::object().with("query"@, JsonView::Text(query));
    assert(plain.get("query"@) == Some(JsonView::Text(query)));
    assert(plain.get("variables"@) is None);
}

/// A change is confirmed exactly where its answer says that it succeeded, and then by the
/// part that was asked for; else the refusal is the failure.
pub proof fn changes_are_confirmed_by_success_alone(
    response: JsonView,
    field: Seq<char>,
    part: Seq<char>,
    refusal: Seq<char>,
)
    ensures
        confirmation(response, field, part, refusal) is Ok <==> response.at("data"@).at(field).at(
            "success"@,
        ) == JsonView::Bool(true),
        confirmation(response, field, part, refusal) matches Ok(shown) ==> shown == response.at(
            "data"@,
        ).at(field).at(part),
        confirmation(response, field, part, refusal) matches Err(failure) ==> failure.shown()
            == refusal && failure.cli_error() is None,
{
}

/// The status of a response decides the kind of its error: 401 and 403 are refusals of the
/// login, 404 is a missing resource, which is named, and 429 a rate limit, which carries the
/// seconds that the server asks to wait; any other number is part of the message.
pub proof fn status_decides_the_error(
    status: u16,
    headers: ResponseHeadersView,
    context: Seq<char>,
    reason: Option<Seq<char>>,
    seconds: u64,
)
    ensures
        ({
            let error = http_fault(status, headers, context, reason);
            &&& error.kind == ErrorKind::Auth <==> status == 401 || status == 403
            &&& error.kind == ErrorKind::NotFound <==> status == 404
            &&& error.kind == ErrorKind::RateLimited <==> status == 429
            &&& status == 403 || status == 404 ==> text::contains_text(error.message, context)
            &&& status == 429 && headers.retry_after == Some(text::decimal(seconds as nat))
                ==> error.retry_after == Some(seconds)
            &&& status == 429 && headers.retry_after is None ==> error.retry_after is None
            &&& status != 429 ==> error.retry_after is None
            &&& error.kind == ErrorKind::General ==> text::contains_text(
                error.message,
                text::decimal(status as nat),
            )
            &&& error.kind == ErrorKind::General && reason is Some ==> text::contains_text(
                error.message,
                reason->0,
            )
        }),
{
    let error = http_fault(status, headers, context, reason);
    text::written_number_is_read_back(0, seconds as nat);
    if status == 403 {
        let from = "Access denied - "@.len() as int;
        assert(error.message.subrange(from, error.message.len() as int) =~= context);
        text::subrange_occurs(error.message, from, error.message.len() as int);
    } else if status == 404 {
        assert(error.message.subrange(0, context.len() as int) =~= context);
        text::subrange_occurs(error.message, 0, context.len() as int);
    } else if status != 401 && status != 429 {
        let number = text::decimal(status as nat);
        let from = "HTTP "@.len() as int;
        let to = from + number.len();
        let end = error.message.len() as int;
        assert(error.message.subrange(from, to) =~= number);
        text::subrange_occurs(error.message, from, to);
        assert(error.message.subrange(to + " "@.len(), end) =~= reason_text(reason));
        text::subrange_occurs(error.message, to + " "@.len(), end);
    }
}

/// What is known of an error holds its status, its phrase and the id of its request.
pub proof fn error_tells_its_status_and_request(
    status: u16,
    headers: ResponseHeadersView,
    context: Seq<char>,
    reason: Option<Seq<char>>,
)
    ensures
        ({
            let error = http_fault(status, headers, context, reason);
            &&& error.details is Some
            &&& error.details->0.at("status"@).as_u64() == Some(status as u64)
            &&& reason is Some ==> error.details->0.at("reason"@) == JsonView::Text(reason->0)
            &&& error.details->0.at("request_id"@).as_str() == headers.request_id
        }),
{
    broadcast use crate::json::group_fields;

    reveal_strlit("status");
    reveal_strlit("reason");
    reveal_strlit("request_id");
    assert("status"@.len() == 6 && "reason"@.len() == 6 && "request_id"@.len() == 10);
    assert("status"@[0] != "reason"@[0]);
    let details = http_details(status, headers, reason);
    assert(details.get("status"@) == Some(status_number(status)));
    assert(details.get("reason"@) == Some(JsonView::Text(reason_text(reason))));
    assert(details.get("request_id"@) == Some(JsonView::opt_text(headers.request_id)));
}

/// An error in the payload that says more than the status decides the kind of the error.
pub proof fn payload_refines_the_kind(http: CliErrorView, body: JsonView, errors: JsonView)
    requires
        body.get("errors"@) == Some(errors),
        errors.items().len() > 0,
    ensures
        ({
            let extensions = errors.items()[0].at("extensions"@);
            let r = refined(http, body);
            &&& extensions.at("statusCode"@).as_u64() == Some(429u64) ==> r.kind
                == ErrorKind::RateLimited && (http.retry_after is None ==> r.retry_after
                == extensions.at("retryAfter"@).as_u64())
            &&& extensions.at("statusCode"@).as_u64() == Some(401u64) ==> r.kind == ErrorKind::Auth
            &&& extensions.at("statusCode"@).as_u64() == Some(403u64) ==> r.kind == ErrorKind::Auth
            &&& extensions.at("statusCode"@).as_u64() == Some(404u64) ==> r.kind
                == ErrorKind::NotFound
        }),
{
}

/// A response that is no success is told by its payload: the value, where its body is JSON,
/// else the body itself. A success that holds errors is told by those errors.
pub proof fn refusals_tell_their_payload(
    status: u16,
    headers: ResponseHeadersView,
    body: Seq<char>,
    parsed: Option<JsonView>,
    reason: Option<Seq<char>>,
)
    ensures
        ({
            let r = outcome(status, headers, body, parsed, reason);
            let error = r->Err_0.cli_error();
            &&& !(200 <= status < 300) ==> r is Err && error is Some
            &&& !(200 <= status < 300) && body.len() > 0 && parsed is Some ==> error->0.details
                == parsed
            &&& !(200 <= status < 300) && body.len() > 0 && parsed is None ==> error->0.details->0.at(
                "body"@,
            ) == JsonView::Text(body)
            &&& 200 <= status < 300 && parsed is Some && parsed->0.get("errors"@) is Some ==> r
                is Err && error is Some && error->0.details == parsed->0.get("errors"@)
            &&& 200 <= status < 300 && parsed is None ==> r is Err
        }),
{
    broadcast use crate::json::group_fields;

    let wrapped = JsonView::object().with("body"@, JsonView::Text(body));
    assert(wrapped.get("body"@) == Some(JsonView::Text(body)));
}

/// A URL is accepted for an upload exactly where it is an https URL of the uploads host
/// without credentials and with no other port than that of https, and it is taken as it is.
pub proof fn uploads_are_read_from_one_host_only(parts: UrlPartsView, fault: Seq<char>)
    ensures
        upload_url(Ok(parts)) is Ok <==> parts.scheme == "https"@ && parts.host == Some(
            "uploads.linear.app"@,
        ) && parts.username.len() == 0 && parts.password is None && (parts.port is None
            || parts.port == Some(443u16)),
        upload_url(Ok(parts)) matches Ok(accepted) ==> accepted == parts,
        upload_url(Err(fault)) is Err,
        redirect_allowed(parts) <==> upload_url(Ok(parts)) is Ok,
{
    redirects_stay_on_upload_urls(parts);
}

/// A key is sent as it is and a token as a bearer token.
pub proof fn header_carries_the_secret(
    key: Seq<char>,
    profile: Seq<char>,
    oauth: OAuthConfigView,
)
    ensures
        AuthStateView::ApiKey(key).header() == key,
        AuthStateView::from_tokens(profile, oauth).header() == "Bearer "@ + oauth.access_token,
{
}

/// Tokens are refreshed from five minutes before their end on, where they can be; the refresh
/// is asked for with the refresh token and the client of the tokens, and is for their profile.
pub proof fn tokens_are_refreshed_before_they_end(
    profile: Seq<char>,
    oauth: OAuthConfigView,
    now: int,
)
    ensures
        ({
            let r = fresh_auth(AuthStateView::from_tokens(profile, oauth), now);
            &&& r is Refresh <==> oauth.refresh_token is Some && oauth.expires_at is Some && now
                + 300 >= oauth.expires_at->0
            &&& r is Refresh ==> r->client_id == oauth.client_id && Some(r->refresh_token)
                == oauth.refresh_token && r->profile == profile
            &&& r matches FreshAuthView::Use(header) ==> header == "Bearer "@ + oauth.access_token
        }),
{
}

/// Tokens that have not ended and are not empty are used; empty ones, and those that ended
/// and cannot be refreshed, give way to the key.
pub proof fn unexpired_tokens_are_used(
    profile: Seq<char>,
    oauth: OAuthConfigView,
    now: int,
    api_key: Result<Seq<char>, FailureView>,
)
    ensures
        ({
            let r = chosen_auth(profile, Some(oauth), now, api_key);
            &&& oauth.access_token.len() > 0 && (oauth.expires_at is None || now + 300
                < oauth.expires_at->0) ==> r == Ok::<AuthStateView, FailureView>(
                AuthStateView::from_tokens(profile, oauth),
            )
            &&& oauth.access_token.len() == 0 && api_key is Ok ==> r is Ok && r->Ok_0.header()
                == api_key->Ok_0
            &&& oauth.access_token.len() == 0 && api_key is Err ==> r == Err::<
                AuthStateView,
                FailureView,
            >(api_key->Err_0)
        }),
{
}

/// What a refresh brings is stored and used: the stored tokens authenticate as the state
/// after the refresh does, the scopes stay as they were, and a refresh that brings tokens
/// with time left is not followed by another.
pub proof fn refreshed_tokens_are_stored_and_used(
    client_id: Seq<char>,
    profile: Seq<char>,
    tokens: FreshTokensView,
    existing: OAuthConfigView,
    now: int,
)
    ensures
        ({
            let stored = stored_tokens(client_id, tokens, Some(existing));
            let state = auth_after_refresh(client_id, profile, tokens);
            &&& AuthStateView::from_tokens(profile, stored) == state
            &&& state.header() == "Bearer "@ + tokens.access_token
            &&& stored.scopes == existing.scopes
            &&& stored.token_type == tokens.token_type
            &&& stored_tokens(client_id, tokens, None).scopes.len() == 0
            &&& tokens.expires_at is None || now + 300 < tokens.expires_at->0 ==> fresh_auth(
                state,
                now,
            ) == FreshAuthView::Use("Bearer "@ + tokens.access_token)
        }),
{
}

/// The first setting of the retries stays in force; without one there are three.
pub proof fn first_retry_setting_stays(first: u32, second: u32)
    ensures
        ({
            let set = retry_setting(None, first);
            &&& retry_in_force(Some(set)).max_retries == first
            &&& retry_setting(Some(set), second) == set
            &&& retry_in_force(None).max_retries == 3
        }),
{
}

} // verus!
