//! Errors with an exit code, and failures that carry context around them.
use vstd::prelude::*;
use vstd::string::*;

use crate::json;
use crate::json::{Json, JsonView};
use crate::text;

verus! {

#[derive(Debug, Clone, Copy, PartialEq, Eq, Structural)]
pub enum ErrorKind {
    General,  // exit code 1
    NotFound,  // exit code 2
    Auth,  // exit code 3
    RateLimited,  // exit code 4
}

impl ErrorKind {
    pub open spec fn code(self) -> u8 {
        match self {
            ErrorKind::General => 1,
            ErrorKind::NotFound => 2,
            ErrorKind::Auth => 3,
            ErrorKind::RateLimited => 4,
        }
    }

    pub fn exit_code(self) -> (r: u8)
        ensures
            r == self.code(),
    {
        match self {
            ErrorKind::General => 1,
            ErrorKind::NotFound => 2,
            ErrorKind::Auth => 3,
            ErrorKind::RateLimited => 4,
        }
    }

    pub open spec fn retryable(self) -> bool {
        self == ErrorKind::RateLimited
    }

    /// Only a rate limit passes with time.
    pub fn is_retryable(self) -> (r: bool)
        ensures
            r == self.retryable(),
    {
        matches!(self, ErrorKind::RateLimited)
    }
}

/// Two kinds of error never share an exit code, and none exits as success.
pub proof fn exit_codes_are_distinct(a: ErrorKind, b: ErrorKind)
    ensures
        a.code() == b.code() ==> a == b,
        a.code() != 0,
{
}

#[derive(Debug)]
pub struct CliError {
    pub kind: ErrorKind,
    pub message: String,
    pub details: Option<Json>,
    pub retry_after: Option<u64>,
}

#[verifier::ext_equal]
pub struct CliErrorView {
    pub kind: ErrorKind,
    pub message: Seq<char>,
    pub details: Option<JsonView>,
    pub retry_after: Option<u64>,
}

impl View for CliError {
    type V = CliErrorView;

    open spec fn view(&self) -> CliErrorView {
        CliErrorView {
            kind: self.kind,
            message: self.message@,
            details: self.details.deep_view(),
            retry_after: self.retry_after,
        }
    }
}

/// The message texts of a list of errors, in order; an error without one is
/// passed over.
pub open spec fn error_messages(errors: Seq<JsonView>) -> Seq<Seq<char>> {
    json::texts_at(errors, "message"@)
}

/// The kind that an error's symbolic code stands for.
pub open spec fn code_kind(code: Seq<char>) -> Option<ErrorKind> {
    let upper = text::ascii_upper(code);
    if text::contains_text(upper, "AUTH"@) {
        Some(ErrorKind::Auth)
    } else if text::contains_text(upper, "RATELIM"@) {
        Some(ErrorKind::RateLimited)
    } else if text::contains_text(upper, "NOT_FOUND"@) {
        Some(ErrorKind::NotFound)
    } else {
        None
    }
}

/// The kind that a numeric status stands for.
pub open spec fn status_kind(status: u64) -> Option<ErrorKind> {
    if status == 401 || status == 403 {
        Some(ErrorKind::Auth)
    } else if status == 404 {
        Some(ErrorKind::NotFound)
    } else if status == 429 {
        Some(ErrorKind::RateLimited)
    } else {
        None
    }
}

/// The kind of a GraphQL error: by the numeric status in its extensions, else by
/// the symbolic code there, else by its message.
pub open spec fn graphql_kind(error: JsonView) -> ErrorKind {
    let extensions = error.at("extensions"@);
    let by_status = match extensions.at("statusCode"@).as_u64() {
        Some(status) => status_kind(status),
        None => None,
    };
    let by_code = match extensions.at("code"@).as_str() {
        Some(code) => code_kind(code),
        None => None,
    };
    let message = match error.at("message"@).as_str() {
        Some(message) => message,
        None => extensions.at("userPresentableMessage"@).text_or(""@),
    };
    let lower = text::ascii_lower(message);
    if by_status is Some {
        by_status->0
    } else if by_code is Some {
        by_code->0
    } else if text::contains_text(lower, "not found"@) || text::contains_text(
        lower,
        "could not find"@,
    ) {
        ErrorKind::NotFound
    } else {
        ErrorKind::General
    }
}

impl CliErrorView {
    pub open spec fn plain(kind: ErrorKind, message: Seq<char>) -> CliErrorView {
        CliErrorView { kind, message, details: None, retry_after: None }
    }

    pub open spec fn from_graphql_errors(errors: JsonView) -> CliErrorView {
        let items = errors.items();
        let kind = if items.len() == 0 {
            ErrorKind::General
        } else {
            graphql_kind(items[0])
        };
        CliErrorView {
            kind,
            message: "GraphQL error"@,
            details: Some(errors),
            retry_after: if kind == ErrorKind::RateLimited {
                items[0].at("extensions"@).at("retryAfter"@).as_u64()
            } else {
                None
            },
        }
    }

    /// The messages that the details carry: those of a list of errors, the one
    /// of an object, or those of the list that an object holds.
    pub open spec fn detail_messages(self) -> Seq<Seq<char>> {
        match self.details {
            Some(JsonView::Array(errors)) => error_messages(errors),
            Some(details) => match details.at("message"@).as_str() {
                Some(message) => seq![message],
                None => error_messages(details.at("errors"@).items()),
            },
            None => Seq::empty(),
        }
    }

    /// The text shown to the user.
    pub open spec fn shown(self) -> Seq<char> {
        let messages = self.detail_messages();
        if messages.len() == 0 {
            self.message
        } else {
            self.message + ": "@ + text::join_with(messages, "; "@)
        }
    }
}

fn kind_of_code(code: &str) -> (r: Option<ErrorKind>)
    ensures
        r == code_kind(code@),
{
    let upper = text::to_ascii_upper(code);
    if text::text_contains(upper.as_str(), "AUTH") {
        Some(ErrorKind::Auth)
    } else if text::text_contains(upper.as_str(), "RATELIM") {
        Some(ErrorKind::RateLimited)
    } else if text::text_contains(upper.as_str(), "NOT_FOUND") {
        Some(ErrorKind::NotFound)
    } else {
        None
    }
}

impl CliError {
    pub fn new(kind: ErrorKind, message: &str) -> (r: CliError)
        ensures
            r@ == CliErrorView::plain(kind, message@),
    {
        CliError { kind, message: message.to_string(), details: None, retry_after: None }
    }

    pub fn general(message: &str) -> (r: CliError)
        ensures
            r@ == CliErrorView::plain(ErrorKind::General, message@),
    {
        CliError::new(ErrorKind::General, message)
    }

    pub fn not_found(message: &str) -> (r: CliError)
        ensures
            r@ == CliErrorView::plain(ErrorKind::NotFound, message@),
    {
        CliError::new(ErrorKind::NotFound, message)
    }

    pub fn auth(message: &str) -> (r: CliError)
        ensures
            r@ == CliErrorView::plain(ErrorKind::Auth, message@),
    {
        CliError::new(ErrorKind::Auth, message)
    }

    pub fn rate_limited(message: &str) -> (r: CliError)
        ensures
            r@ == CliErrorView::plain(ErrorKind::RateLimited, message@),
    {
        CliError::new(ErrorKind::RateLimited, message)
    }

    pub fn code(&self) -> (r: u8)
        ensures
            r == self@.kind.code(),
    {
        self.kind.exit_code()
    }

    pub fn with_details(self, details: Json) -> (r: CliError)
        ensures
            r@ == (CliErrorView { details: Some(details@), ..self@ }),
    {
        CliError {
            kind: self.kind,
            message: self.message,
            details: Some(details),
            retry_after: self.retry_after,
        }
    }

    pub fn with_retry_after(self, retry_after: Option<u64>) -> (r: CliError)
        ensures
            r@ == (CliErrorView { retry_after, ..self@ }),
    {
        CliError { kind: self.kind, message: self.message, details: self.details, retry_after }
    }

    /// A copy of the error.
    pub fn copy(&self) -> (r: CliError)
        ensures
            r@ == self@,
    {
        CliError {
            kind: self.kind,
            message: self.message.clone(),
            details: match &self.details {
                Some(details) => Some(details.copy()),
                None => None,
            },
            retry_after: self.retry_after,
        }
    }

    /// Classifies a GraphQL `errors` array into an error with a precise exit code.
    ///
    /// Linear reports application-level failures as HTTP 200 with an `errors`
    /// array, so the real signal lives in the first error's `extensions`
    /// (`statusCode` / `code`) or its message text rather than the transport
    /// status. The message stays "GraphQL error" so that the shown text still
    /// appends the underlying error messages.
    pub fn from_graphql_errors(errors: &Json) -> (r: CliError)
        ensures
            r@ == CliErrorView::from_graphql_errors(errors@),
    {
        let items = errors.items();
        if items.len() == 0 {
            return CliError::new(ErrorKind::General, "GraphQL error").with_details(errors.copy());
        }
        assert(json::json_views(items@)[0] == items@[0]@);
        let kind = CliError::classify_graphql_error(&items[0]);
        let error = CliError::new(kind, "GraphQL error").with_details(errors.copy());
        if kind == ErrorKind::RateLimited {
            error.with_retry_after(items[0].at("extensions").at("retryAfter").as_u64())
        } else {
            error
        }
    }

    fn classify_graphql_error(error: &Json) -> (r: ErrorKind)
        ensures
            r == graphql_kind(error@),
    {
        let extensions = error.at("extensions");
        match extensions.at("statusCode").as_u64() {
            Some(status) => {
                if status == 401 || status == 403 {
                    return ErrorKind::Auth;
                } else if status == 404 {
                    return ErrorKind::NotFound;
                } else if status == 429 {
                    return ErrorKind::RateLimited;
                }
            },
            None => {},
        }
        match extensions.at("code").as_str() {
            Some(code) => {
                match kind_of_code(code) {
                    Some(kind) => {
                        return kind;
                    },
                    None => {},
                }
            },
            None => {},
        }
        // Linear reports "Entity not found" with status code 400.
        let message = match error.at("message").as_text() {
            Some(message) => message,
            None => extensions.at("userPresentableMessage").text_or(""),
        };
        let lower = text::to_ascii_lower(message.as_str());
        if text::text_contains(lower.as_str(), "not found") || text::text_contains(
            lower.as_str(),
            "could not find",
        ) {
            return ErrorKind::NotFound;
        }
        ErrorKind::General
    }

    /// The text shown to the user: the message, and after it the messages that
    /// the details carry.
    pub fn to_string(&self) -> (r: String)
        ensures
            r@ == self@.shown(),
    {
        let messages = match &self.details {
            Some(details) => if details.is_array() {
                json::collect_texts_at(details.items(), "message")
            } else {
                match details.at("message").as_text() {
                    Some(message) => {
                        let mut one: Vec<String> = Vec::new();
                        one.push(message);
                        assert(one.deep_view() =~= seq![message@]);
                        one
                    },
                    None => json::collect_texts_at(details.at("errors").items(), "message"),
                }
            },
            None => {
                let none: Vec<String> = Vec::new();
                assert(none.deep_view() =~= Seq::<Seq<char>>::empty());
                none
            },
        };
        assert(messages.deep_view().len() == messages@.len());
        if messages.len() == 0 {
            self.message.clone()
        } else {
            text::joined3(
                self.message.as_str(),
                ": ",
                text::join_texts(&messages, "; ").as_str(),
            )
        }
    }
}

/// A numeric status that says something decides, whatever the code and the
/// message say.
pub proof fn status_code_takes_precedence(error: JsonView)
    requires
        error.at("extensions"@).at("statusCode"@).as_u64() is Some,
        status_kind(error.at("extensions"@).at("statusCode"@).as_u64()->0) is Some,
    ensures
        graphql_kind(error) == status_kind(
            error.at("extensions"@).at("statusCode"@).as_u64()->0,
        )->0,
{
}

/// What is shown begins with the message.
pub proof fn shown_text_begins_with_the_message(error: CliErrorView)
    ensures
        text::starts_with(error.shown(), error.message),
{
    assert(error.shown().subrange(0, error.message.len() as int) =~= error.message);
}

/// Where a failure started.
#[derive(Debug)]
pub enum Cause {
    Cli(CliError),
    Message(String),
}

#[verifier::ext_equal]
pub enum CauseView {
    Cli(CliErrorView),
    Message(Seq<char>),
}

/// A failure: its cause, and the contexts that were put around it, the
/// outermost last.
#[derive(Debug)]
pub struct Failure {
    pub context: Vec<String>,
    pub cause: Cause,
}

#[verifier::ext_equal]
pub struct FailureView {
    pub context: Seq<Seq<char>>,
    pub cause: CauseView,
}

impl View for Failure {
    type V = FailureView;

    open spec fn view(&self) -> FailureView {
        FailureView {
            context: self.context.deep_view(),
            cause: match self.cause {
                Cause::Cli(error) => CauseView::Cli(error@),
                Cause::Message(message) => CauseView::Message(message@),
            },
        }
    }
}

impl FailureView {
    pub open spec fn message(message: Seq<char>) -> FailureView {
        FailureView { context: Seq::empty(), cause: CauseView::Message(message) }
    }

    pub open spec fn cli(error: CliErrorView) -> FailureView {
        FailureView { context: Seq::empty(), cause: CauseView::Cli(error) }
    }

    /// The error that the failure is or wraps.
    pub open spec fn cli_error(self) -> Option<CliErrorView> {
        match self.cause {
            CauseView::Cli(error) => Some(error),
            CauseView::Message(_) => None,
        }
    }

    pub open spec fn with_context(self, context: Seq<char>) -> FailureView {
        FailureView { context: self.context.push(context), ..self }
    }

    /// The text shown to the user: the outermost context, else the cause.
    pub open spec fn shown(self) -> Seq<char> {
        if self.context.len() > 0 {
            self.context.last()
        } else {
            match self.cause {
                CauseView::Cli(error) => error.shown(),
                CauseView::Message(message) => message,
            }
        }
    }

    pub open spec fn rewrapped(self, message: Seq<char>) -> FailureView {
        match self.cause {
            CauseView::Cli(error) => FailureView::cli(CliErrorView { message, ..error }),
            CauseView::Message(_) => FailureView::message(message),
        }
    }
}

impl Failure {
    /// A failure with a text of its own.
    pub fn message(message: &str) -> (r: Failure)
        ensures
            r@ == FailureView::message(message@),
    {
        let r = Failure { context: Vec::new(), cause: Cause::Message(message.to_string()) };
        assert(r@.context =~= Seq::<Seq<char>>::empty());
        r
    }

    /// A failure that is an error with an exit code.
    pub fn cli(error: CliError) -> (r: Failure)
        ensures
            r@ == FailureView::cli(error@),
    {
        let r = Failure { context: Vec::new(), cause: Cause::Cli(error) };
        assert(r@.context =~= Seq::<Seq<char>>::empty());
        r
    }

    pub fn with_context(self, context: &str) -> (r: Failure)
        ensures
            r@ == self@.with_context(context@),
    {
        let mut contexts = self.context;
        contexts.push(context.to_string());
        let r = Failure { context: contexts, cause: self.cause };
        assert(r@.context =~= self@.context.push(context@));
        r
    }

    pub fn cli_error(&self) -> (r: Option<&CliError>)
        ensures
            match r {
                Some(error) => self@.cli_error() == Some(error@),
                None => self@.cli_error() is None,
            },
    {
        match &self.cause {
            Cause::Cli(error) => Some(error),
            Cause::Message(_) => None,
        }
    }

    pub fn to_string(&self) -> (r: String)
        ensures
            r@ == self@.shown(),
    {
        if self.context.len() > 0 {
            return self.context[self.context.len() - 1].clone();
        }
        match &self.cause {
            Cause::Cli(error) => error.to_string(),
            Cause::Message(message) => message.clone(),
        }
    }
}

/// Re-wraps `source` with a new human-readable `message`, preserving the
/// error's kind, details and retry delay when `source` is, or wraps in contexts,
/// an error with an exit code.
///
/// This is the canonical place where commands re-message a failure without losing
/// its exit-code semantics: a wrapped rate-limited error stays
/// `ErrorKind::RateLimited` (exit 4) with its retry delay, instead of being
/// flattened to a generic failure. When `source` is no such error, a failure
/// carrying `message` is returned: callers should embed the cause in `message`.
pub fn rewrap_with_message(source: &Failure, message: &str) -> (r: Failure)
    ensures
        r@ == source@.rewrapped(message@),
{
    match &source.cause {
        Cause::Cli(error) => {
            let mut wrapped = error.copy();
            wrapped.message = message.to_string();
            Failure::cli(wrapped)
        },
        Cause::Message(_) => Failure::message(message),
    }
}

/// Re-wrapping keeps the kind, the details and the retry delay behind any
/// contexts, and shows nothing of them but the new message and the details.
pub proof fn rewrapping_preserves_the_error(
    source: FailureView,
    context: Seq<char>,
    message: Seq<char>,
)
    ensures
        source.cli_error() is Some <==> source.rewrapped(message).cli_error() is Some,
        source.cli_error() is Some ==> {
            let before = source.cli_error()->0;
            let after = source.rewrapped(message).cli_error()->0;
            &&& after.kind == before.kind
            &&& after.details == before.details
            &&& after.retry_after == before.retry_after
            &&& after.message == message
        },
        source.cli_error() is None ==> source.rewrapped(message).shown() == message,
        source.with_context(context).rewrapped(message) == source.rewrapped(message),
        source.with_context(context).cli_error() == source.cli_error(),
        source.with_context(context).shown() == context,
{
}

// ---------------------------------------------------------------------------
// How errors are classified and shown
// ---------------------------------------------------------------------------

/// The exit code tells the kind of an error: 2 that something is missing, 3 that the login
/// was refused, 4 that a limit was met, which alone passes with time, and 1 anything else.
pub proof fn exit_code_tells_the_kind(kind: ErrorKind)
    ensures
        kind.code() == 1 <==> kind == ErrorKind::General,
        kind.code() == 2 <==> kind == ErrorKind::NotFound,
        kind.code() == 3 <==> kind == ErrorKind::Auth,
        kind.code() == 4 <==> kind == ErrorKind::RateLimited,
        kind.retryable() <==> kind.code() == 4,
{
}

/// A number or a code in the extensions classifies an error, in this order, and a message
/// where neither says anything.
pub proof fn errors_are_classified(error: JsonView)
    ensures
        ({
            let status = error.at("extensions"@).at("statusCode"@).as_u64();
            let code = error.at("extensions"@).at("code"@);
            let says = status == Some(401u64) || status == Some(403u64) || status == Some(404u64)
                || status == Some(429u64);
            let upper = text::ascii_upper(code->Text_0);
            let message = error.at("message"@);
            let lower = text::ascii_lower(message->Text_0);
            let kind = graphql_kind(error);
            &&& status == Some(401u64) || status == Some(403u64) ==> kind == ErrorKind::Auth
            &&& status == Some(404u64) ==> kind == ErrorKind::NotFound
            &&& status == Some(429u64) ==> kind == ErrorKind::RateLimited
            &&& !says && code is Text && text::contains_text(upper, "AUTH"@) ==> kind
                == ErrorKind::Auth
            &&& !says && code is Text && !text::contains_text(upper, "AUTH"@)
                && text::contains_text(upper, "RATELIM"@) ==> kind == ErrorKind::RateLimited
            &&& !says && code is Text && !text::contains_text(upper, "AUTH"@)
                && !text::contains_text(upper, "RATELIM"@) && text::contains_text(
                upper,
                "NOT_FOUND"@,
            ) ==> kind == ErrorKind::NotFound
            &&& !says && !(code is Text) && message is Text && (text::contains_text(
                lower,
                "not found"@,
            ) || text::contains_text(lower, "could not find"@)) ==> kind == ErrorKind::NotFound
            &&& !says && !(code is Text) && message is Text && !text::contains_text(
                lower,
                "not found"@,
            ) && !text::contains_text(lower, "could not find"@) ==> kind == ErrorKind::General
        }),
{
}

/// The error of a list of errors carries the whole list, is of the kind of the first, and
/// holds the delay that a rate limit asks for.
pub proof fn first_error_decides(errors: JsonView)
    ensures
        ({
            let error = CliErrorView::from_graphql_errors(errors);
            let first = errors.items()[0];
            &&& error.details == Some(errors)
            &&& error.message == "GraphQL error"@
            &&& errors.items().len() == 0 ==> error.kind == ErrorKind::General
            &&& errors.items().len() > 0 ==> error.kind == graphql_kind(first)
            &&& error.kind == ErrorKind::RateLimited ==> error.retry_after == first.at(
                "extensions"@,
            ).at("retryAfter"@).as_u64()
            &&& error.kind != ErrorKind::RateLimited ==> error.retry_after is None
        }),
{
}

/// An error without details is shown by its message, and one with details by its message and
/// theirs.
pub proof fn shown_error_holds_the_details(
    error: CliErrorView,
    errors: Seq<JsonView>,
    one: JsonView,
    reason: Seq<char>,
)
    ensures
        error.details is None ==> error.shown() == error.message,
        error.details == Some(JsonView::Array(seq![one])) && one.at("message"@) == JsonView::Text(
            reason,
        ) ==> error.shown() == error.message + ": "@ + reason,
        error.details == Some(one) && one is Object && one.at("message"@) == JsonView::Text(reason)
            ==> error.shown() == error.message + ": "@ + reason,
        error.details == Some(one) && one is Object && !(one.at("message"@) is Text) && one.at(
            "errors"@,
        ) == JsonView::Array(errors) ==> error.shown() == (CliErrorView {
            details: Some(JsonView::Array(errors)),
            ..error
        }).shown(),
{
    json::texts_at_follow_the_items(Seq::empty(), one, "message"@);
    assert(Seq::<JsonView>::empty().push(one) =~= seq![one]);
    assert(json::texts_at(Seq::empty(), "message"@) =~= Seq::<Seq<char>>::empty());
    assert(Seq::<Seq<char>>::empty().push(reason) =~= seq![reason]);
    text::joined_texts_follow_each_other(Seq::empty(), "; "@, reason);
}

/// A failure shows the last context that was put around it, and its cause where there is
/// none.
pub proof fn last_context_is_shown(
    message: Seq<char>,
    error: CliErrorView,
    inner: Seq<char>,
    outer: Seq<char>,
)
    ensures
        FailureView::message(message).shown() == message,
        FailureView::message(message).cli_error() is None,
        FailureView::cli(error).shown() == error.shown(),
        FailureView::cli(error).cli_error() == Some(error),
        FailureView::message(message).with_context(inner).with_context(outer).shown() == outer,
        FailureView::cli(error).with_context(inner).with_context(outer).cli_error() == Some(error),
{
}

} // verus!
