//! The error model: typed error kinds with fatality and retryability
//! classification, user-facing messages, and the retry and
//! graceful-degradation helpers.

use vstd::prelude::*;
use vstd::string::StringExecFns;
use crate::logger::Logger;

verus! {

/// Result type of the collectors' fallible operations.
pub type ForensicResult<T> = Result<T, ForensicError>;

/// The error categories.
#[derive(Debug, Clone, PartialEq, Eq, Structural)]
pub enum ErrorKind {
    /// Access denied or insufficient privileges.
    AccessDenied,
    /// A system API call failed.
    SystemApiError,
    /// File or resource not found.
    NotFound,
    /// Invalid data or format.
    InvalidData,
    /// Network or communication error.
    NetworkError,
    /// An operation timed out.
    Timeout,
    /// Anything else.
    Unknown,
}

/// An error with its kind, message, and optional context.
#[derive(Debug, Clone)]
pub struct ForensicError {
    pub kind: ErrorKind,
    pub message: String,
    pub context: Option<String>,
}

/// Fatal kinds: they are logged at `ERROR` and drive the exit code.
pub open spec fn spec_is_fatal(k: ErrorKind) -> bool {
    k == ErrorKind::SystemApiError || k == ErrorKind::InvalidData
}

/// Retryable kinds: the only ones the retry helper tries again.
pub open spec fn spec_is_retryable(k: ErrorKind) -> bool {
    k == ErrorKind::NetworkError || k == ErrorKind::Timeout
}

/// The user-facing sentence for an error.
pub open spec fn spec_user_message(e: ForensicError) -> Seq<char> {
    match e.kind {
        ErrorKind::AccessDenied => "Access denied: "@ + e.message@
            + ". Try running as administrator."@,
        ErrorKind::SystemApiError => "System error: "@ + e.message@
            + ". This may indicate a system issue."@,
        ErrorKind::NotFound => "Resource not found: "@ + e.message@
            + ". This is normal for some systems."@,
        ErrorKind::InvalidData => "Invalid data encountered: "@ + e.message@
            + ". Data may be corrupted."@,
        ErrorKind::NetworkError => "Network error: "@ + e.message@ + ". Check network connectivity."@,
        ErrorKind::Timeout => "Operation timed out: "@ + e.message@
            + ". System may be under heavy load."@,
        ErrorKind::Unknown => "Unknown error: "@ + e.message@ + "."@,
    }
}

/// The short code for each kind.
pub open spec fn spec_kind_str(k: ErrorKind) -> Seq<char> {
    match k {
        ErrorKind::AccessDenied => "ACCESS_DENIED"@,
        ErrorKind::SystemApiError => "SYSTEM_API_ERROR"@,
        ErrorKind::NotFound => "NOT_FOUND"@,
        ErrorKind::InvalidData => "INVALID_DATA"@,
        ErrorKind::NetworkError => "NETWORK_ERROR"@,
        ErrorKind::Timeout => "TIMEOUT"@,
        ErrorKind::Unknown => "UNKNOWN"@,
    }
}

/// The rendering of an error: `KIND (context): message`, the parenthesis
/// only with a context.
pub open spec fn spec_error_string(e: ForensicError) -> Seq<char> {
    match e.context {
        Some(c) => spec_kind_str(e.kind) + " ("@ + c@ + "): "@ + e.message@,
        None => spec_kind_str(e.kind) + ": "@ + e.message@,
    }
}

impl ForensicError {
    /// An error without context.
    pub fn new(kind: ErrorKind, message: &str) -> (r: ForensicError)
        ensures
            r.kind == kind,
            r.message@ == message@,
            r.context is None,
    {
        ForensicError { kind, message: message.to_owned(), context: None }
    }

    /// An error with a context string.
    pub fn with_context(kind: ErrorKind, message: &str, context: &str) -> (r: ForensicError)
        ensures
            r.kind == kind,
            r.message@ == message@,
            r.context matches Some(c) && c@ == context@,
    {
        ForensicError { kind, message: message.to_owned(), context: Some(context.to_owned()) }
    }

    /// An access-denied error.
    pub fn access_denied(message: &str) -> (r: ForensicError)
        ensures
            r.kind == ErrorKind::AccessDenied,
            r.message@ == message@,
            r.context is None,
    {
        Self::new(ErrorKind::AccessDenied, message)
    }

    /// A system-API error.
    pub fn system_api_error(message: &str) -> (r: ForensicError)
        ensures
            r.kind == ErrorKind::SystemApiError,
            r.message@ == message@,
            r.context is None,
    {
        Self::new(ErrorKind::SystemApiError, message)
    }

    /// A not-found error.
    pub fn not_found(message: &str) -> (r: ForensicError)
        ensures
            r.kind == ErrorKind::NotFound,
            r.message@ == message@,
            r.context is None,
    {
        Self::new(ErrorKind::NotFound, message)
    }

    /// An invalid-data error.
    pub fn invalid_data(message: &str) -> (r: ForensicError)
        ensures
            r.kind == ErrorKind::InvalidData,
            r.message@ == message@,
            r.context is None,
    {
        Self::new(ErrorKind::InvalidData, message)
    }

    /// Whether the error is treated as fatal.
    pub fn is_fatal(&self) -> (r: bool)
        ensures
            r == spec_is_fatal(self.kind),
    {
        matches!(self.kind, ErrorKind::SystemApiError | ErrorKind::InvalidData)
    }

    /// Whether the error may be retried.
    pub fn is_retryable(&self) -> (r: bool)
        ensures
            r == spec_is_retryable(self.kind),
    {
        matches!(self.kind, ErrorKind::NetworkError | ErrorKind::Timeout)
    }

    /// The user-facing sentence, with an operator hint per kind.
    pub fn user_message(&self) -> (r: String)
        ensures
            r@ == spec_user_message(*self),
    {
        let mut s = String::new();
        match self.kind {
            ErrorKind::AccessDenied => {
                s.append("Access denied: ");
                s.append(self.message.as_str());
                s.append(". Try running as administrator.");
            },
            ErrorKind::SystemApiError => {
                s.append("System error: ");
                s.append(self.message.as_str());
                s.append(". This may indicate a system issue.");
            },
            ErrorKind::NotFound => {
                s.append("Resource not found: ");
                s.append(self.message.as_str());
                s.append(". This is normal for some systems.");
            },
            ErrorKind::InvalidData => {
                s.append("Invalid data encountered: ");
                s.append(self.message.as_str());
                s.append(". Data may be corrupted.");
            },
            ErrorKind::NetworkError => {
                s.append("Network error: ");
                s.append(self.message.as_str());
                s.append(". Check network connectivity.");
            },
            ErrorKind::Timeout => {
                s.append("Operation timed out: ");
                s.append(self.message.as_str());
                s.append(". System may be under heavy load.");
            },
            ErrorKind::Unknown => {
                s.append("Unknown error: ");
                s.append(self.message.as_str());
                s.append(".");
            },
        }
        s
    }

    /// The rendering `KIND (context): message`; this stands in for the
    /// usual display of the error.
    pub fn display_string(&self) -> (r: String)
        ensures
            r@ == spec_error_string(*self),
    {
        let mut s = String::new();
        s.append(self.kind.as_str());
        match &self.context {
            Some(c) => {
                s.append(" (");
                s.append(c.as_str());
                s.append("): ");
            },
            None => {
                s.append(": ");
            },
        }
        s.append(self.message.as_str());
        s
    }
}

impl ErrorKind {
    /// The kind's short code.
    pub fn as_str(&self) -> (r: &'static str)
        ensures
            r@ == spec_kind_str(*self),
    {
        match self {
            ErrorKind::AccessDenied => "ACCESS_DENIED",
            ErrorKind::SystemApiError => "SYSTEM_API_ERROR",
            ErrorKind::NotFound => "NOT_FOUND",
            ErrorKind::InvalidData => "INVALID_DATA",
            ErrorKind::NetworkError => "NETWORK_ERROR",
            ErrorKind::Timeout => "TIMEOUT",
            ErrorKind::Unknown => "UNKNOWN",
        }
    }
}

/// What a retry run over `outcomes` yields from attempt `k` on (1-based):
/// the first success, or the first error that is not retryable, or the
/// error of attempt `max`.
pub open spec fn spec_retry<T>(
    outcomes: Seq<Result<T, ForensicError>>,
    max: int,
    k: int,
) -> (Result<T, ForensicError>, int)
    decreases max - k,
{
    if k < 1 || k > outcomes.len() || k > max {
        (outcomes[0], 1)
    } else {
        match outcomes[k - 1] {
            Ok(v) => (outcomes[k - 1], k),
            Err(e) => if spec_is_retryable(e.kind) && k < max {
                spec_retry(outcomes, max, k + 1)
            } else {
                (outcomes[k - 1], k)
            },
        }
    }
}

/// Runs through pre-computed attempt `outcomes`, up to `max_attempts` of
/// them: stops at the first success or at the first error that is not
/// retryable, logging one `WARN` entry per retried failure and, for a
/// success after the first attempt, one closing `INFO` entry.  Returns the
/// final outcome and the number of attempts taken.
#[verifier::loop_isolation(false)]
pub fn retry_operation<T>(
    outcomes: Vec<Result<T, ForensicError>>,
    max_attempts: usize,
    logger: &mut Logger,
) -> (r: (Result<T, ForensicError>, usize))
    requires
        old(logger).wf(),
        1 <= max_attempts,
        max_attempts <= outcomes@.len(),
    ensures
        final(logger).wf(),
        final(logger).verbose == old(logger).verbose,
        (r.0, r.1 as int) == spec_retry(outcomes@, max_attempts as int, 1),
        old(logger).entries@.len() + max_attempts <= crate::logger::LOG_CAP ==> ({
            let pre = old(logger).entries@.len() as int;
            let appended = final(logger).entries@.skip(pre);
            &&& final(logger).entries@.take(pre) == old(logger).entries@
            &&& appended.len() == (r.1 - 1) + (if r.0 is Ok && r.1 > 1 {
                1int
            } else {
                0int
            })
            &&& forall|t: int| 0 <= t < r.1 - 1 ==> (#[trigger] appended[t]).level@ == "WARN"@
            &&& (r.0 is Ok && r.1 > 1 ==> appended.last().level@ == "INFO"@)
        }),
{
    let ghost orig = outcomes@;
    let ghost pre_len = old(logger).entries@.len() as int;
    let ghost small = old(logger).entries@.len() + max_attempts <= crate::logger::LOG_CAP;
    let mut rest = outcomes;
    let mut attempt: usize = 1;
    loop
        invariant
            logger.wf(),
            logger.verbose == old(logger).verbose,
            1 <= attempt <= max_attempts,
            max_attempts <= orig.len(),
            rest@ == orig.skip(attempt - 1),
            spec_retry(orig, max_attempts as int, 1) == spec_retry(
                orig,
                max_attempts as int,
                attempt as int,
            ),
            small ==> logger.entries@.len() == pre_len + attempt - 1,
            small ==> logger.entries@.take(pre_len) == old(logger).entries@,
            small ==> forall|t: int|
                pre_len <= t < logger.entries@.len() ==> (#[trigger] logger.entries@[t]).level@
                    == "WARN"@,
        decreases max_attempts - attempt,
    {
        let o = rest.remove(0);
        proof {
            assert(o == orig[attempt - 1]);
            assert(rest@ =~= orig.skip(attempt as int));
        }
        match o {
            Ok(v) => {
                proof {
                    assert(spec_retry(orig, max_attempts as int, attempt as int) == (
                    orig[attempt - 1],
                    attempt as int,
                    ));
                }
                if attempt > 1 {
                    let mut m = String::new();
                    m.append("Operation succeeded on attempt ");
                    let num = crate::strutil::usize_to_string(attempt);
                    m.append(num.as_str());
                    logger.info(m.as_str());
                    proof {
                        if small {
                            let prev = logger.entries@.take(logger.entries@.len() - 1);
                            assert(logger.entries@.take(pre_len) =~= prev.take(pre_len));
                            assert(logger.entries@.take(pre_len) =~= old(logger).entries@);
                            assert(logger.entries@.skip(pre_len).len() == attempt - 1 + 1);
                            assert(logger.entries@.skip(pre_len).last()
                                == logger.entries@.last());
                            assert forall|t: int| 0 <= t < attempt - 1 implies (
                            #[trigger] logger.entries@.skip(pre_len)[t]).level@ == "WARN"@ by {
                                assert(logger.entries@.skip(pre_len)[t] == logger.entries@[pre_len
                                    + t]);
                                assert(prev[pre_len + t] == logger.entries@[pre_len + t]);
                            }
                        }
                    }
                } else {
                    proof {
                        if small {
                            assert(logger.entries@.skip(pre_len) =~= Seq::<
                                crate::types::LogEntry,
                            >::empty());
                        }
                    }
                }
                return (Ok(v), attempt);
            },
            Err(e) => {
                if e.is_retryable() && attempt < max_attempts {
                    let mut m = String::new();
                    m.append("Attempt ");
                    let num = crate::strutil::usize_to_string(attempt);
                    m.append(num.as_str());
                    m.append(" failed, retrying: ");
                    let rendered = e.display_string();
                    m.append(rendered.as_str());
                    logger.warn(m.as_str());
                    proof {
                        assert(spec_retry(orig, max_attempts as int, attempt as int) == spec_retry(
                            orig,
                            max_attempts as int,
                            attempt + 1,
                        ));
                        if small {
                            let prev = logger.entries@.take(logger.entries@.len() - 1);
                            assert(logger.entries@.take(pre_len) =~= prev.take(pre_len));
                            assert(logger.entries@.take(pre_len) =~= old(logger).entries@);
                            assert(logger.entries@.last().level@ == "WARN"@);
                            assert forall|t: int|
                                pre_len <= t < logger.entries@.len() implies (
                            #[trigger] logger.entries@[t]).level@ == "WARN"@ by {
                                if t < logger.entries@.len() - 1 {
                                    assert(prev[t] == logger.entries@[t]);
                                }
                            }
                        }
                    }
                    attempt = attempt + 1;
                } else {
                    proof {
                        assert(spec_retry(orig, max_attempts as int, attempt as int) == (
                        orig[attempt - 1],
                        attempt as int,
                        ));
                        if small {
                            assert forall|t: int| 0 <= t < attempt - 1 implies (
                            #[trigger] logger.entries@.skip(pre_len)[t]).level@ == "WARN"@ by {
                                assert(logger.entries@.skip(pre_len)[t] == logger.entries@[pre_len
                                    + t]);
                            }
                        }
                    }
                    return (Err(e), attempt);
                }
            },
        }
    }
}

/// Runs nothing itself: inspects `result`; a success passes through with
/// the log untouched, a fatal error is logged at `ERROR`, any other error
/// at `WARN`, and the value is gone.
pub fn handle_error_gracefully<T>(
    result: ForensicResult<T>,
    logger: &mut Logger,
    operation_name: &str,
) -> (r: Option<T>)
    requires
        old(logger).wf(),
    ensures
        final(logger).wf(),
        final(logger).verbose == old(logger).verbose,
        result matches Ok(v) ==> r == Some(v) && final(logger).entries@ == old(logger).entries@,
        result matches Err(e) ==> {
            let dropped: int = if old(logger).entries@.len() >= crate::logger::LOG_CAP {
                1
            } else {
                0
            };
            let n = final(logger).entries@.len();
            &&& r is None
            &&& n == old(logger).entries@.len() + 1 - dropped
            &&& final(logger).entries@.take(n - 1) == old(logger).entries@.skip(dropped)
            &&& final(logger).entries@[n - 1].level@ == (if spec_is_fatal(e.kind) {
                "ERROR"@
            } else {
                "WARN"@
            })
            &&& final(logger).entries@[n - 1].message@ == (if spec_is_fatal(e.kind) {
                "Fatal error in "@
            } else {
                "Non-fatal error in "@
            }) + operation_name@ + ": "@ + spec_user_message(e)
        },
{
    match result {
        Ok(value) => Some(value),
        Err(error) => {
            let user = error.user_message();
            let mut m = String::new();
            if error.is_fatal() {
                m.append("Fatal error in ");
                m.append(operation_name);
                m.append(": ");
                m.append(user.as_str());
                logger.error(m.as_str());
            } else {
                m.append("Non-fatal error in ");
                m.append(operation_name);
                m.append(": ");
                m.append(user.as_str());
                logger.warn(m.as_str());
            }
            None
        },
    }
}

} // verus!
