//! The decisions of the mesh connect loop: how failures are classified,
//! how the retry back-off grows, and where a session comes from. The
//! sockets, sleeps and prompts live with the caller, who performs each
//! decided action and hands the outcome back.
use vstd::prelude::*;
use crate::errors::CommsError;

verus! {

/// The kinds of transport failure the connect loop distinguishes.
#[derive(Clone, Copy, Debug, PartialEq, Eq, Structural, Hash)]
pub enum IoKind {
    ConnectionRefused,
    ConnectionReset,
    ConnectionAborted,
    BrokenPipe,
    UnexpectedEof,
    Other,
}

/// What a failed connection attempt leads to.
#[derive(Clone, Copy, Debug, PartialEq, Eq, Structural)]
pub enum RetryDecision {
    /// Sleep this long, then try again.
    Retry { backoff_ms: u64 },
    /// Give up with `Refused`: fail-fast mode saw a refused connection.
    Abort,
    /// Surface the failure to the caller unchanged.
    Surface,
}

/// The next exponential back-off: doubled, capped at ten seconds.
pub fn next_backoff(cur_ms: u64) -> (r: u64)
    ensures
        r == (if cur_ms * 2 > 10_000 {
            10_000u64
        } else {
            (cur_ms * 2) as u64
        }),
{
    if cur_ms > 5_000 {
        10_000
    } else {
        cur_ms * 2
    }
}

/// Classifies one failed connection attempt: a refused connection aborts in
/// fail-fast mode and otherwise retries, as do resets and aborts, with the
/// back-off doubled and capped; any other failure is surfaced.
pub fn connect_retry(kind: IoKind, fail_fast: bool, cur_backoff_ms: u64) -> (r: RetryDecision)
    ensures
        kind is ConnectionRefused && fail_fast ==> r == RetryDecision::Abort,
        (kind is ConnectionRefused && !fail_fast) || kind is ConnectionReset || kind
            is ConnectionAborted ==> r == (RetryDecision::Retry {
            backoff_ms: if cur_backoff_ms * 2 > 10_000 {
                10_000u64
            } else {
                (cur_backoff_ms * 2) as u64
            },
        }),
        !(kind is ConnectionRefused || kind is ConnectionReset || kind is ConnectionAborted) ==> r
            == RetryDecision::Surface,
{
    match kind {
        IoKind::ConnectionRefused => {
            if fail_fast {
                RetryDecision::Abort
            } else {
                RetryDecision::Retry { backoff_ms: next_backoff(cur_backoff_ms) }
            }
        },
        IoKind::ConnectionReset | IoKind::ConnectionAborted => RetryDecision::Retry {
            backoff_ms: next_backoff(cur_backoff_ms),
        },
        _ => RetryDecision::Surface,
    }
}

/// True for the failure kinds the inbox worker swallows as an ordinary
/// disconnect rather than reporting.
pub fn is_disconnect_kind(kind: IoKind) -> (r: bool)
    ensures
        r == (kind is BrokenPipe || kind is UnexpectedEof || kind is ConnectionReset || kind
            is ConnectionAborted),
{
    match kind {
        IoKind::BrokenPipe => true,
        IoKind::UnexpectedEof => true,
        IoKind::ConnectionReset => true,
        IoKind::ConnectionAborted => true,
        _ => false,
    }
}

/// Where the caller's session comes from, in order of precedence: a token
/// file beats an authentication server; a token string and a token file
/// together are a caller error; with nothing given the session is empty.
#[derive(Clone, Copy, Debug, PartialEq, Eq, Structural)]
pub enum SessionSource {
    ConflictingInputs,
    FromTokenFile,
    FromTokenText,
    FromLogin { sudo: bool },
    Fresh,
}

/// The precedence decision for assembling a session from the caller's
/// inputs.
pub fn session_source(has_token: bool, has_token_file: bool, has_auth_url: bool, sudo: bool) -> (r:
    SessionSource)
    ensures
        has_token && has_token_file ==> r == SessionSource::ConflictingInputs,
        !has_token && has_token_file ==> r == SessionSource::FromTokenFile,
        has_token && !has_token_file ==> r == SessionSource::FromTokenText,
        !has_token && !has_token_file && has_auth_url ==> r == (SessionSource::FromLogin { sudo }),
        !has_token && !has_token_file && !has_auth_url ==> r == SessionSource::Fresh,
{
    if has_token && has_token_file {
        SessionSource::ConflictingInputs
    } else if has_token_file {
        SessionSource::FromTokenFile
    } else if has_token {
        SessionSource::FromTokenText
    } else if has_auth_url {
        SessionSource::FromLogin { sudo }
    } else {
        SessionSource::Fresh
    }
}

/// The failure the connect loop reports when no address is configured.
pub fn no_address_error() -> (r: CommsError)
    ensures
        r is NoAddress,
{
    CommsError::NoAddress
}

} // verus!
