//! Error types for the crate.
//!
//! Errors are categorized as retriable or terminal to inform client-side retry
//! logic.

use vstd::prelude::*;
use vstd::string::*;

use crate::text;

verus! {

/// RDMA KV operation errors
#[derive(Debug, PartialEq, Eq)]
pub enum RdmaError {
    /// Operation timed out (retriable)
    Timeout,
    /// RDMA CAS failed: another client won the race (retriable)
    CasFailed,
    /// Optimistic read version changed: read must be retried (retriable)
    VersionMismatch,
    /// Cuckoo hash table is full (not retriable)
    KvFull,
    /// Invalid key (not retriable)
    InvalidKey,
    /// Fatal hardware error (not retriable)
    HardwareError(String),
    /// Connection lost: may succeed after reconnect (retriable)
    NotConnected,
    /// Protocol version mismatch between client and server (not retriable).
    ProtocolVersionMismatch(String),
    /// Internal error (not retriable)
    Internal(String),
}

/// An error as a value: the variant, and its text where it carries one.
pub enum ErrorView {
    Timeout,
    CasFailed,
    VersionMismatch,
    KvFull,
    InvalidKey,
    HardwareError(Seq<char>),
    NotConnected,
    ProtocolVersionMismatch(Seq<char>),
    Internal(Seq<char>),
}

impl View for RdmaError {
    type V = ErrorView;

    open spec fn view(&self) -> ErrorView {
        match *self {
            RdmaError::Timeout => ErrorView::Timeout,
            RdmaError::CasFailed => ErrorView::CasFailed,
            RdmaError::VersionMismatch => ErrorView::VersionMismatch,
            RdmaError::KvFull => ErrorView::KvFull,
            RdmaError::InvalidKey => ErrorView::InvalidKey,
            RdmaError::HardwareError(s) => ErrorView::HardwareError(s@),
            RdmaError::NotConnected => ErrorView::NotConnected,
            RdmaError::ProtocolVersionMismatch(s) => ErrorView::ProtocolVersionMismatch(s@),
            RdmaError::Internal(s) => ErrorView::Internal(s@),
        }
    }
}

/// The errors after which an operation may be tried again.
pub open spec fn retriable(e: ErrorView) -> bool {
    e is Timeout || e is CasFailed || e is VersionMismatch || e is NotConnected
}

/// The message of an error.
pub open spec fn error_message(e: ErrorView) -> Seq<char> {
    match e {
        ErrorView::Timeout => "operation timed out"@,
        ErrorView::CasFailed => "CAS compare-and-swap failed"@,
        ErrorView::VersionMismatch => "version mismatch during optimistic read"@,
        ErrorView::KvFull => "hash table full"@,
        ErrorView::InvalidKey => "invalid key"@,
        ErrorView::HardwareError(s) => "hardware error: "@ + s,
        ErrorView::NotConnected => "not connected"@,
        ErrorView::ProtocolVersionMismatch(s) => "protocol version mismatch: "@ + s,
        ErrorView::Internal(s) => "internal error: "@ + s,
    }
}

impl Clone for RdmaError {
    fn clone(&self) -> (r: Self)
        ensures
            r@ == self@,
    {
        match self {
            RdmaError::Timeout => RdmaError::Timeout,
            RdmaError::CasFailed => RdmaError::CasFailed,
            RdmaError::VersionMismatch => RdmaError::VersionMismatch,
            RdmaError::KvFull => RdmaError::KvFull,
            RdmaError::InvalidKey => RdmaError::InvalidKey,
            RdmaError::HardwareError(s) => RdmaError::HardwareError(s.clone()),
            RdmaError::NotConnected => RdmaError::NotConnected,
            RdmaError::ProtocolVersionMismatch(s) => RdmaError::ProtocolVersionMismatch(s.clone()),
            RdmaError::Internal(s) => RdmaError::Internal(s.clone()),
        }
    }
}

impl RdmaError {
    /// Returns `true` if the operation should be retried.
    pub fn is_retriable(&self) -> (b: bool)
        ensures
            b == retriable(self@),
    {
        match self {
            RdmaError::Timeout => true,
            RdmaError::CasFailed => true,
            RdmaError::VersionMismatch => true,
            RdmaError::NotConnected => true,
            _ => false,
        }
    }

    /// The message that this error shows.
    pub fn message(&self) -> (r: String)
        ensures
            r@ == error_message(self@),
    {
        match self {
            RdmaError::Timeout => "operation timed out".to_owned(),
            RdmaError::CasFailed => "CAS compare-and-swap failed".to_owned(),
            RdmaError::VersionMismatch => "version mismatch during optimistic read".to_owned(),
            RdmaError::KvFull => "hash table full".to_owned(),
            RdmaError::InvalidKey => "invalid key".to_owned(),
            RdmaError::HardwareError(s) => text::prefixed("hardware error: ", s.as_str()),
            RdmaError::NotConnected => "not connected".to_owned(),
            RdmaError::ProtocolVersionMismatch(s) => text::prefixed(
                "protocol version mismatch: ",
                s.as_str(),
            ),
            RdmaError::Internal(s) => text::prefixed("internal error: ", s.as_str()),
        }
    }
}


/// Timeouts, lost races, changed versions and lost connections may be retried; a full
/// table, an invalid key, a hardware error, a protocol mismatch and an internal error are
/// final.
pub proof fn law_retriable(s: Seq<char>)
    ensures
        retriable(ErrorView::Timeout),
        retriable(ErrorView::CasFailed),
        retriable(ErrorView::VersionMismatch),
        retriable(ErrorView::NotConnected),
        !retriable(ErrorView::KvFull),
        !retriable(ErrorView::InvalidKey),
        !retriable(ErrorView::HardwareError(s)),
        !retriable(ErrorView::ProtocolVersionMismatch(s)),
        !retriable(ErrorView::Internal(s)),
{
}

/// An error that carries a text shows it at the end of its message.
pub proof fn law_message_ends_with_text(s: Seq<char>)
    ensures
        s.is_suffix_of(error_message(ErrorView::HardwareError(s))),
        s.is_suffix_of(error_message(ErrorView::ProtocolVersionMismatch(s))),
        s.is_suffix_of(error_message(ErrorView::Internal(s))),
{
    let a = "hardware error: "@;
    let b = "protocol version mismatch: "@;
    let c = "internal error: "@;
    assert((a + s).subrange(a.len() as int, (a + s).len() as int) =~= s);
    assert((b + s).subrange(b.len() as int, (b + s).len() as int) =~= s);
    assert((c + s).subrange(c.len() as int, (c + s).len() as int) =~= s);
}

} // verus!
