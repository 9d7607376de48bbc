//! The errors every operation of the library can report.

use vstd::prelude::*;

verus! {

/// What went wrong, with the detail text where there is one.
#[derive(Debug, Clone)]
pub enum DomainError {
    /// No installed browser holds a Kagi session.
    NoSessionFound,
    /// A session was found but Kagi refused it.
    SessionRejected(String),
    /// A browser's cookie store could not be read.
    CookieStoreUnavailable(String),
    /// The cookie is protected by Chrome's App-Bound Encryption.
    CookieDecryptionBlocked,
    /// The request to Kagi failed.
    NetworkError(String),
    /// Kagi's answer could not be understood.
    ParseError(String),
    /// The caller's input was refused before any request.
    InvalidQuery(String),
}

pub type DomainResult<T> = Result<T, DomainError>;

/// The variant of an error, without its detail text.
#[derive(Debug, Clone, Copy, PartialEq, Eq)]
pub enum ErrorKind {
    NoSessionFound,
    SessionRejected,
    CookieStoreUnavailable,
    CookieDecryptionBlocked,
    NetworkError,
    ParseError,
    InvalidQuery,
}

/// Whether `r` is the error of variant `k` with the detail text `detail`.
pub open spec fn fails_with<T>(r: DomainResult<T>, k: ErrorKind, detail: Seq<char>) -> bool {
    r matches Err(e) && e.kind() == k && e.detail() == detail
}

/// Whether `r` is an error of variant `k` whose detail text starts with
/// `prefix` (the rest is an outside crate's description).
pub open spec fn fails_with_prefix<T>(r: DomainResult<T>, k: ErrorKind, prefix: Seq<char>) -> bool {
    r matches Err(e) && e.kind() == k && prefix.len() <= e.detail().len() && e.detail().take(prefix.len() as int)
        == prefix
}

impl DomainError {
    /// The variant of this error.
    pub open spec fn kind(self) -> ErrorKind {
        match self {
            DomainError::NoSessionFound => ErrorKind::NoSessionFound,
            DomainError::SessionRejected(_) => ErrorKind::SessionRejected,
            DomainError::CookieStoreUnavailable(_) => ErrorKind::CookieStoreUnavailable,
            DomainError::CookieDecryptionBlocked => ErrorKind::CookieDecryptionBlocked,
            DomainError::NetworkError(_) => ErrorKind::NetworkError,
            DomainError::ParseError(_) => ErrorKind::ParseError,
            DomainError::InvalidQuery(_) => ErrorKind::InvalidQuery,
        }
    }

    /// The detail text carried by the error (empty for the variants without one).
    pub open spec fn detail(self) -> Seq<char> {
        match self {
            DomainError::SessionRejected(s) => s@,
            DomainError::CookieStoreUnavailable(s) => s@,
            DomainError::NetworkError(s) => s@,
            DomainError::ParseError(s) => s@,
            DomainError::InvalidQuery(s) => s@,
            _ => seq![],
        }
    }

    /// The human-readable message of the error: a fixed sentence per
    /// variant, followed by the detail text where the variant has one.
    pub open spec fn message_spec(self) -> Seq<char> {
        match self {
            DomainError::NoSessionFound => "no kagi session found in any installed browser"@,
            DomainError::SessionRejected(s) => "session was found but kagi rejected it (likely expired or app-bound-encrypted): "@ + s@,
            DomainError::CookieStoreUnavailable(s) => "browser cookie store could not be read: "@ + s@,
            DomainError::CookieDecryptionBlocked => "could not decrypt cookie value (Chrome v20 App-Bound Encryption requires the user to provide a Session Link instead)"@,
            DomainError::NetworkError(s) => "kagi network request failed: "@ + s@,
            DomainError::ParseError(s) => "could not parse kagi response: "@ + s@,
            DomainError::InvalidQuery(s) => "invalid query: "@ + s@,
        }
    }

    /// The message of the error, as its `Display` shows it.
    pub fn message(&self) -> (r: String)
        ensures
            r@ == self.message_spec(),
    {
        match self {
            DomainError::NoSessionFound => String::from_str("no kagi session found in any installed browser"),
            DomainError::SessionRejected(s) => String::from_str("session was found but kagi rejected it (likely expired or app-bound-encrypted): ").concat(s.as_str()),
            DomainError::CookieStoreUnavailable(s) => String::from_str("browser cookie store could not be read: ").concat(s.as_str()),
            DomainError::CookieDecryptionBlocked => String::from_str("could not decrypt cookie value (Chrome v20 App-Bound Encryption requires the user to provide a Session Link instead)"),
            DomainError::NetworkError(s) => String::from_str("kagi network request failed: ").concat(s.as_str()),
            DomainError::ParseError(s) => String::from_str("could not parse kagi response: ").concat(s.as_str()),
            DomainError::InvalidQuery(s) => String::from_str("invalid query: ").concat(s.as_str()),
        }
    }
}

} // verus!
