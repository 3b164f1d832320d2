use vstd::prelude::*;

verus! {

/// Typed failures surfaced by the library's operations. None are retried
/// internally; the caller decides how to react.
#[derive(Clone, Copy, Debug, PartialEq, Eq, Structural)]
pub enum Error {
    /// The given email does not name a stored account.
    AccountNotFound,
    /// A stored credential blob could not be decoded.
    CredentialParseError,
    /// The identity provider answered a refresh request with a non-success
    /// status, or the transport failed.
    RefreshRequestFailed,
    /// The quota endpoint answered with a non-success status, or the
    /// transport failed.
    QuotaRequestFailed,
    /// A provider response could not be decoded.
    ResponseParseError,
    /// The proxy executable could not be launched.
    SpawnFailed,
    /// The proxy child process could not be signalled or awaited.
    /// Best-effort: the supervisor still clears its handle.
    TerminationFailed,
    /// No eligible network service was found for PAC configuration.
    NetworkServiceNotFound,
    /// An underlying OS configuration call failed.
    SystemCommandFailed,
}

impl Error {
    /// A short human-readable description of the failure.
    pub fn message(&self) -> (r: &'static str)
        ensures
            r@.len() > 0,
    {
        proof {
            reveal_strlit("account not found");
            reveal_strlit("stored credential blob is malformed");
            reveal_strlit("token refresh request failed");
            reveal_strlit("quota request failed");
            reveal_strlit("provider response could not be parsed");
            reveal_strlit("failed to start the proxy process");
            reveal_strlit("failed to terminate the proxy process");
            reveal_strlit("no suitable network service found");
            reveal_strlit("system configuration command failed");
        }
        match self {
            Error::AccountNotFound => "account not found",
            Error::CredentialParseError => "stored credential blob is malformed",
            Error::RefreshRequestFailed => "token refresh request failed",
            Error::QuotaRequestFailed => "quota request failed",
            Error::ResponseParseError => "provider response could not be parsed",
            Error::SpawnFailed => "failed to start the proxy process",
            Error::TerminationFailed => "failed to terminate the proxy process",
            Error::NetworkServiceNotFound => "no suitable network service found",
            Error::SystemCommandFailed => "system configuration command failed",
        }
    }
}

} // verus!
