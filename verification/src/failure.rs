//! Why a request failed, as far as retrying is concerned.
//!
//! A request that could not be built, one that the redirect policy stopped and
//! one that was refused for its status fail again in the same way when they are
//! sent again. Every other failure comes from the transport and may pass.

use reqwest::Error;
use vstd::prelude::*;

verus! {

/// `reqwest::Error`: the failure of a request or of a body stream.
#[verifier::external_type_specification]
#[verifier::external_body]
pub struct ExError(Error);

/// What `Error::is_builder` says of a failure: that it came from building the
/// request.
pub uninterp spec fn is_builder_error(err: Error) -> bool;

/// What `Error::is_redirect` says of a failure: that the redirect policy
/// stopped the request.
pub uninterp spec fn is_redirect_error(err: Error) -> bool;

/// What `Error::is_status` says of a failure: that the response was refused for
/// its status.
pub uninterp spec fn is_status_error(err: Error) -> bool;

/// `Error::is_builder`. Assumed: the answer depends on the failure alone.
#[verifier::external_body]
pub(crate) fn is_builder(err: &Error) -> (answer: bool)
    ensures
        answer == is_builder_error(*err),
{
    err.is_builder()
}

/// `Error::is_redirect`. Assumed: the answer depends on the failure alone.
#[verifier::external_body]
pub(crate) fn is_redirect(err: &Error) -> (answer: bool)
    ensures
        answer == is_redirect_error(*err),
{
    err.is_redirect()
}

/// `Error::is_status`. Assumed: the answer depends on the failure alone.
#[verifier::external_body]
pub(crate) fn is_status(err: &Error) -> (answer: bool)
    ensures
        answer == is_status_error(*err),
{
    err.is_status()
}

/// The kinds of failure that the retry policy tells apart.
#[derive(Clone, Copy, Debug, PartialEq, Eq, Structural)]
pub enum FailureKind {
    /// The request could not be built.
    Build,
    /// The redirect policy stopped the request.
    Redirect,
    /// The response was refused for its status.
    Status,
    /// Anything else: the connection, a timeout, the body.
    Transport,
}

impl FailureKind {
    /// The kind of a failure of which the client says these three things.
    pub open spec fn classify(builder: bool, redirect: bool, status: bool) -> FailureKind {
        if builder {
            FailureKind::Build
        } else if redirect {
            FailureKind::Redirect
        } else if status {
            FailureKind::Status
        } else {
            FailureKind::Transport
        }
    }

    /// A transient failure is one that sending the same request again may not
    /// meet: only a failure of the transport is.
    pub open spec fn is_transient(self) -> bool {
        self is Transport
    }

    /// The kind of a failure, from what the client says of it: whether it came
    /// from building the request, from the redirect policy, from the status.
    pub fn from_flags(builder: bool, redirect: bool, status: bool) -> (kind: FailureKind)
        ensures
            kind == Self::classify(builder, redirect, status),
            kind.is_transient() <==> !builder && !redirect && !status,
    {
        if builder {
            FailureKind::Build
        } else if redirect {
            FailureKind::Redirect
        } else if status {
            FailureKind::Status
        } else {
            FailureKind::Transport
        }
    }

    /// The kind of a failure, from what the client says of it.
    pub open spec fn of_error(err: Error) -> FailureKind {
        Self::classify(is_builder_error(err), is_redirect_error(err), is_status_error(err))
    }

    /// The kind of `err`: the client is asked whether it came from building the
    /// request, from the redirect policy or from the status, and the kind
    /// follows from its answers as in [`FailureKind::from_flags`].
    pub fn of(err: &Error) -> (kind: FailureKind)
        ensures
            kind == Self::of_error(*err),
    {
        FailureKind::from_flags(is_builder(err), is_redirect(err), is_status(err))
    }

    /// Whether a request that failed in this way is worth sending again.
    pub fn retryable(&self) -> (retry: bool)
        ensures
            retry == self.is_transient(),
    {
        match self {
            FailureKind::Transport => true,
            _ => false,
        }
    }
}

} // verus!
