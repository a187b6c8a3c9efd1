//! What can go wrong, and how outcomes are compared in contracts.

use vstd::prelude::*;

verus! {

/// Why a client was not enrolled or a request was not authenticated.
#[derive(Debug, Clone)]
pub enum ClientAuthError {
    /// The request itself is malformed; the text says how.
    Invalid(String),
    /// The bootstrap key was never issued, or has been used.
    BadApiKey,
    /// Another public key is pinned under this client id.
    PinMismatch,
    /// No client is pinned under the presented id.
    UnknownClient,
    /// The signature does not verify under the pinned key.
    BadSignature,
    /// The timestamp lies outside the window, or the nonce was seen before.
    Replay,
    /// The store failed or holds something unusable; the text says what.
    Storage(String),
}

/// A [`ClientAuthError`] as a mathematical value.
pub enum AuthFailure {
    Invalid(Seq<char>),
    BadApiKey,
    PinMismatch,
    UnknownClient,
    BadSignature,
    Replay,
    Storage(Seq<char>),
}

impl View for ClientAuthError {
    type V = AuthFailure;

    open spec fn view(&self) -> AuthFailure {
        match self {
            ClientAuthError::Invalid(text) => AuthFailure::Invalid(text@),
            ClientAuthError::BadApiKey => AuthFailure::BadApiKey,
            ClientAuthError::PinMismatch => AuthFailure::PinMismatch,
            ClientAuthError::UnknownClient => AuthFailure::UnknownClient,
            ClientAuthError::BadSignature => AuthFailure::BadSignature,
            ClientAuthError::Replay => AuthFailure::Replay,
            ClientAuthError::Storage(text) => AuthFailure::Storage(text@),
        }
    }
}

/// A result as a mathematical value: its success or its failure, by their views.
pub open spec fn outcome<T: View, E: View>(r: Result<T, E>) -> Result<T::V, E::V> {
    match r {
        Ok(v) => Ok(v@),
        Err(e) => Err(e@),
    }
}

/// The error for a failure that the store reported in words.
pub fn store_err(text: String) -> (e: ClientAuthError)
    ensures
        e@ == AuthFailure::Storage(text@),
{
    ClientAuthError::Storage(text)
}

/// An error is told apart by its variant and the text that it carries.
pub proof fn error_fields(e: ClientAuthError)
    ensures
        e matches ClientAuthError::Invalid(text) ==> e@ == AuthFailure::Invalid(text@),
        e is BadApiKey <==> e@ == AuthFailure::BadApiKey,
        e is PinMismatch <==> e@ == AuthFailure::PinMismatch,
        e is UnknownClient <==> e@ == AuthFailure::UnknownClient,
        e is BadSignature <==> e@ == AuthFailure::BadSignature,
        e is Replay <==> e@ == AuthFailure::Replay,
        e matches ClientAuthError::Storage(text) ==> e@ == AuthFailure::Storage(text@),
{
}

/// A result is told apart by its side and what stands there.
pub proof fn outcome_fields<T: View, E: View>(r: Result<T, E>)
    ensures
        r matches Ok(v) ==> outcome(r) == Ok::<T::V, E::V>(v@),
        r matches Err(e) ==> outcome(r) == Err::<T::V, E::V>(e@),
{
}

} // verus!
