use vstd::prelude::*;

verus! {

/// Failure modes of a single fetch against the remote read-only API.
/// All of them are non-fatal to a batch: the pipeline records the failing
/// identity and proceeds with the remaining items.
#[derive(Debug, PartialEq, Eq)]
pub enum FetchError {
    /// Transport or network failure: the request never produced a response.
    TransportError,
    /// The remote answered with an explicit failure envelope; the payload is
    /// the error message it carried.
    RemoteApiError(String),
    /// The response body could not be parsed.
    MalformedResponse,
    /// The response succeeded but the identity field was absent.
    IdentityNotFound,
}

impl FetchError {
    /// An equal copy; the message of `RemoteApiError` is cloned.
    pub fn duplicate(&self) -> (r: FetchError)
        ensures
            r == *self,
    {
        match self {
            FetchError::TransportError => FetchError::TransportError,
            FetchError::RemoteApiError(m) => FetchError::RemoteApiError(m.clone()),
            FetchError::MalformedResponse => FetchError::MalformedResponse,
            FetchError::IdentityNotFound => FetchError::IdentityNotFound,
        }
    }
}

/// Failure modes of the store.  A duplicate insert is a classified outcome
/// of its own, distinct from every other store failure.
#[derive(Debug, PartialEq, Eq)]
pub enum DbError {
    /// The insert target already exists under the (channel, username)
    /// uniqueness constraint.
    Duplicate,
    /// Any store failure other than a uniqueness violation; fatal to the
    /// calling step but never to the whole batch.
    Internal,
    /// The delete or update target is absent.
    NotFoundInStore,
}

} // verus!
