//! The client that fetches blocks over a transport. Fetching itself happens
//! outside the library; the client only carries its transport.
use vstd::prelude::*;

verus! {

/// A client for the Solana chain over a transport of type `T`.
#[derive(Clone)]
pub struct SolanaClient<T> {
    http_client: T,
}

impl<T> SolanaClient<T> {
    /// A client that fetches through `http_client`.
    pub fn new_with_transport(http_client: T) -> (r: SolanaClient<T>)
        ensures
            r.transport() == http_client,
    {
        SolanaClient { http_client }
    }

    /// The client's transport.
    pub closed spec fn transport(&self) -> T {
        self.http_client
    }

    /// The client's transport.
    pub fn http_client(&self) -> (r: &T)
        ensures
            *r == self.transport(),
    {
        &self.http_client
    }
}

} // verus!
