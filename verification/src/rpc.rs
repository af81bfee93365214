//! Handle for serving the read-only marketplace queries: it wraps a shared
//! reference to the backing client that answers them.

use vstd::prelude::*;
use std::sync::Arc;
use std::marker::PhantomData;

verus! {

/// A query server over a backing client. The block and account-id types of
/// the chain it serves are fixed at the type level.
pub struct BazaarRpc<Client, Block, AccountId> {
    /// The client answering the queries.
    pub client: Arc<Client>,
    pub _marker: PhantomData<(Block, AccountId)>,
}

impl<Client, Block, AccountId> BazaarRpc<Client, Block, AccountId> {
    /// Create new `Bazaar` instance with the given reference to the client.
    pub fn new(client: Arc<Client>) -> (r: Self)
        ensures
            r.client == client,
    {
        BazaarRpc { client, _marker: PhantomData }
    }
}

} // verus!
