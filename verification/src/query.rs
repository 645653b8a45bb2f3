//! The read-only host query: which client, if any, a hostname is bound to.

use crate::ids::ClientId;
use crate::registry::RoutingRegistry;
use vstd::prelude::*;

verus! {

/// A question about one hostname.
#[derive(Debug, Clone)]
pub struct HostQuery {
    pub host: String,
}

/// The client that the hostname is bound to, if any.
#[derive(Debug, Clone)]
pub struct HostQueryResponse {
    pub client_id: Option<ClientId>,
}

/// Answers a query from the registry, which it leaves as it is.
pub fn handle_query(registry: &RoutingRegistry, query: HostQuery) -> (response: HostQueryResponse)
    ensures
        match response.client_id {
            Some(client) => registry@.contains_key(query.host@) && registry@[query.host@]
                == client@,
            None => !registry@.contains_key(query.host@),
        },
{
    HostQueryResponse { client_id: registry.lookup(query.host.as_str()) }
}

} // verus!
