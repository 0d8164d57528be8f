//! The values that the parts of the client hand to each other.

use crate::address::{address_text, SocketAddress};
use vstd::prelude::*;
use vstd::string::StringExecFns;

verus! {

/// A place a client can connect to.
#[derive(Clone, Copy, Debug, PartialEq, Eq, Hash, Structural)]
pub struct Endpoint {
    pub addr: SocketAddress,
}

impl Endpoint {
    pub fn from_addr(addr: SocketAddress) -> (endpoint: Endpoint)
        ensures
            endpoint == (Endpoint { addr }),
    {
        Endpoint { addr }
    }
}

/// The scheme of the request that asks a node for gossip.
#[derive(Clone, Copy, Debug, PartialEq, Eq, Hash, Structural)]
pub enum Scheme {
    Http,
    Https,
}

/// A node to ask for the cluster's gossip: the address of its HTTP endpoint
/// and the scheme to ask with.
#[derive(Clone, Copy, Debug, PartialEq, Eq, Hash, Structural)]
pub struct GossipSeed {
    pub endpoint: Endpoint,
    pub scheme: Scheme,
}

impl GossipSeed {
    /// The seed that is asked over plain HTTP at the given address.
    pub open spec fn at(addr: SocketAddress) -> GossipSeed {
        GossipSeed { endpoint: Endpoint { addr }, scheme: Scheme::Http }
    }

    pub fn from_socket_addr(addr: SocketAddress) -> (seed: GossipSeed)
        ensures
            seed == GossipSeed::at(addr),
    {
        GossipSeed { endpoint: Endpoint::from_addr(addr), scheme: Scheme::Http }
    }

    /// The address of the request that asks the seed for gossip.
    pub fn url(&self) -> (url: String)
        ensures
            url@ == gossip_url(*self),
    {
        let mut url = match self.scheme {
            Scheme::Http => String::from_str("http"),
            Scheme::Https => String::from_str("https"),
        };
        url.append("://");
        let addr = self.endpoint.addr.to_string();
        url.append(addr.as_str());
        url.append("/gossip?format=json");
        url
    }
}

/// The name of a scheme as it stands in a URL.
pub open spec fn scheme_text(scheme: Scheme) -> Seq<char> {
    match scheme {
        Scheme::Http => "http"@,
        Scheme::Https => "https"@,
    }
}

/// The address of the request that asks a seed for gossip:
/// `scheme://host:port/gossip?format=json`.
pub open spec fn gossip_url(seed: GossipSeed) -> Seq<char> {
    scheme_text(seed.scheme) + "://"@ + address_text(seed.endpoint.addr)
        + "/gossip?format=json"@
}

/// Where the first gossip seeds come from.
#[derive(Debug)]
pub enum SeedSource {
    /// A list of seeds that was configured.
    Seeds(Vec<GossipSeed>),
    /// A domain name whose service records name the nodes of the cluster.
    Dns { domain_name: String },
}

/// How a client finds the cluster.
#[derive(Debug)]
pub struct ClusterSettings {
    pub kind: SeedSource,
    /// The port of the gossip endpoint of the nodes that a name lookup finds.
    pub gossip_port: u16,
    /// How often discovery is tried before it gives up.
    pub max_discover_attempts: usize,
}

/// The version that a stream must have for a write to go through.
#[derive(Clone, Copy, Debug, PartialEq, Eq, Structural)]
pub enum ExpectedVersion {
    /// Any version, and no stream at all.
    Any,
    /// Any version of a stream that exists.
    StreamExists,
    /// No stream.
    NoStream,
    /// This version.
    Exact(u64),
}

/// How the events of a persistent subscription are handed to the consumers
/// of a group.
#[derive(Clone, Copy, Debug, PartialEq, Eq, Structural)]
pub enum SystemConsumerStrategy {
    /// To one consumer, until it can take no more.
    DispatchToSingle,
    /// To each consumer in turn.
    RoundRobin,
    /// To the consumer that the stream of the event is pinned to.
    Pinned,
}

/// How a persistent subscription is to be run.
#[derive(Clone, Copy, Debug, PartialEq, Eq)]
pub struct PersistentSubscriptionSettings {
    pub resolve_links: bool,
    pub revision: u64,
    pub extra_stats: bool,
    pub message_timeout: std::time::Duration,
    pub max_retry_count: i32,
    pub live_buffer_size: i32,
    pub read_batch_size: i32,
    pub history_buffer_size: i32,
    pub checkpoint_after: std::time::Duration,
    pub min_checkpoint_count: i32,
    pub max_checkpoint_count: i32,
    pub max_subscriber_count: i32,
    pub named_consumer_strategy: SystemConsumerStrategy,
}

/// Who may do what with a stream. `None` leaves the matter to the defaults
/// of the server.
#[derive(Clone, Debug, PartialEq, Eq)]
pub struct StreamAcl {
    pub read_roles: Option<Vec<String>>,
    pub write_roles: Option<Vec<String>>,
    pub delete_roles: Option<Vec<String>>,
    pub meta_read_roles: Option<Vec<String>>,
    pub meta_write_roles: Option<Vec<String>>,
}

/// Which kind of node a client would rather be connected to.
#[derive(Clone, Copy, Debug, PartialEq, Eq, Hash, Structural)]
pub enum NodePreference {
    Leader,
    Follower,
    Random,
}

} // verus!
