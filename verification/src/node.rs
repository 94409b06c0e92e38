//! Node assembly pieces: the builder that carries a consensus provider, the
//! block executor's identity, the network configuration and the resolver's
//! defaults.

use vstd::prelude::*;

verus! {

/// A source of consensus for a node under construction.
pub trait ConsensusProvider {
}

/// Builder for a node, carrying the consensus provider once one is set.
#[derive(Debug)]
pub struct NodeBuilder<P> {
    consensus: P,
}

impl Default for NodeBuilder<()> {
    fn default() -> (b: Self)
        ensures
            b.consensus() == (),
    {
        Self::new()
    }
}

impl<P> NodeBuilder<P> {
    /// The consensus provider the builder carries.
    pub closed spec fn consensus(&self) -> P {
        self.consensus
    }
}

impl NodeBuilder<()> {
    /// Creates a builder without a consensus provider.
    pub fn new() -> (b: Self)
        ensures
            b.consensus() == (),
    {
        NodeBuilder { consensus: () }
    }

    /// Sets the consensus provider.
    pub fn with_consensus<P: ConsensusProvider>(self, consensus: P) -> (b: NodeBuilder<P>)
        ensures
            b.consensus() == consensus,
    {
        NodeBuilder { consensus }
    }
}

impl<P: ConsensusProvider> NodeBuilder<P> {
    /// The consensus provider.
    pub fn consensus_provider(&self) -> (p: &P)
        ensures
            *p == self.consensus(),
    {
        &self.consensus
    }

    /// Takes the consensus provider out of the builder.
    pub fn into_consensus_provider(self) -> (p: P)
        ensures
            p == self.consensus(),
    {
        self.consensus
    }
}

/// The block executor backed by revm, for one chain.
#[derive(Clone, Copy, Debug)]
pub struct RevmExecutor {
    chain_id: u64,
}

impl RevmExecutor {
    /// The chain the executor runs blocks of.
    pub closed spec fn spec_chain_id(&self) -> u64 {
        self.chain_id
    }

    /// Creates an executor for a chain.
    pub fn new(chain_id: u64) -> (e: Self)
        ensures
            e.spec_chain_id() == chain_id,
    {
        RevmExecutor { chain_id }
    }

    /// The chain the executor runs blocks of.
    pub fn chain_id(&self) -> (c: u64)
        ensures
            c == self.spec_chain_id(),
    {
        self.chain_id
    }
}

impl Default for RevmExecutor {
    /// An executor for chain 0.
    fn default() -> (e: Self)
        ensures
            e.spec_chain_id() == 0,
    {
        RevmExecutor { chain_id: 0 }
    }
}

/// Errors of the simulated transport.
#[derive(Debug, Clone)]
pub enum SimTransportError {
    /// Registering a channel failed.
    ChannelRegistration(String),
}

impl SimTransportError {
    /// The human-readable message of this error.
    pub fn message(&self) -> (s: String)
        ensures
            match self {
                SimTransportError::ChannelRegistration(m) => s@ == "channel registration failed: "@ + m@,
            },
    {
        match self {
            SimTransportError::ChannelRegistration(m) => {
                let mut s = String::from_str("channel registration failed: ");
                s.append(m.as_str());
                s
            },
        }
    }
}

/// Lowest port offset a simulated node binds with.
pub const PORT_BASE_MIN: u16 = 40000;

/// Highest port offset a simulated node binds with.
pub const PORT_BASE_MAX: u16 = 64511;

/// The port a simulated node binds for a requested port: a privileged port
/// (below 1024) is moved up by the node's offset, any other is kept.
pub fn remap_socket_port(port: u16, port_offset: u16) -> (p: u16)
    requires
        port < 1024 ==> port + port_offset <= u16::MAX,
    ensures
        p == if port >= 1024 {
            port as int
        } else {
            port + port_offset
        },
{
    if port >= 1024 {
        return port;
    }
    port + port_offset
}

/// The settings the p2p block resolver is initialized with.
#[derive(Debug, Clone, Copy)]
pub struct PeerInitializer;

impl PeerInitializer {
    /// The default mailbox size.
    pub const DEFAULT_MAILBOX_SIZE: usize = 1024;

    /// The default initial delay, in milliseconds.
    pub const DEFAULT_INITIAL_DELAY: u64 = 200;

    /// The default timeout, in milliseconds.
    pub const DEFAULT_TIMEOUT: u64 = 200;

    /// The fetch retry timeout, in milliseconds.
    pub const DEFAULT_FETCH_RETRY_TIMEOUT: u64 = 100;

    /// Whether there are priority requests.
    pub const PRIORITY_REQUESTS: bool = false;

    /// Whether there are priority responses.
    pub const PRIORITY_RESPONSES: bool = false;
}

/// Network layer configuration.
#[derive(Debug, Clone)]
pub struct NetworkConfig {
    /// Address to listen for P2P connections.
    pub listen_addr: String,
    /// External address for NAT traversal (if different from listen_addr).
    pub dialable_addr: Option<String>,
    /// Bootstrap peers to connect to on startup.
    pub bootstrap_peers: Vec<String>,
}

/// The default listen address.
pub open spec fn default_listen_text() -> Seq<char> {
    "0.0.0.0:30303"@
}

/// The default listen address, owned.
pub fn default_listen_addr() -> (s: String)
    ensures
        s@ == default_listen_text(),
{
    String::from_str("0.0.0.0:30303")
}

impl Default for NetworkConfig {
    /// Listen on the default address, with no dialable address and no
    /// bootstrap peers.
    fn default() -> (c: Self)
        ensures
            c.listen_addr@ == default_listen_text(),
            c.dialable_addr is None,
            c.bootstrap_peers@.len() == 0,
    {
        NetworkConfig { listen_addr: default_listen_addr(), dialable_addr: None, bootstrap_peers: Vec::new() }
    }
}

} // verus!
