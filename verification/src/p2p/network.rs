//! The network's configuration, the events it reports to the node, and
//! what the node does on each event of the swarm.
use crate::p2p::message::NetworkMessage;
use crate::primitives::block::Block;
use crate::primitives::transaction::Transaction;
use vstd::prelude::*;

verus! {

/// Network configuration.
#[derive(Debug, Clone)]
pub struct NetworkConfig {
    /// Port for incoming connections.
    pub listen_port: u16,
    /// Multiaddrs of known nodes to connect to first.
    pub bootstrap_peers: Vec<String>,
    /// The most peers at once.
    pub max_peers: usize,
    /// Name of the network (mainnet, testnet).
    pub network_name: String,
}

impl Default for NetworkConfig {
    fn default() -> (r: Self)
        ensures
            r.listen_port == 8333,
            r.bootstrap_peers@.len() == 0,
            r.max_peers == 50,
            r.network_name@ == "quench-mainnet"@,
    {
        NetworkConfig {
            listen_port: 8333,
            bootstrap_peers: Vec::new(),
            max_peers: 50,
            network_name: String::from_str("quench-mainnet"),
        }
    }
}

/// An event the network layer reports to the node; peers are named by
/// their peer id's text.
#[derive(Debug)]
pub enum NetworkEvent {
    /// A peer connected.
    PeerConnected(String),
    /// A peer disconnected.
    PeerDisconnected(String),
    /// A block came from a peer.
    NewBlock {
        /// The peer it came from.
        from: String,
        /// The block.
        block: Box<Block>,
    },
    /// A transaction came from a peer.
    NewTransaction {
        /// The peer it came from.
        from: String,
        /// The transaction.
        tx: Box<Transaction>,
    },
    /// A peer asked to synchronise.
    SyncRequest {
        /// The peer asking.
        from: String,
        /// The height it wants blocks from.
        start_height: u64,
    },
}

/// An event of the swarm, as far as the node looks at it.
#[derive(Debug)]
pub enum SwarmInput {
    /// The node listens on a new address.
    NewListenAddr(String),
    /// A connection to a peer was established.
    ConnectionEstablished(String),
    /// A connection to a peer was closed.
    ConnectionClosed(String),
    /// A gossip message came from a peer: the message, or `None` where its
    /// bytes did not decode.
    Gossip { source: String, message: Option<NetworkMessage> },
    /// Local discovery found peers, each with an address.
    Discovered(Vec<(String, String)>),
    /// Any other event.
    Other,
}

/// What the node does on a swarm event.
#[derive(Debug)]
pub enum SwarmAction {
    /// Report an event to the node.
    Report(NetworkEvent),
    /// Add the peer's address to the routing table and dial the peer.
    AddAndDial { peer: String, addr: String },
}

/// What the node does on each swarm event: connections and
/// disconnections are reported; a gossip block or transaction is reported
/// with the peer it came from, other gossip (and what does not decode) is
/// dropped; each peer found is added to the routing table and dialled.
pub fn handle_swarm_input(input: SwarmInput) -> (r: Vec<SwarmAction>)
    ensures
        match input {
            SwarmInput::ConnectionEstablished(p) => r@.len() == 1 && (r@[0] matches SwarmAction::Report(
                NetworkEvent::PeerConnected(q),
            ) && q == p),
            SwarmInput::ConnectionClosed(p) => r@.len() == 1 && (r@[0] matches SwarmAction::Report(
                NetworkEvent::PeerDisconnected(q),
            ) && q == p),
            SwarmInput::Gossip { source, message } => match message {
                Some(NetworkMessage::NewBlock(b)) => r@.len() == 1 && (r@[0] matches SwarmAction::Report(
                    NetworkEvent::NewBlock { from, block },
                ) && from == source && block == b),
                Some(NetworkMessage::NewTransaction(t)) => r@.len() == 1 && (r@[0] matches SwarmAction::Report(
                    NetworkEvent::NewTransaction { from, tx },
                ) && from == source && tx == t),
                _ => r@.len() == 0,
            },
            SwarmInput::Discovered(found) => r@.len() == found@.len() && forall|i: int|
                0 <= i < found@.len() ==> (#[trigger] r@[i] matches SwarmAction::AddAndDial {
                    peer,
                    addr,
                } && peer == found@[i].0 && addr == found@[i].1),
            _ => r@.len() == 0,
        },
{
    let mut out: Vec<SwarmAction> = Vec::new();
    match input {
        SwarmInput::ConnectionEstablished(p) => {
            out.push(SwarmAction::Report(NetworkEvent::PeerConnected(p)));
        },
        SwarmInput::ConnectionClosed(p) => {
            out.push(SwarmAction::Report(NetworkEvent::PeerDisconnected(p)));
        },
        SwarmInput::Gossip { source, message } => match message {
            Some(NetworkMessage::NewBlock(b)) => {
                out.push(SwarmAction::Report(NetworkEvent::NewBlock { from: source, block: b }));
            },
            Some(NetworkMessage::NewTransaction(t)) => {
                out.push(SwarmAction::Report(NetworkEvent::NewTransaction { from: source, tx: t }));
            },
            _ => {},
        },
        SwarmInput::Discovered(found) => {
            let mut i: usize = 0;
            while i < found.len()
                invariant
                    i <= found@.len(),
                    out@.len() == i,
                    forall|j: int| 0 <= j < i ==> (#[trigger] out@[j] matches SwarmAction::AddAndDial {
                        peer,
                        addr,
                    } && peer == found@[j].0 && addr == found@[j].1),
                decreases found@.len() - i,
            {
                let peer = found[i].0.clone();
                let addr = found[i].1.clone();
                out.push(SwarmAction::AddAndDial { peer, addr });
                i = i + 1;
            }
        },
        _ => {},
    }
    out
}

} // verus!
