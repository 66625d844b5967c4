//! The node's configuration (read from `node.toml`).
use vstd::prelude::*;
use vstd::string::StrSliceExecFns;

verus! {

/// The full configuration of a node.
#[derive(Debug, Clone)]
pub struct NodeConfig {
    /// Directory of the node's data (store, keystore).
    pub data_dir: String,
    /// Network name: "mainnet", "testnet" or "devnet".
    pub network: String,
    /// Peer-to-peer settings.
    pub p2p: P2pConfig,
    /// RPC server settings.
    pub rpc: RpcConfig,
    /// Mining settings; `None` where the node does not mine.
    pub mining: Option<MiningConfig>,
    /// Logging settings.
    pub log: LogConfig,
}

/// Peer-to-peer network configuration.
#[derive(Debug, Clone)]
pub struct P2pConfig {
    /// TCP port for incoming connections.
    pub port: u16,
    /// Addresses of known peers to connect to first.
    pub bootstrap_peers: Vec<String>,
    /// The most peers connected at once.
    pub max_peers: usize,
}

/// RPC server configuration.
#[derive(Debug, Clone)]
pub struct RpcConfig {
    /// Whether the RPC server runs.
    pub enabled: bool,
    /// Host address to bind to.
    pub host: String,
    /// Port to bind to.
    pub port: u16,
    /// Whether to send CORS headers.
    pub cors: bool,
}

/// Mining configuration.
#[derive(Debug, Clone)]
pub struct MiningConfig {
    /// The wallet address (Base58) that receives block rewards.
    pub coinbase_address: String,
    /// Number of mining threads (0: as many as there are CPUs).
    pub threads: usize,
}

/// Logging configuration.
#[derive(Debug, Clone)]
pub struct LogConfig {
    /// Level: "trace", "debug", "info", "warn" or "error".
    pub level: String,
    /// Format: "pretty", "json" or "compact".
    pub format: String,
}

/// A relative path `leaf` under the directory `base`, as `Path::join`
/// writes it: a separator goes between them unless `base` is empty or ends
/// with one.
pub open spec fn path_join(base: Seq<char>, leaf: Seq<char>) -> Seq<char> {
    if base.len() == 0 {
        leaf
    } else if base.last() == '/' {
        base + leaf
    } else {
        base + seq!['/'] + leaf
    }
}

fn join(base: &String, leaf: &str) -> (r: String)
    ensures
        r@ == path_join(base@, leaf@),
{
    let b = base.as_str();
    let n = b.unicode_len();
    if n == 0 {
        return String::from_str(leaf);
    }
    let mut r = base.clone();
    if b.get_char(n - 1) != '/' {
        r.append("/");
        proof {
            reveal_strlit("/");
        }
    }
    r.append(leaf);
    r
}

impl Default for NodeConfig {
    fn default() -> (r: Self)
        ensures
            r.data_dir@ == "./data"@,
            r.network@ == "devnet"@,
            r.p2p.port == 8333,
            r.p2p.bootstrap_peers@.len() == 0,
            r.p2p.max_peers == 50,
            r.rpc.enabled,
            r.rpc.host@ == "0.0.0.0"@,
            r.rpc.port == 8545,
            r.rpc.cors,
            r.mining is None,
            r.log.level@ == "info"@,
            r.log.format@ == "pretty"@,
    {
        NodeConfig {
            data_dir: String::from_str("./data"),
            network: String::from_str("devnet"),
            p2p: P2pConfig { port: 8333, bootstrap_peers: Vec::new(), max_peers: 50 },
            rpc: RpcConfig { enabled: true, host: String::from_str("0.0.0.0"), port: 8545, cors: true },
            mining: None,
            log: LogConfig { level: String::from_str("info"), format: String::from_str("pretty") },
        }
    }
}

impl NodeConfig {
    /// The directory of the store: `db` under the data directory.
    pub fn db_path(&self) -> (r: String)
        ensures
            r@ == path_join(self.data_dir@, "db"@),
    {
        join(&self.data_dir, "db")
    }

    /// The keystore file: `keystore.json` under the data directory.
    pub fn keystore_path(&self) -> (r: String)
        ensures
            r@ == path_join(self.data_dir@, "keystore.json"@),
    {
        join(&self.data_dir, "keystore.json")
    }
}

} // verus!
