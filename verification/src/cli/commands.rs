//! The commands of the command line.
use crate::cli::text::{concat3, dec_chars, dec_string};
use crate::node::config::{MiningConfig, NodeConfig};
use vstd::prelude::*;

verus! {

/// Node commands.
#[derive(Debug)]
pub enum NodeCmd {
    /// Start a full node.
    Start {
        /// Mine blocks.
        mine: bool,
        /// The address that receives mining rewards.
        coinbase: Option<String>,
        /// P2P port.
        p2p_port: u16,
        /// RPC port.
        rpc_port: u16,
        /// RPC host.
        rpc_host: String,
        /// Peers to connect to first.
        peer: Vec<String>,
    },
    /// Show the node's status.
    Status,
}

/// Chain commands.
#[derive(Debug)]
pub enum ChainCmd {
    /// Information on the chain.
    Info,
    /// A block by hash or by height.
    Block {
        /// The block's hash.
        hash: Option<String>,
        /// The block's height.
        height: Option<u64>,
    },
}

/// Transaction commands.
#[derive(Debug)]
pub enum TxCmd {
    /// A transaction by id.
    Get {
        /// The transaction's id.
        txid: String,
    },
    /// The pending transactions.
    Pending,
}

/// The RPC address the commands ask.
pub open spec fn rpc_url() -> Seq<char> {
    "http://127.0.0.1:8545"@
}

/// The node's configuration for `node start`: the loaded configuration
/// with the ports, the RPC host and the peers replaced, and, with
/// `--mine`, mining to the `--coinbase` address with automatic threads;
/// an error where `--mine` comes without `--coinbase`.
pub fn start_config(
    config: NodeConfig,
    mine: bool,
    coinbase: Option<String>,
    p2p_port: u16,
    rpc_port: u16,
    rpc_host: String,
    peer: Vec<String>,
) -> (r: Result<NodeConfig, String>)
    ensures
        mine && coinbase is None ==> (r matches Err(m) && m@ == "--coinbase required when --mine is set"@),
        !(mine && coinbase is None) ==> (r matches Ok(c) && c.p2p.port == p2p_port && c.rpc.port
            == rpc_port && c.rpc.host == rpc_host && c.p2p.bootstrap_peers == peer && c.data_dir
            == config.data_dir && c.network == config.network && c.p2p.max_peers
            == config.p2p.max_peers && c.rpc.enabled == config.rpc.enabled && c.rpc.cors
            == config.rpc.cors && c.log == config.log && (if mine {
            c.mining matches Some(mc) && Some(mc.coinbase_address) == coinbase && mc.threads == 0
        } else {
            c.mining == config.mining
        })),
{
    let mut config = config;
    config.p2p.port = p2p_port;
    config.rpc.port = rpc_port;
    config.rpc.host = rpc_host;
    config.p2p.bootstrap_peers = peer;
    if mine {
        match coinbase {
            Some(addr) => {
                config.mining = Some(MiningConfig { coinbase_address: addr, threads: 0 });
            },
            None => {
                return Err(String::from_str("--coinbase required when --mine is set"));
            },
        }
    }
    Ok(config)
}

/// The lines `chain` prints.
pub fn chain_lines(cmd: &ChainCmd) -> (r: Vec<String>)
    ensures
        match cmd {
            ChainCmd::Info => r@.len() == 3 && r@[0]@ == "Fetching chain info from "@ + rpc_url()
                + "/api/v1/chain ..."@ && r@[1]@ == "  Network:    quench-mainnet"@ && r@[2]@
                == "  Best height: (connect a node first)"@,
            ChainCmd::Block { hash, height } => r@.len() == 1 && match hash {
                Some(h) => r@[0]@ == "Fetching block "@ + h@ + " from "@ + rpc_url()
                    + "/api/v1/blocks/"@ + h@,
                None => match height {
                    Some(n) => r@[0]@ == "Fetching block at height "@ + dec_chars(n as nat)
                        + " from "@ + rpc_url() + "/api/v1/blocks/height/"@ + dec_chars(
                        n as nat,
                    ),
                    None => r@[0]@ == "Provide --hash or --height"@,
                },
            },
        },
{
    let mut out: Vec<String> = Vec::new();
    match cmd {
        ChainCmd::Info => {
            out.push(concat3("Fetching chain info from ", "http://127.0.0.1:8545", "/api/v1/chain ..."));
            out.push(String::from_str("  Network:    quench-mainnet"));
            out.push(String::from_str("  Best height: (connect a node first)"));
        },
        ChainCmd::Block { hash, height } => match hash {
            Some(h) => {
                let mut s = concat3("Fetching block ", h.as_str(), " from ");
                s.append("http://127.0.0.1:8545");
                s.append("/api/v1/blocks/");
                s.append(h.as_str());
                out.push(s);
            },
            None => match height {
                Some(n) => {
                    let d = dec_string(*n);
                    let mut s = concat3("Fetching block at height ", d.as_str(), " from ");
                    s.append("http://127.0.0.1:8545");
                    s.append("/api/v1/blocks/height/");
                    s.append(d.as_str());
                    out.push(s);
                },
                None => {
                    out.push(String::from_str("Provide --hash or --height"));
                },
            },
        },
    }
    out
}

/// The line `tx` prints.
pub fn tx_line(cmd: &TxCmd) -> (r: String)
    ensures
        match cmd {
            TxCmd::Get { txid } => r@ == "Fetching tx "@ + txid@ + " from "@ + rpc_url() + "/api/v1/tx/"@
                + txid@,
            TxCmd::Pending => r@ == "Fetching mempool from "@ + rpc_url() + "/api/v1/mempool"@,
        },
{
    match cmd {
        TxCmd::Get { txid } => {
            let mut s = concat3("Fetching tx ", txid.as_str(), " from ");
            s.append("http://127.0.0.1:8545");
            s.append("/api/v1/tx/");
            s.append(txid.as_str());
            s
        },
        TxCmd::Pending => concat3("Fetching mempool from ", "http://127.0.0.1:8545", "/api/v1/mempool"),
    }
}

} // verus!
