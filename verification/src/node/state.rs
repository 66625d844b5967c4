//! The chain state that every part of the node shares.
use crate::primitives::hash;
use crate::primitives::types::BlockHeight;
use vstd::prelude::*;

verus! {

/// The head of the best chain.
#[derive(Debug, Clone, Copy, PartialEq, Eq)]
pub struct ChainTip {
    /// Hash of the best block.
    pub hash: hash::Hash,
    /// Height of the best block.
    pub height: BlockHeight,
}

impl Default for ChainTip {
    fn default() -> (r: Self)
        ensures
            r.hash.is_zero(),
            r.height.0 == 0,
    {
        ChainTip { hash: hash::Hash::zero(), height: BlockHeight(0) }
    }
}

/// The state of the chain: the tip, whether the node is syncing, and the
/// network version.
pub struct ChainState {
    tip: ChainTip,
    syncing: bool,
    /// The version of the network protocol.
    pub network_version: u32,
}

impl ChainState {
    /// The current tip.
    pub closed spec fn tip_spec(&self) -> ChainTip {
        self.tip
    }

    /// The network version.
    pub closed spec fn version_spec(&self) -> u32 {
        self.network_version
    }

    /// Whether the node is syncing.
    pub closed spec fn syncing_spec(&self) -> bool {
        self.syncing
    }

    /// A state at the zero tip, not syncing.
    pub fn new(network_version: u32) -> (r: Self)
        ensures
            r.tip_spec().hash.is_zero(),
            r.tip_spec().height.0 == 0,
            !r.syncing_spec(),
            r.version_spec() == network_version,
    {
        ChainState { tip: ChainTip::default(), syncing: false, network_version }
    }

    /// The current tip.
    pub fn tip(&self) -> (r: ChainTip)
        ensures
            r == self.tip_spec(),
    {
        self.tip
    }

    /// Moves the tip to a new block.
    pub fn update_tip(&mut self, hash: hash::Hash, height: BlockHeight)
        ensures
            final(self).tip_spec() == (ChainTip { hash, height }),
            final(self).syncing_spec() == old(self).syncing_spec(),
            final(self).version_spec() == old(self).version_spec(),
    {
        self.tip = ChainTip { hash, height };
    }

    /// Whether the node is catching up with the network.
    pub fn is_syncing(&self) -> (r: bool)
        ensures
            r == self.syncing_spec(),
    {
        self.syncing
    }

    /// Sets whether the node is syncing.
    pub fn set_syncing(&mut self, syncing: bool)
        ensures
            final(self).syncing_spec() == syncing,
            final(self).tip_spec() == old(self).tip_spec(),
            final(self).version_spec() == old(self).version_spec(),
    {
        self.syncing = syncing;
    }
}

} // verus!
