//! Blocks: a header, hashed for proof of work, and the transactions.
use crate::primitives::error::PrimitivesError;
use crate::primitives::hash;
use crate::primitives::hash::{leading_zero_bits, sha256d_spec};
use crate::primitives::json::{dec, json_bytes, lit, push_bytes, push_dec, push_str};
use crate::primitives::transaction::{json_tx, tx_id_spec, Transaction, TxKind, TxModel};
use crate::primitives::types::{BlockHeight, Nonce, Timestamp};
use vstd::prelude::*;

verus! {

/// A block header: what proof of work hashes.
#[derive(Debug, Clone, Copy, PartialEq, Eq)]
pub struct BlockHeader {
    /// Block version (for fork signalling).
    pub version: u32,
    /// Hash of the previous block.
    pub previous_hash: hash::Hash,
    /// Merkle root of the transactions.
    pub merkle_root: hash::Hash,
    /// Time of creation.
    pub timestamp: Timestamp,
    /// Difficulty: the number of leading zero bits the hash must have.
    pub bits: u32,
    /// Proof-of-work nonce.
    pub nonce: Nonce,
    /// Height of the block.
    pub height: BlockHeight,
    /// The block's hash, where known (not part of what is hashed).
    pub hash: Option<hash::Hash>,
}

/// A full block: header and transactions (the first one a coinbase).
#[derive(Debug, Clone, PartialEq, Eq)]
pub struct Block {
    /// The header.
    pub header: BlockHeader,
    /// The transactions.
    pub transactions: Vec<Transaction>,
}

/// The value of a block, with its transactions taken by their values.
pub struct BlockModel {
    pub header: BlockHeader,
    pub transactions: Seq<TxModel>,
}

/// The values of a list of transactions.
pub open spec fn txs_view(txs: Seq<Transaction>) -> Seq<TxModel> {
    txs.map_values(|t: Transaction| t@)
}

impl View for Block {
    type V = BlockModel;

    open spec fn view(&self) -> BlockModel {
        BlockModel { header: self.header, transactions: txs_view(self.transactions@) }
    }
}

/// The JSON text that the header's hash covers: every field but `hash`.
#[verifier::opaque]
pub open spec fn header_hash_data(h: BlockHeader) -> Seq<u8> {
    lit("{\"version\":") + dec(h.version as nat) + lit(",\"previous_hash\":") + json_bytes(
        h.previous_hash@,
    ) + lit(",\"merkle_root\":") + json_bytes(h.merkle_root@) + lit(",\"timestamp\":") + dec(
        h.timestamp.0 as nat,
    ) + lit(",\"bits\":") + dec(h.bits as nat) + lit(",\"nonce\":") + dec(h.nonce.0 as nat) + lit(
        ",\"height\":",
    ) + dec(h.height.0 as nat) + lit("}")
}

/// The hash of a header: double SHA-256 of `header_hash_data`.
pub open spec fn header_hash_spec(h: BlockHeader) -> Seq<u8> {
    sha256d_spec(header_hash_data(h))
}

/// The JSON text of a header; `hash` is left out where it is `None`.
#[verifier::opaque]
pub open spec fn json_header(h: BlockHeader) -> Seq<u8> {
    lit("{\"version\":") + dec(h.version as nat) + lit(",\"previous_hash\":") + json_bytes(
        h.previous_hash@,
    ) + lit(",\"merkle_root\":") + json_bytes(h.merkle_root@) + lit(",\"timestamp\":") + dec(
        h.timestamp.0 as nat,
    ) + lit(",\"bits\":") + dec(h.bits as nat) + lit(",\"nonce\":") + dec(h.nonce.0 as nat) + lit(
        ",\"height\":",
    ) + dec(h.height.0 as nat) + match h.hash {
        Some(x) => lit(",\"hash\":") + json_bytes(x@),
        None => Seq::<u8>::empty(),
    } + lit("}")
}

/// The JSON texts of transactions, separated by commas.
pub open spec fn json_tx_items(txs: Seq<TxModel>) -> Seq<u8>
    decreases txs.len(),
{
    if txs.len() == 0 {
        seq![]
    } else if txs.len() == 1 {
        json_tx(txs[0])
    } else {
        json_tx_items(txs.drop_last()) + seq![44u8] + json_tx(txs.last())
    }
}

/// The JSON text of a block.
pub open spec fn json_block(b: BlockModel) -> Seq<u8> {
    lit("{\"header\":") + json_header(b.header) + lit(",\"transactions\":[") + json_tx_items(
        b.transactions,
    ) + lit("]}")
}

/// Thirty-two zero bytes.
pub open spec fn zero_hash_bytes() -> Seq<u8> {
    Seq::new(32, |i: int| 0u8)
}

/// The hash of a pair of nodes: double SHA-256 of the two concatenated.
pub open spec fn merkle_pair(a: Seq<u8>, b: Seq<u8>) -> Seq<u8> {
    sha256d_spec(a + b)
}

/// A level with an odd number of nodes gets its last node repeated.
pub open spec fn merkle_pad(h: Seq<Seq<u8>>) -> Seq<Seq<u8>> {
    if h.len() % 2 != 0 {
        h.push(h.last())
    } else {
        h
    }
}

/// The next level up: the hash of each pair of (padded) nodes.
pub open spec fn merkle_level(h: Seq<Seq<u8>>) -> Seq<Seq<u8>> {
    let p = merkle_pad(h);
    Seq::new(p.len() / 2, |i: int| merkle_pair(p[2 * i], p[2 * i + 1]))
}

/// The root of the tree over the given leaves (at least one).
pub open spec fn merkle_reduce(h: Seq<Seq<u8>>) -> Seq<u8>
    decreases h.len(),
{
    if h.len() <= 1 {
        h[0]
    } else {
        merkle_reduce(merkle_level(h))
    }
}

/// The Merkle root of transactions: zero for none, else the root of the
/// tree over their ids.
#[verifier::opaque]
pub open spec fn merkle_root_spec(txs: Seq<TxModel>) -> Seq<u8> {
    if txs.len() == 0 {
        zero_hash_bytes()
    } else {
        merkle_reduce(txs.map_values(|t: TxModel| tx_id_spec(t)))
    }
}

/// One level up the tree pairs neighbours: a level of `n` nodes gives
/// `(n + 1) / 2`, the i-th the hash of nodes 2i and 2i+1, and an odd last
/// node is paired with itself, so no node is left out.
pub proof fn lemma_merkle_level_pairs(h: Seq<Seq<u8>>)
    requires
        h.len() >= 1,
    ensures
        merkle_level(h).len() == (h.len() + 1) / 2,
        forall|i: int|
            0 <= i && 2 * i + 1 < h.len() ==> #[trigger] merkle_level(h)[i] == merkle_pair(
                h[2 * i],
                h[2 * i + 1],
            ),
        h.len() % 2 == 1 ==> merkle_level(h)[(h.len() - 1) / 2] == merkle_pair(h.last(), h.last()),
{
}

/// The root over three transactions hashes the first two together and the
/// third with itself, then those two hashes together.
pub proof fn lemma_merkle_root_of_three(txs: Seq<TxModel>)
    requires
        txs.len() == 3,
    ensures
        merkle_root_spec(txs) == merkle_pair(
            merkle_pair(tx_id_spec(txs[0]), tx_id_spec(txs[1])),
            merkle_pair(tx_id_spec(txs[2]), tx_id_spec(txs[2])),
        ),
{
    reveal(merkle_root_spec);
    let leaves = txs.map_values(|t: TxModel| tx_id_spec(t));
    lemma_merkle_level_pairs(leaves);
    let l1 = merkle_level(leaves);
    assert(l1.len() == 2);
    assert(l1[0] == merkle_pair(leaves[0], leaves[1]));
    lemma_merkle_level_pairs(l1);
    let l2 = merkle_level(l1);
    assert(l2.len() == 1);
    assert(l2[0] == merkle_pair(l1[0], l1[1]));
    assert(merkle_reduce(l1) == merkle_reduce(l2));
}

/// The Merkle root of no transactions is zero; of one transaction, its id.
pub proof fn lemma_merkle_root_small(txs: Seq<TxModel>)
    ensures
        txs.len() == 0 ==> merkle_root_spec(txs) == zero_hash_bytes(),
        txs.len() == 1 ==> merkle_root_spec(txs) == tx_id_spec(txs[0]),
{
    reveal(merkle_root_spec);
}

/// The outcome of `Block::validate_structure`.
pub open spec fn validate_structure_spec(b: BlockModel) -> Result<(), PrimitivesErrorKind> {
    if b.header.merkle_root@ != merkle_root_spec(b.transactions) {
        Err(PrimitivesErrorKind::InvalidMerkleRoot)
    } else if !leading_zero_bits(header_hash_spec(b.header), b.header.bits as nat) {
        Err(PrimitivesErrorKind::InsufficientProofOfWork)
    } else if b.header.height.0 > 0 && b.transactions.len() == 0 {
        Err(PrimitivesErrorKind::InvalidBlock("no transactions"@))
    } else if b.header.height.0 > 0 && !(b.transactions[0].kind is Coinbase) {
        Err(PrimitivesErrorKind::InvalidBlock("first transaction must be coinbase"@))
    } else {
        Ok(())
    }
}

/// The errors of `validate_structure`, with messages taken as sequences.
pub enum PrimitivesErrorKind {
    InvalidMerkleRoot,
    InsufficientProofOfWork,
    InvalidBlock(Seq<char>),
}

/// Whether an error is the given one.
pub open spec fn error_is(e: PrimitivesError, k: PrimitivesErrorKind) -> bool {
    match k {
        PrimitivesErrorKind::InvalidMerkleRoot => e is InvalidMerkleRoot,
        PrimitivesErrorKind::InsufficientProofOfWork => e is InsufficientProofOfWork,
        PrimitivesErrorKind::InvalidBlock(m) => e matches PrimitivesError::InvalidBlock(s) && s@
            == m,
    }
}

impl BlockHeader {
    /// The header's hash: double SHA-256 of its JSON text without `hash`.
    pub fn compute_hash(&self) -> (r: hash::Hash)
        ensures
            r@ == header_hash_spec(*self),
    {
        let mut out: Vec<u8> = Vec::new();
        push_str(&mut out, "{\"version\":");
        push_dec(&mut out, self.version as u64);
        push_str(&mut out, ",\"previous_hash\":");
        push_bytes(&mut out, &self.previous_hash.0);
        push_str(&mut out, ",\"merkle_root\":");
        push_bytes(&mut out, &self.merkle_root.0);
        push_str(&mut out, ",\"timestamp\":");
        push_dec(&mut out, self.timestamp.0);
        push_str(&mut out, ",\"bits\":");
        push_dec(&mut out, self.bits as u64);
        push_str(&mut out, ",\"nonce\":");
        push_dec(&mut out, self.nonce.0);
        push_str(&mut out, ",\"height\":");
        push_dec(&mut out, self.height.0);
        push_str(&mut out, "}");
        assert(out@ =~= header_hash_data(*self)) by {
            reveal(header_hash_data);
        }
        hash::Hash::sha256d(out.as_slice())
    }

    /// Whether the header's hash has `bits` leading zero bits.
    pub fn meets_difficulty(&self) -> (r: bool)
        ensures
            r == leading_zero_bits(header_hash_spec(*self), self.bits as nat),
    {
        let h = self.compute_hash();
        h.meets_difficulty(self.bits)
    }

    /// The JSON text of the header.
    pub fn to_json(&self) -> (r: Vec<u8>)
        ensures
            r@ == json_header(*self),
    {
        let mut out: Vec<u8> = Vec::new();
        push_str(&mut out, "{\"version\":");
        push_dec(&mut out, self.version as u64);
        push_str(&mut out, ",\"previous_hash\":");
        push_bytes(&mut out, &self.previous_hash.0);
        push_str(&mut out, ",\"merkle_root\":");
        push_bytes(&mut out, &self.merkle_root.0);
        push_str(&mut out, ",\"timestamp\":");
        push_dec(&mut out, self.timestamp.0);
        push_str(&mut out, ",\"bits\":");
        push_dec(&mut out, self.bits as u64);
        push_str(&mut out, ",\"nonce\":");
        push_dec(&mut out, self.nonce.0);
        push_str(&mut out, ",\"height\":");
        push_dec(&mut out, self.height.0);
        let ghost mid = out@;
        match self.hash {
            Some(x) => {
                push_str(&mut out, ",\"hash\":");
                push_bytes(&mut out, &x.0);
            },
            None => {},
        }
        push_str(&mut out, "}");
        assert(out@ =~= json_header(*self)) by {
            reveal(json_header);
        }
        out
    }
}

/// The first block of the network: version 1, zero previous hash and
/// Merkle root, time 0, 20 bits, nonce 0, height 0, no transactions, and
/// its own header hash in the hash field.
pub open spec fn is_genesis_block(b: Block) -> bool {
    &&& b.header.version == 1
    &&& b.header.previous_hash.is_zero()
    &&& b.header.merkle_root.is_zero()
    &&& b.header.timestamp.0 == 0
    &&& b.header.bits == 20
    &&& b.header.nonce.0 == 0
    &&& b.header.height.0 == 0
    &&& b.header.hash matches Some(h) && h@ == header_hash_spec(b.header)
    &&& b.transactions@.len() == 0
}

impl Block {
    /// The first block of the network.
    pub fn genesis() -> (r: Block)
        ensures
            is_genesis_block(r),
    {
        let mut header = BlockHeader {
            version: 1,
            previous_hash: hash::Hash::zero(),
            merkle_root: hash::Hash::zero(),
            timestamp: Timestamp(0),
            bits: 20,
            nonce: Nonce(0),
            height: BlockHeight(0),
            hash: None,
        };
        let h = header.compute_hash();
        let ghost unhashed = header;
        header.hash = Some(h);
        proof {
            reveal(header_hash_data);
            assert(header_hash_data(header) == header_hash_data(unhashed));
        }
        Block { header, transactions: Vec::new() }
    }

    /// The Merkle root of transactions: zero for none; otherwise pairs of
    /// ids are hashed level by level (an odd last node is paired with
    /// itself) up to one hash.
    pub fn compute_merkle_root(transactions: &[Transaction]) -> (r: hash::Hash)
        ensures
            r@ == merkle_root_spec(txs_view(transactions@)),
    {
        reveal(merkle_root_spec);
        if transactions.len() == 0 {
            let z = hash::Hash::zero();
            assert(z@ =~= zero_hash_bytes());
            return z;
        }
        let ghost leaves = txs_view(transactions@).map_values(|t: TxModel| tx_id_spec(t));
        let mut hashes: Vec<hash::Hash> = Vec::new();
        let mut i: usize = 0;
        while i < transactions.len()
            invariant
                i <= transactions@.len(),
                leaves.len() == transactions@.len(),
                forall|k: int| 0 <= k < leaves.len() ==> #[trigger] leaves[k] == tx_id_spec(transactions@[k]@),
                hashes@.len() == i,
                forall|k: int| 0 <= k < i ==> #[trigger] hashes@[k]@ == leaves[k],
            decreases transactions@.len() - i,
        {
            let id = transactions[i].tx_id();
            hashes.push(id);
            i = i + 1;
        }
        assert(hashes@.map_values(|h: hash::Hash| h@) =~= leaves);
        while hashes.len() > 1
            invariant
                hashes@.len() >= 1,
                merkle_reduce(hashes@.map_values(|h: hash::Hash| h@)) == merkle_reduce(leaves),
            decreases hashes@.len(),
        {
            let ghost cur = hashes@.map_values(|h: hash::Hash| h@);
            if hashes.len() % 2 != 0 {
                let last = hashes[hashes.len() - 1];
                hashes.push(last);
            }
            let ghost padded = hashes@.map_values(|h: hash::Hash| h@);
            assert(padded =~= merkle_pad(cur));
            let mut next: Vec<hash::Hash> = Vec::new();
            let mut j: usize = 0;
            while j < hashes.len() / 2
                invariant
                    hashes@.len() % 2 == 0,
                    padded == hashes@.map_values(|h: hash::Hash| h@),
                    j <= hashes@.len() / 2,
                    next@.len() == j,
                    forall|k: int| 0 <= k < j ==> #[trigger] next@[k]@ == merkle_pair(padded[2 * k], padded[2 * k + 1]),
                decreases hashes@.len() / 2 - j,
            {
                let a = hashes[2 * j];
                let b = hashes[2 * j + 1];
                let mut combined: Vec<u8> = Vec::new();
                push_raw(&mut combined, &a.0);
                push_raw(&mut combined, &b.0);
                assert(combined@ =~= a@ + b@);
                let h = hash::Hash::sha256d(combined.as_slice());
                next.push(h);
                j = j + 1;
            }
            assert(next@.map_values(|h: hash::Hash| h@) =~= merkle_level(cur));
            hashes = next;
        }
        hashes[0]
    }

    /// The block's height.
    pub fn height(&self) -> (r: BlockHeight)
        ensures
            r == self.header.height,
    {
        self.header.height
    }

    /// The block's hash (of its header).
    pub fn hash(&self) -> (r: hash::Hash)
        ensures
            r@ == header_hash_spec(self.header),
    {
        self.header.compute_hash()
    }

    /// The hash of the previous block.
    pub fn previous_hash(&self) -> (r: hash::Hash)
        ensures
            r == self.header.previous_hash,
    {
        self.header.previous_hash
    }

    /// Checks the block's structure (not its transactions): the Merkle root
    /// must match the transactions, the header must meet its difficulty, and
    /// above genesis the first transaction must be a coinbase.
    pub fn validate_structure(&self) -> (r: Result<(), PrimitivesError>)
        ensures
            match validate_structure_spec(self@) {
                Ok(_) => r is Ok,
                Err(k) => r matches Err(e) && error_is(e, k),
            },
    {
        let expected = Self::compute_merkle_root(self.transactions.as_slice());
        if !self.header.merkle_root.same_as(&expected) {
            proof {
                if self.header.merkle_root@ == expected@ {
                    assert(self.header.merkle_root.0 =~= expected.0);
                }
            }
            return Err(PrimitivesError::InvalidMerkleRoot);
        }
        if !self.header.meets_difficulty() {
            return Err(PrimitivesError::InsufficientProofOfWork);
        }
        if self.header.height.0 > 0 {
            if self.transactions.len() == 0 {
                return Err(PrimitivesError::InvalidBlock(String::from_str("no transactions")));
            }
            match self.transactions[0].kind {
                TxKind::Coinbase => {},
                _ => {
                    return Err(
                        PrimitivesError::InvalidBlock(
                            String::from_str("first transaction must be coinbase"),
                        ),
                    );
                },
            }
        }
        Ok(())
    }

    /// The JSON text of the block, as `serde_json::to_vec` writes it.
    pub fn to_json(&self) -> (r: Vec<u8>)
        ensures
            r@ == json_block(self@),
    {
        let mut out: Vec<u8> = Vec::new();
        push_str(&mut out, "{\"header\":");
        let h = self.header.to_json();
        push_raw(&mut out, h.as_slice());
        push_str(&mut out, ",\"transactions\":[");
        let ghost start = out@;
        let ghost tv = txs_view(self.transactions@);
        let mut i: usize = 0;
        while i < self.transactions.len()
            invariant
                i <= self.transactions@.len(),
                tv == txs_view(self.transactions@),
                out@ == start + json_tx_items(tv.take(i as int)),
            decreases self.transactions@.len() - i,
        {
            if i > 0 {
                out.push(44u8);
            }
            let t = self.transactions[i].to_json();
            push_raw(&mut out, t.as_slice());
            i = i + 1;
            proof {
                assert(tv.take(i as int).drop_last() =~= tv.take(i - 1));
                if i == 1 {
                    assert(tv.take(0) =~= Seq::<TxModel>::empty());
                }
                assert(out@ =~= start + json_tx_items(tv.take(i as int)));
            }
        }
        assert(tv.take(tv.len() as int) =~= tv);
        push_str(&mut out, "]}");
        assert(out@ =~= json_block(self@));
        out
    }

    /// The size of the block's JSON text in bytes.
    pub fn size_bytes(&self) -> (r: usize)
        ensures
            r == json_block(self@).len(),
    {
        self.to_json().len()
    }
}

/// Appends raw bytes.
pub fn push_raw(out: &mut Vec<u8>, data: &[u8])
    ensures
        final(out)@ == old(out)@ + data@,
{
    let ghost start = out@;
    let mut i: usize = 0;
    while i < data.len()
        invariant
            i <= data@.len(),
            out@ == start + data@.take(i as int),
        decreases data@.len() - i,
    {
        out.push(data[i]);
        i = i + 1;
        assert(out@ =~= start + data@.take(i as int));
    }
    assert(data@.take(data@.len() as int) =~= data@);
}

} // verus!
