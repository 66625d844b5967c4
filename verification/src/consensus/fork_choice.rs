//! Fork choice: among competing chains the node follows the one with the
//! greatest total work, not the longest one.
use crate::primitives::block::{header_hash_spec, BlockHeader};
use crate::primitives::hash;
use vstd::prelude::*;

verus! {

/// A known block with the total work of the chain that ends in it.
#[derive(Debug, Clone, Copy)]
pub struct ChainNode {
    /// The block's header.
    pub header: BlockHeader,
    /// Cumulative work from genesis to this block.
    pub total_work: u128,
}

/// Fork-choice engine: every known header and the best tip.
pub struct ForkChoice {
    nodes: Vec<(hash::Hash, ChainNode)>,
    best_tip: Option<hash::Hash>,
}

/// The map from block hash to node that a list of pairs stands for.
pub open spec fn map_of(v: Seq<(hash::Hash, ChainNode)>) -> Map<hash::Hash, ChainNode> {
    Map::new(
        |k: hash::Hash| exists|i: int| 0 <= i < v.len() && v[i].0 == k,
        |k: hash::Hash| v[choose|i: int| 0 <= i < v.len() && v[i].0 == k].1,
    )
}

/// No hash occurs twice.
pub open spec fn keys_unique(v: Seq<(hash::Hash, ChainNode)>) -> bool {
    forall|i: int, j: int| 0 <= i < v.len() && 0 <= j < v.len() && i != j ==> v[i].0 != v[j].0
}

/// The hash under which a header is stored.
pub open spec fn header_key(h: BlockHeader) -> hash::Hash {
    choose|k: hash::Hash| k@ == header_hash_spec(h)
}

/// The work of one block: 2 to the power of its difficulty (capped at 127).
pub open spec fn block_work(bits: u32) -> u128 {
    1u128 << (if bits < 127 {
        bits
    } else {
        127u32
    })
}

/// The total work of the parent: that of the node stored under the
/// previous hash, for a block above genesis whose parent is known; else 0.
pub open spec fn parent_work(m: Map<hash::Hash, ChainNode>, h: BlockHeader) -> u128 {
    if h.height.0 >= 1 && m.contains_key(h.previous_hash) {
        m[h.previous_hash].total_work
    } else {
        0
    }
}

/// The total work of a new block: parent's plus its own, saturating.
pub open spec fn total_work_spec(m: Map<hash::Hash, ChainNode>, h: BlockHeader) -> u128 {
    let s = parent_work(m, h) + block_work(h.bits);
    if s > u128::MAX {
        u128::MAX
    } else {
        s as u128
    }
}

/// The tip is the heaviest node, and no node's recorded work exceeds what
/// its header's chain gives now.
pub open spec fn heaviest_tip(m: Map<hash::Hash, ChainNode>, tip: Option<hash::Hash>) -> bool {
    &&& (tip is None ==> m.dom().is_empty())
    &&& forall|t: hash::Hash|
        tip == Some(t) ==> m.contains_key(t) && forall|k: hash::Hash| #[trigger]
            m.contains_key(k) ==> m[k].total_work <= m[t].total_work
    &&& forall|k: hash::Hash| #[trigger]
        m.contains_key(k) ==> m[k].total_work <= total_work_spec(m, m[k].header)
}

/// Adding `h` does not replace a stored node whose header has another
/// parent, height or difficulty under the same hash (a hash collision).
pub open spec fn no_collision(m: Map<hash::Hash, ChainNode>, h: BlockHeader) -> bool {
    m.contains_key(header_key(h)) ==> {
        let o = m[header_key(h)].header;
        &&& o.previous_hash == h.previous_hash
        &&& o.height == h.height
        &&& o.bits == h.bits
    }
}

/// The node stored one step below `h` on the way to genesis, if any.
pub open spec fn step_back(m: Map<hash::Hash, ChainNode>, h: hash::Hash) -> Option<hash::Hash> {
    if m.contains_key(h) && m[h].header.height.0 > 0 {
        Some(m[h].header.previous_hash)
    } else {
        None
    }
}

/// Following parents from `h` stops within `n` steps.
pub open spec fn stops_within(m: Map<hash::Hash, ChainNode>, h: hash::Hash, n: nat) -> bool
    decreases n,
{
    match step_back(m, h) {
        None => true,
        Some(p) => n > 0 && stops_within(m, p, (n - 1) as nat),
    }
}

/// The hashes from `h` back to where following parents stops, `h` first,
/// looking at most `n` steps back.
pub open spec fn back_chain(m: Map<hash::Hash, ChainNode>, h: hash::Hash, n: nat) -> Seq<hash::Hash>
    decreases n,
{
    match step_back(m, h) {
        Some(p) => if n > 0 {
            seq![h] + back_chain(m, p, (n - 1) as nat)
        } else {
            seq![h]
        },
        None => seq![h],
    }
}

/// Hashes with the same bytes are the same hash.
pub proof fn lemma_hash_eq(a: hash::Hash, b: hash::Hash)
    requires
        a@ == b@,
    ensures
        a == b,
{
    assert(a.0 =~= b.0);
}

proof fn lemma_map_of_index(v: Seq<(hash::Hash, ChainNode)>, i: int)
    requires
        keys_unique(v),
        0 <= i < v.len(),
    ensures
        map_of(v).contains_key(v[i].0),
        map_of(v)[v[i].0] == v[i].1,
{
    let k = v[i].0;
    assert(exists|j: int| 0 <= j < v.len() && v[j].0 == k);
    let j = choose|j: int| 0 <= j < v.len() && v[j].0 == k;
    assert(j == i);
}

proof fn lemma_map_of_push(v: Seq<(hash::Hash, ChainNode)>, k: hash::Hash, n: ChainNode)
    requires
        keys_unique(v),
        !map_of(v).contains_key(k),
    ensures
        keys_unique(v.push((k, n))),
        map_of(v.push((k, n))) == map_of(v).insert(k, n),
{
    let w = v.push((k, n));
    assert forall|i: int, j: int| 0 <= i < w.len() && 0 <= j < w.len() && i != j implies w[i].0
        != w[j].0 by {
        if i < v.len() && j < v.len() {
        } else if i < v.len() {
            assert(map_of(v).contains_key(v[i].0));
        } else {
            assert(map_of(v).contains_key(v[j].0));
        }
    }
    assert forall|x: hash::Hash| #[trigger] map_of(w).contains_key(x) implies map_of(v).insert(
        k,
        n,
    ).contains_key(x) && map_of(w)[x] == map_of(v).insert(k, n)[x] by {
        let i = choose|i: int| 0 <= i < w.len() && w[i].0 == x;
        lemma_map_of_index(w, i);
        if i < v.len() {
            lemma_map_of_index(v, i);
        }
    }
    assert forall|x: hash::Hash| #[trigger] map_of(v).insert(k, n).contains_key(x) implies map_of(
        w,
    ).contains_key(x) by {
        if x == k {
            lemma_map_of_index(w, v.len() as int);
        } else {
            let i = choose|i: int| 0 <= i < v.len() && v[i].0 == x;
            lemma_map_of_index(w, i);
        }
    }
    assert(map_of(w) =~= map_of(v).insert(k, n));
}

proof fn lemma_map_of_update(v: Seq<(hash::Hash, ChainNode)>, i: int, n: ChainNode)
    requires
        keys_unique(v),
        0 <= i < v.len(),
    ensures
        keys_unique(v.update(i, (v[i].0, n))),
        map_of(v.update(i, (v[i].0, n))) == map_of(v).insert(v[i].0, n),
{
    let k = v[i].0;
    let w = v.update(i, (k, n));
    assert(keys_unique(w));
    assert forall|x: hash::Hash| #[trigger] map_of(w).contains_key(x) implies map_of(v).insert(
        k,
        n,
    ).contains_key(x) && map_of(w)[x] == map_of(v).insert(k, n)[x] by {
        let j = choose|j: int| 0 <= j < w.len() && w[j].0 == x;
        lemma_map_of_index(w, j);
        lemma_map_of_index(v, j);
    }
    assert forall|x: hash::Hash| #[trigger] map_of(v).insert(k, n).contains_key(x) implies map_of(
        w,
    ).contains_key(x) by {
        if x == k {
            lemma_map_of_index(w, i);
        } else {
            let j = choose|j: int| 0 <= j < v.len() && v[j].0 == x;
            lemma_map_of_index(w, j);
        }
    }
    assert(map_of(w) =~= map_of(v).insert(k, n));
}

/// Following parents from `h` stops within `n` steps, so it does within
/// any larger number, and the chain found is the same.
pub proof fn lemma_back_chain_stable(m: Map<hash::Hash, ChainNode>, h: hash::Hash, n: nat, n2: nat)
    requires
        stops_within(m, h, n),
        n <= n2,
    ensures
        stops_within(m, h, n2),
        back_chain(m, h, n) == back_chain(m, h, n2),
    decreases n,
{
    match step_back(m, h) {
        Some(p) => {
            lemma_back_chain_stable(m, p, (n - 1) as nat, (n2 - 1) as nat);
        },
        None => {},
    }
}

/// The work of one block is 2 to the power of its difficulty, capped at
/// 2^127: 1 at difficulty 0, doubling with each bit up to 127, and the same
/// from 127 on.
pub proof fn lemma_block_work_doubles(bits: u32)
    ensures
        block_work(0) == 1,
        block_work(bits) >= 1,
        bits < 127 ==> block_work((bits + 1) as u32) == 2 * block_work(bits),
        bits >= 127 ==> block_work(bits) == block_work(127),
{
    assert((1u128 << 0u32) == 1) by (bit_vector);
    let b: u32 = if bits < 127 {
        bits
    } else {
        127u32
    };
    assert((1u128 << b) >= 1) by (bit_vector)
        requires
            b <= 127,
    ;
    if bits < 127 {
        let b1 = (bits + 1) as u32;
        assert((1u128 << b1) == 2 * (1u128 << bits)) by (bit_vector)
            requires
                bits < 127,
                b1 == bits + 1,
        ;
    }
}

/// Work accumulates along a chain: a block above genesis whose parent is
/// known weighs its parent's total work plus its own block work
/// (saturating at `u128::MAX`), so short of that cap it weighs strictly
/// more than its parent, whatever its difficulty.
pub proof fn lemma_child_outweighs_parent(m: Map<hash::Hash, ChainNode>, h: BlockHeader)
    requires
        h.height.0 >= 1,
        m.contains_key(h.previous_hash),
    ensures
        m[h.previous_hash].total_work + block_work(h.bits) <= u128::MAX ==> total_work_spec(m, h)
            == m[h.previous_hash].total_work + block_work(h.bits),
        total_work_spec(m, h) >= m[h.previous_hash].total_work,
        m[h.previous_hash].total_work < u128::MAX ==> total_work_spec(m, h)
            > m[h.previous_hash].total_work,
{
    lemma_block_work_doubles(h.bits);
}

/// A block that extends the best tip becomes the new best tip, whatever
/// its difficulty: once stored, it outweighs the tip (where the tip's work
/// is below the cap and the block is not the tip itself), which is what
/// `add_block` compares.
pub proof fn lemma_extending_tip_wins(m: Map<hash::Hash, ChainNode>, tip: hash::Hash, header: BlockHeader)
    requires
        m.contains_key(tip),
        header.height.0 >= 1,
        header.previous_hash == tip,
        m[tip].total_work < u128::MAX,
        header_key(header) != tip,
    ensures
        ({
            let k = header_key(header);
            let tw = total_work_spec(m, header);
            tw > m.insert(k, ChainNode { header, total_work: tw })[tip].total_work
        }),
{
    lemma_child_outweighs_parent(m, header);
}

/// Every known block above genesis whose parent is known stands higher
/// than its parent, as in any chain of valid blocks.
pub open spec fn heights_descend(m: Map<hash::Hash, ChainNode>) -> bool {
    forall|k: hash::Hash| #[trigger]
        m.contains_key(k) && m[k].header.height.0 > 0 && m.contains_key(m[k].header.previous_hash)
            ==> m[m[k].header.previous_hash].header.height.0 < m[k].header.height.0
}

/// The height stored under `h`, or 0 where nothing is.
pub open spec fn known_height(m: Map<hash::Hash, ChainNode>, h: hash::Hash) -> nat {
    if m.contains_key(h) {
        m[h].header.height.0 as nat
    } else {
        0
    }
}

/// Where heights descend along parents, following parents from any hash
/// stops within as many steps as its height: the parents form no cycle.
pub proof fn lemma_descending_heights_stop(m: Map<hash::Hash, ChainNode>, h: hash::Hash)
    requires
        heights_descend(m),
    ensures
        stops_within(m, h, known_height(m, h)),
    decreases known_height(m, h),
{
    match step_back(m, h) {
        None => {},
        Some(p) => {
            let n = known_height(m, h);
            if m.contains_key(p) {
                assert(m.contains_key(h) && m[h].header.height.0 > 0 && m.contains_key(
                    m[h].header.previous_hash,
                ));
                lemma_descending_heights_stop(m, p);
                lemma_back_chain_stable(m, p, known_height(m, p), (n - 1) as nat);
            }
        },
    }
}

/// Adding a header keeps heights descending where it stands higher than
/// its known parent, lower than its known children, and replaces no
/// stored header of another parent or height.
pub proof fn lemma_add_keeps_heights_descending(
    m: Map<hash::Hash, ChainNode>,
    header: BlockHeader,
    total_work: u128,
)
    requires
        heights_descend(m),
        no_collision(m, header),
        ({
            let m1 = m.insert(header_key(header), ChainNode { header, total_work });
            header.height.0 > 0 && m1.contains_key(header.previous_hash)
                ==> m1[header.previous_hash].header.height.0 < header.height.0
        }),
        forall|x: hash::Hash| #[trigger]
            m.contains_key(x) && m[x].header.height.0 > 0 && m[x].header.previous_hash == header_key(
                header,
            ) ==> header.height.0 < m[x].header.height.0,
    ensures
        heights_descend(m.insert(header_key(header), ChainNode { header, total_work })),
{
    let k = header_key(header);
    let m1 = m.insert(k, ChainNode { header, total_work });
    assert forall|x: hash::Hash| #[trigger]
        m1.contains_key(x) && m1[x].header.height.0 > 0 && m1.contains_key(m1[x].header.previous_hash)
            implies m1[m1[x].header.previous_hash].header.height.0 < m1[x].header.height.0 by {
        if x != k {
            let p = m[x].header.previous_hash;
            if p != k {
                assert(m.contains_key(p));
            } else if m.contains_key(k) {
                assert(m[x].header.height.0 > 0 && m.contains_key(m[x].header.previous_hash));
            }
        }
    }
}

impl View for ForkChoice {
    /// The known nodes by hash, and the best tip.
    type V = (Map<hash::Hash, ChainNode>, Option<hash::Hash>);

    closed spec fn view(&self) -> Self::V {
        (map_of(self.nodes@), self.best_tip)
    }
}

impl ForkChoice {
    /// The engine's invariant: hashes are unique and the tip is known.
    pub closed spec fn wf(&self) -> bool {
        &&& keys_unique(self.nodes@)
        &&& (self.best_tip matches Some(t) ==> map_of(self.nodes@).contains_key(t))
    }

    /// An empty engine with no tip.
    pub fn new() -> (r: Self)
        ensures
            r.wf(),
            r@.0 == Map::<hash::Hash, ChainNode>::empty(),
            r@.1 is None,
            heaviest_tip(r@.0, r@.1),
    {
        let r = ForkChoice { nodes: Vec::new(), best_tip: None };
        assert(map_of(r.nodes@) =~= Map::<hash::Hash, ChainNode>::empty());
        r
    }

    /// The index of the node stored under `h`.
    fn find(&self, h: &hash::Hash) -> (r: Option<usize>)
        requires
            self.wf(),
        ensures
            match r {
                Some(i) => i < self.nodes@.len() && self.nodes@[i as int].0 == *h,
                None => !map_of(self.nodes@).contains_key(*h),
            },
    {
        let mut i: usize = 0;
        while i < self.nodes.len()
            invariant
                i <= self.nodes@.len(),
                forall|j: int| 0 <= j < i ==> self.nodes@[j].0 != *h,
            decreases self.nodes@.len() - i,
        {
            if self.nodes[i].0.same_as(h) {
                return Some(i);
            }
            i = i + 1;
        }
        None
    }

    /// Adds a candidate block. Its total work is its parent's (where the
    /// block is above genesis and its parent is known; else 0) plus
    /// 2^min(bits, 127), saturating. It is stored under its hash, replacing
    /// any node there, and becomes the best tip where there was none or its
    /// total work exceeds the tip's (as stored after this insertion).
    /// Returns whether it became the best tip.
    pub fn add_block(&mut self, header: BlockHeader) -> (r: bool)
        requires
            old(self).wf(),
        ensures
            final(self).wf(),
            ({
                let k = header_key(header);
                let tw = total_work_spec(old(self)@.0, header);
                let m = old(self)@.0.insert(k, ChainNode { header, total_work: tw });
                &&& final(self)@.0 == m
                &&& r == (match old(self)@.1 {
                    None => true,
                    Some(t) => tw > m[t].total_work,
                })
                &&& final(self)@.1 == (if r {
                    Some(k)
                } else {
                    old(self)@.1
                })
            }),
            heaviest_tip(old(self)@.0, old(self)@.1) && no_collision(old(self)@.0, header)
                ==> heaviest_tip(final(self)@.0, final(self)@.1),
    {
        let ghost m0 = map_of(self.nodes@);
        let ghost tip0 = self.best_tip;
        let hash = header.compute_hash();
        proof {
            let k = header_key(header);
            assert(exists|x: hash::Hash| x@ == header_hash_spec(header));
            lemma_hash_eq(hash, k);
        }
        let parent_work: u128 = if header.height.0 >= 1 {
            match self.find(&header.previous_hash) {
                Some(i) => {
                    proof {
                        lemma_map_of_index(self.nodes@, i as int);
                    }
                    self.nodes[i].1.total_work
                },
                None => 0,
            }
        } else {
            0
        };
        let shift: u32 = if header.bits < 127 {
            header.bits
        } else {
            127
        };
        let block_work: u128 = 1u128 << shift;
        let total_work = parent_work.saturating_add(block_work);
        assert(total_work == total_work_spec(m0, header));
        let node = ChainNode { header, total_work };
        match self.find(&hash) {
            Some(i) => {
                proof {
                    lemma_map_of_update(self.nodes@, i as int, node);
                }
                self.nodes.set(i, (hash, node));
            },
            None => {
                proof {
                    lemma_map_of_push(self.nodes@, hash, node);
                }
                self.nodes.push((hash, node));
            },
        }
        let ghost m1 = map_of(self.nodes@);
        assert(m1 == m0.insert(hash, node));
        let is_new_best = match self.best_tip {
            None => true,
            Some(t) => {
                match self.find(&t) {
                    Some(j) => {
                        proof {
                            lemma_map_of_index(self.nodes@, j as int);
                        }
                        total_work > self.nodes[j].1.total_work
                    },
                    None => false,
                }
            },
        };
        if is_new_best {
            self.best_tip = Some(hash);
        }
        proof {
            if heaviest_tip(m0, tip0) && no_collision(m0, header) {
                self.lemma_keeps_heaviest(m0, tip0, header, hash, node);
            }
        }
        is_new_best
    }

    proof fn lemma_keeps_heaviest(
        &self,
        m0: Map<hash::Hash, ChainNode>,
        tip0: Option<hash::Hash>,
        header: BlockHeader,
        k: hash::Hash,
        node: ChainNode,
    )
        requires
            heaviest_tip(m0, tip0),
            no_collision(m0, header),
            k == header_key(header),
            node == (ChainNode { header, total_work: total_work_spec(m0, header) }),
            map_of(self.nodes@) == m0.insert(k, node),
            self.best_tip == (if (match tip0 {
                None => true,
                Some(t) => node.total_work > m0.insert(k, node)[t].total_work,
            }) {
                Some(k)
            } else {
                tip0
            }),
        ensures
            heaviest_tip(map_of(self.nodes@), self.best_tip),
    {
        let m1 = m0.insert(k, node);
        // Recorded work never decreases, so recomputed work never does.
        if m0.contains_key(k) {
            let o = m0[k];
            assert(parent_work(m0, o.header) == parent_work(m0, header));
            assert(o.total_work <= node.total_work);
        }
        assert forall|x: hash::Hash| #[trigger] m0.contains_key(x) implies m0[x].total_work
            <= m1[x].total_work by {
            if x == k {
                let o = m0[k];
                assert(parent_work(m0, o.header) == parent_work(m0, header));
            }
        }
        assert forall|h: BlockHeader| total_work_spec(m0, h) <= #[trigger] total_work_spec(m1, h) by {
            if h.height.0 >= 1 && m0.contains_key(h.previous_hash) {
                assert(m1.contains_key(h.previous_hash));
                assert(m0[h.previous_hash].total_work <= m1[h.previous_hash].total_work);
            }
        }
        assert forall|x: hash::Hash| #[trigger] m1.contains_key(x) implies m1[x].total_work
            <= total_work_spec(m1, m1[x].header) by {
            if x == k {
                assert(total_work_spec(m0, header) <= total_work_spec(m1, header));
            } else {
                assert(m0[x].total_work <= total_work_spec(m0, m0[x].header));
                assert(total_work_spec(m0, m0[x].header) <= total_work_spec(m1, m0[x].header));
            }
        }
        match tip0 {
            None => {
                assert forall|x: hash::Hash| #[trigger] m1.contains_key(x) implies x == k by {
                    if x != k {
                        assert(m0.dom().contains(x));
                    }
                }
            },
            Some(t) => {
                assert(m0.contains_key(t));
                if t == k {
                    assert(m0[k].total_work <= node.total_work);
                    assert forall|x: hash::Hash| #[trigger]
                        m1.contains_key(x) implies m1[x].total_work <= m1[k].total_work by {
                        if x != k {
                            assert(m0[x].total_work <= m0[t].total_work);
                        }
                    }
                } else if node.total_work > m1[t].total_work {
                    assert(m1[t].total_work == m0[t].total_work);
                    assert forall|x: hash::Hash| #[trigger]
                        m1.contains_key(x) implies m1[x].total_work <= m1[k].total_work by {
                        if x != k {
                            assert(m0[x].total_work <= m0[t].total_work);
                        }
                    }
                } else {
                    assert forall|x: hash::Hash| #[trigger]
                        m1.contains_key(x) implies m1[x].total_work <= m1[t].total_work by {
                        if x != k {
                            assert(m0[x].total_work <= m0[t].total_work);
                            assert(m0[t].total_work <= m1[t].total_work);
                        }
                    }
                }
            },
        }
    }

    /// Where heights descend along parents, `ancestry` can be asked of any
    /// hash.
    pub proof fn lemma_ancestry_defined(&self, tip: hash::Hash)
        requires
            heights_descend(self@.0),
        ensures
            exists|n: nat| stops_within(self@.0, tip, n),
    {
        lemma_descending_heights_stop(self@.0, tip);
    }

    /// The hash of the best tip.
    pub fn best_tip(&self) -> (r: Option<hash::Hash>)
        ensures
            r == self@.1,
    {
        self.best_tip
    }

    /// The hashes from genesis (or the first block whose parent is
    /// unknown) up to `tip`: parents are followed from `tip` while the node
    /// is known and above height 0. Where the parents formed a cycle the
    /// walk would never end, so they must stop within some number of steps.
    pub fn ancestry(&self, tip: hash::Hash) -> (r: Vec<hash::Hash>)
        requires
            self.wf(),
            exists|n: nat| stops_within(self@.0, tip, n),
        ensures
            forall|n: nat| #[trigger]
                stops_within(self@.0, tip, n) ==> r@ == back_chain(self@.0, tip, n).reverse(),
    {
        let ghost m = map_of(self.nodes@);
        let ghost n0: nat = choose|n: nat| stops_within(m, tip, n);
        let mut chain: Vec<hash::Hash> = Vec::new();
        let mut current = tip;
        let ghost mut fuel: nat = n0;
        loop
            invariant_except_break
                stops_within(m, current, fuel),
                chain@ + back_chain(m, current, fuel) == back_chain(m, tip, n0),
            invariant
                self.wf(),
                m == map_of(self.nodes@),
            ensures
                chain@ == back_chain(m, tip, n0),
            decreases fuel,
        {
            chain.push(current);
            match self.find(&current) {
                Some(i) => {
                    proof {
                        lemma_map_of_index(self.nodes@, i as int);
                    }
                    if self.nodes[i].1.header.height.0 > 0 {
                        proof {
                            assert(step_back(m, current) == Some(self.nodes@[i as int].1.header.previous_hash));
                            assert(chain@ + back_chain(m, self.nodes@[i as int].1.header.previous_hash, (fuel - 1) as nat)
                                =~= back_chain(m, tip, n0));
                            fuel = (fuel - 1) as nat;
                        }
                        current = self.nodes[i].1.header.previous_hash;
                    } else {
                        assert(chain@ =~= back_chain(m, tip, n0));
                        break ;
                    }
                },
                None => {
                    assert(chain@ =~= back_chain(m, tip, n0));
                    break ;
                },
            }
        }
        let mut r: Vec<hash::Hash> = Vec::new();
        let mut i: usize = chain.len();
        while i > 0
            invariant
                i <= chain@.len(),
                r@ == chain@.subrange(i as int, chain@.len() as int).reverse(),
            decreases i,
        {
            i = i - 1;
            r.push(chain[i]);
            assert(r@ =~= chain@.subrange(i as int, chain@.len() as int).reverse());
        }
        assert(chain@.subrange(0, chain@.len() as int) =~= chain@);
        proof {
            assert forall|n: nat| #[trigger] stops_within(m, tip, n) implies r@ == back_chain(
                m,
                tip,
                n,
            ).reverse() by {
                if n <= n0 {
                    lemma_back_chain_stable(m, tip, n, n0);
                } else {
                    lemma_back_chain_stable(m, tip, n0, n);
                }
            }
        }
        r
    }
}

impl Default for ForkChoice {
    fn default() -> (r: Self)
        ensures
            r.wf(),
            r@.0 == Map::<hash::Hash, ChainNode>::empty(),
            r@.1 is None,
    {
        Self::new()
    }
}

} // verus!
