//! Agreement of a group of nodes on a finalized head: counting the
//! finalizations each node reports until every node reaches a target
//! height, then checking that all of them finalized the same block, and
//! that they agree on values (state roots, seeds) read at that block.

use crate::bytes::{eq_bytes32, lemma_bytes32_eq};
use vstd::prelude::*;

verus! {

/// Why the nodes did not agree.
#[derive(Debug, Clone, PartialEq, Eq)]
pub enum AgreementError {
    /// Not every node reached the target in time; the lowest count.
    FinalizationTimeout {
        /// Target block count.
        expected: u64,
        /// Lowest count any node reached.
        actual: u64,
    },
    /// A node reached no finalization at the target height.
    MissingFinalization {
        /// The first node's head.
        head: [u8; 32],
        /// The node without one.
        node: usize,
    },
    /// A node finalized a different block at the target height.
    DifferentHead {
        /// The first node's head.
        head: [u8; 32],
        /// The node that differs.
        node: usize,
    },
    /// No node reported a head at all.
    NoFinalization,
}

/// The finalizations reported by a group of nodes, counted per node until
/// each reaches the target; the block a node finalized at the target
/// height is recorded.
pub struct FinalizationTracker {
    target: u64,
    counts: Vec<u64>,
    heads: Vec<Option<[u8; 32]>>,
}

/// The smallest count, zero for no nodes.
pub open spec fn min_count(counts: Seq<u64>) -> u64
    decreases counts.len(),
{
    if counts.len() == 0 {
        0
    } else if counts.len() == 1 {
        counts[0]
    } else {
        let m = min_count(counts.drop_last());
        if counts.last() < m {
            counts.last()
        } else {
            m
        }
    }
}

/// The verdict on the recorded heads: the first node's head when every
/// node recorded that same head, otherwise the first node found missing or
/// different.
pub open spec fn heads_verdict(heads: Seq<Option<[u8; 32]>>) -> Result<[u8; 32], AgreementError> {
    if heads.len() == 0 || heads[0] is None {
        Err(AgreementError::NoFinalization)
    } else {
        let head = heads[0]->Some_0;
        if exists|i: int| 0 <= i < heads.len() && heads[i] != Some(head) {
            let i = choose|i: int|
                0 <= i < heads.len() && heads[i] != Some(head) && forall|j: int| 0 <= j < i ==> heads[j] == Some(head);
            if heads[i] is None {
                Err(AgreementError::MissingFinalization { head, node: i as usize })
            } else {
                Err(AgreementError::DifferentHead { head, node: i as usize })
            }
        } else {
            Ok(head)
        }
    }
}

impl FinalizationTracker {
    /// The target block count.
    pub closed spec fn spec_target(&self) -> u64 {
        self.target
    }

    /// The finalizations counted per node.
    pub closed spec fn spec_counts(&self) -> Seq<u64> {
        self.counts@
    }

    /// The head each node finalized at the target height, if reached.
    pub closed spec fn spec_heads(&self) -> Seq<Option<[u8; 32]>> {
        self.heads@
    }

    /// One count and one head per node; a node's head is recorded exactly
    /// when its count reached a target of at least one, and no count passes
    /// such a target. With a target of zero no node ever reaches it.
    pub closed spec fn wf(&self) -> bool {
        &&& self.counts@.len() == self.heads@.len()
        &&& forall|i: int|
            0 <= i < self.counts@.len() ==> (self.target >= 1 ==> #[trigger] self.counts@[i] <= self.target) && (
            self.heads@[i] is Some <==> (self.target >= 1 && self.counts@[i] == self.target))
    }

    /// A tracker for `nodes` nodes that must each finalize `target` blocks.
    /// A target of zero is never reached: a wait on it ends in its timeout.
    pub fn new(nodes: usize, target: u64) -> (t: Self)
        ensures
            t.wf(),
            t.spec_target() == target,
            t.spec_counts() == Seq::new(nodes as nat, |i: int| 0u64),
            t.spec_heads() == Seq::new(nodes as nat, |i: int| None::<[u8; 32]>),
    {
        let mut counts: Vec<u64> = Vec::new();
        let mut heads: Vec<Option<[u8; 32]>> = Vec::new();
        let mut i: usize = 0;
        while i < nodes
            invariant
                0 <= i <= nodes,
                counts@ == Seq::new(i as nat, |k: int| 0u64),
                heads@ == Seq::new(i as nat, |k: int| None::<[u8; 32]>),
            decreases nodes - i,
        {
            counts.push(0);
            heads.push(None);
            proof {
                assert(counts@ =~= Seq::new((i + 1) as nat, |k: int| 0u64));
                assert(heads@ =~= Seq::new((i + 1) as nat, |k: int| None::<[u8; 32]>));
            }
            i = i + 1;
        }
        FinalizationTracker { target, counts, heads }
    }

    /// Records that `node` finalized `digest`. Reports from unknown nodes
    /// and from nodes that already reached the target are ignored; the
    /// report that brings a node to the target records its head. A count
    /// stops at `u64::MAX` (only a target of zero lets it get there).
    pub fn observe(&mut self, node: u64, digest: [u8; 32])
        requires
            old(self).wf(),
        ensures
            final(self).wf(),
            final(self).spec_target() == old(self).spec_target(),
            old(self).spec_target() == 0 ==> final(self).spec_heads() == old(self).spec_heads(),
            ({
                let n = node as int;
                if n >= old(self).spec_counts().len() || old(self).spec_heads()[n] is Some
                    || old(self).spec_counts()[n] == u64::MAX {
                    final(self).spec_counts() == old(self).spec_counts() && final(self).spec_heads()
                        == old(self).spec_heads()
                } else {
                    let c = (old(self).spec_counts()[n] + 1) as u64;
                    &&& final(self).spec_counts() == old(self).spec_counts().update(n, c)
                    &&& final(self).spec_heads() == if c == old(self).spec_target() {
                        old(self).spec_heads().update(n, Some(digest))
                    } else {
                        old(self).spec_heads()
                    }
                }
            }),
    {
        if node >= self.counts.len() as u64 {
            return;
        }
        let idx = node as usize;
        if self.heads[idx].is_some() {
            return;
        }
        if self.counts[idx] == u64::MAX {
            return;
        }
        let c = self.counts[idx] + 1;
        self.counts.set(idx, c);
        if c == self.target {
            self.heads.set(idx, Some(digest));
        }
        proof {
            assert forall|i: int| 0 <= i < self.counts@.len() implies (self.target >= 1 ==> #[trigger] self.counts@[i] <= self.target) && (
            self.heads@[i] is Some <==> (self.target >= 1 && self.counts@[i] == self.target)) by {
                if i != idx {
                    assert(self.counts@[i] == old(self).counts@[i]);
                    assert(self.heads@[i] == old(self).heads@[i]);
                }
            }
        }
    }

    /// Whether every node reached the target.
    pub fn all_reached(&self) -> (r: bool)
        ensures
            r == forall|i: int| 0 <= i < self.spec_heads().len() ==> (#[trigger] self.spec_heads()[i]) is Some,
    {
        let mut i: usize = 0;
        while i < self.heads.len()
            invariant
                0 <= i <= self.heads.len(),
                forall|k: int| 0 <= k < i ==> (#[trigger] self.heads@[k]) is Some,
            decreases self.heads.len() - i,
        {
            if self.heads[i].is_none() {
                return false;
            }
            i = i + 1;
        }
        true
    }

    /// The error for a wait that timed out: the target and the lowest count.
    pub fn timeout_error(&self) -> (e: AgreementError)
        ensures
            e == (AgreementError::FinalizationTimeout {
                expected: self.spec_target(),
                actual: min_count(self.spec_counts()),
            }),
    {
        let mut m: u64 = 0;
        let mut i: usize = 0;
        while i < self.counts.len()
            invariant
                0 <= i <= self.counts.len(),
                m == min_count(self.counts@.take(i as int)),
            decreases self.counts.len() - i,
        {
            proof {
                assert(self.counts@.take(i + 1).drop_last() =~= self.counts@.take(i as int));
            }
            if i == 0 || self.counts[i] < m {
                m = self.counts[i];
            }
            i = i + 1;
        }
        proof {
            assert(self.counts@.take(self.counts.len() as int) =~= self.counts@);
        }
        AgreementError::FinalizationTimeout { expected: self.target, actual: m }
    }

    /// The agreed head, or the first node that is missing a head or
    /// finalized a different one.
    pub fn verdict(&self) -> (r: Result<[u8; 32], AgreementError>)
        ensures
            r == heads_verdict(self.spec_heads()),
    {
        if self.heads.len() == 0 {
            return Err(AgreementError::NoFinalization);
        }
        let head = match self.heads[0] {
            Some(h) => h,
            None => {
                return Err(AgreementError::NoFinalization);
            },
        };
        let mut i: usize = 0;
        while i < self.heads.len()
            invariant
                0 <= i <= self.heads.len(),
                self.heads@.len() > 0,
                self.heads@[0] == Some(head),
                forall|j: int| 0 <= j < i ==> self.heads@[j] == Some(head),
            decreases self.heads.len() - i,
        {
            match self.heads[i] {
                None => {
                    proof {
                        self.lemma_first_mismatch(head, i as int);
                    }
                    return Err(AgreementError::MissingFinalization { head, node: i });
                },
                Some(d) => {
                    if !eq_bytes32(&d, &head) {
                        proof {
                            self.lemma_first_mismatch(head, i as int);
                        }
                        return Err(AgreementError::DifferentHead { head, node: i });
                    }
                    proof {
                        lemma_bytes32_eq(d, head);
                    }
                },
            }
            i = i + 1;
        }
        Ok(head)
    }

    proof fn lemma_first_mismatch(&self, head: [u8; 32], i: int)
        requires
            0 <= i < self.heads@.len(),
            self.heads@[0] == Some(head),
            self.heads@[i] != Some(head),
            forall|j: int| 0 <= j < i ==> self.heads@[j] == Some(head),
        ensures
            (choose|k: int|
                0 <= k < self.heads@.len() && self.heads@[k] != Some(head) && forall|j: int|
                    0 <= j < k ==> self.heads@[j] == Some(head)) == i,
    {
        let k = choose|k: int|
            0 <= k < self.heads@.len() && self.heads@[k] != Some(head) && forall|j: int|
                0 <= j < k ==> self.heads@[j] == Some(head);
        assert(0 <= k < self.heads@.len() && self.heads@[k] != Some(head) && forall|j: int|
            0 <= j < k ==> self.heads@[j] == Some(head));
        if k < i {
            assert(self.heads@[k] == Some(head));
        }
        if k > i {
            assert(self.heads@[i] == Some(head));
        }
    }

    /// The finalizations counted per node.
    pub fn counts(&self) -> (r: Vec<u64>)
        ensures
            r@ == self.spec_counts(),
    {
        self.counts.clone()
    }
}

/// Folds one node's reading into the readings agreed so far: the first
/// reading is taken, an equal one keeps it, a different one is reported
/// with the earlier reading.
pub fn agree(prev: Option<[u8; 32]>, next: [u8; 32]) -> (r: Result<[u8; 32], ([u8; 32], [u8; 32])>)
    ensures
        match prev {
            None => r == Ok::<[u8; 32], ([u8; 32], [u8; 32])>(next),
            Some(p) => if p == next {
                r == Ok::<[u8; 32], ([u8; 32], [u8; 32])>(p)
            } else {
                r == Err::<[u8; 32], ([u8; 32], [u8; 32])>((p, next))
            },
        },
{
    match prev {
        None => Ok(next),
        Some(p) => {
            if eq_bytes32(&p, &next) {
                proof {
                    lemma_bytes32_eq(p, next);
                }
                Ok(p)
            } else {
                Err((p, next))
            }
        },
    }
}

} // verus!
