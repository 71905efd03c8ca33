//! The mathematical model of a bucket.
//!
//! Every contract of the executable code in [`crate::bucket`] is stated over
//! [`BucketModel`], the view of a bucket: a sequence of members, the optional
//! boundary index separating the disconnected prefix from the connected
//! suffix, the optional pending candidate, and the pending timeout. The
//! transitions of the bucket are defined here as total spec functions, so
//! that laws about sequences of operations can be stated and proved in
//! [`crate::laws`].

use vstd::prelude::*;

use crate::bucket::AppliedPending;
use crate::bucket::InsertResult;
use crate::bucket::Key;
use crate::bucket::Node;
use crate::bucket::NodeStatus;
use crate::bucket::MAX_NODES_PER_BUCKET;

verus! {

/// The value of a pending candidate: the node awaiting admission, the status
/// it is to be admitted with, and the time from which it may be applied.
#[verifier::ext_equal]
pub ghost struct PendingModel<V> {
    pub node: Node<V>,
    pub status: NodeStatus,
    pub replace: u64,
}

/// The value of a bucket.
///
/// `split` is the boundary index: every member at an index `>= split` is
/// considered connected, every member below it disconnected. `None` means no
/// member is considered connected.
#[verifier::ext_equal]
pub ghost struct BucketModel<V> {
    pub members: Seq<Node<V>>,
    pub split: Option<int>,
    pub pending: Option<PendingModel<V>>,
    pub timeout: u64,
}

/// The index of the first member of `s` whose key is `key`, or `s.len()`
/// if no member has that key.
pub open spec fn index_of_key<V>(s: Seq<Node<V>>, key: Key) -> int
    decreases s.len(),
{
    if s.len() == 0 {
        0
    } else if s[0].key == key {
        0
    } else {
        1 + index_of_key(s.subrange(1, s.len() as int), key)
    }
}

/// `index_of_key` returns the first match: a position that matches and has
/// no match before it is the index found.
pub proof fn lemma_index_of_key_first<V>(s: Seq<Node<V>>, key: Key, i: int)
    requires
        0 <= i < s.len(),
        s[i].key == key,
        forall|j: int| 0 <= j < i ==> s[j].key != key,
    ensures
        index_of_key(s, key) == i,
    decreases i,
{
    if s[0].key == key {
        assert(i == 0);
    } else {
        let t = s.subrange(1, s.len() as int);
        assert(t[i - 1] == s[i]);
        assert(forall|j: int| 0 <= j < i - 1 ==> t[j] == s[j + 1]);
        lemma_index_of_key_first(t, key, i - 1);
    }
}

/// When some member of `s` has the key, `index_of_key` finds the first of
/// them: an in-range position that matches and has no match before it.
pub proof fn lemma_index_of_key_found<V>(s: Seq<Node<V>>, key: Key)
    requires
        exists|i: int| 0 <= i < s.len() && #[trigger] s[i].key == key,
    ensures
        0 <= index_of_key(s, key) < s.len(),
        s[index_of_key(s, key)].key == key,
        forall|j: int| 0 <= j < index_of_key(s, key) ==> s[j].key != key,
    decreases s.len(),
{
    if s[0].key == key {
    } else {
        let t = s.subrange(1, s.len() as int);
        let w = choose|i: int| 0 <= i < s.len() && #[trigger] s[i].key == key;
        assert(t[w - 1] == s[w]);
        lemma_index_of_key_found(t, key);
        assert(forall|j: int| 1 <= j < s.len() ==> s[j] == t[j - 1]);
    }
}

impl<V> BucketModel<V> {
    /// Well-formedness: the bucket never exceeds its capacity, and the
    /// boundary index, when present, points at an existing member — the
    /// first connected one — so an absent boundary is the one way of saying
    /// that no member is connected.
    pub open spec fn wf(self) -> bool {
        &&& self.members.len() <= MAX_NODES_PER_BUCKET
        &&& (self.split matches Some(p) ==> 0 <= p < self.members.len())
    }

    pub open spec fn full(self) -> bool {
        self.members.len() >= MAX_NODES_PER_BUCKET
    }

    /// The status derived for position `i`: connected exactly when the
    /// boundary exists and `i` is at or above it.
    pub open spec fn status_of(self, i: int) -> NodeStatus {
        if self.split matches Some(p) && i >= p {
            NodeStatus::Connected
        } else {
            NodeStatus::Disconnected
        }
    }

    /// The boundary index, taking the whole list as disconnected when no
    /// member is considered connected.
    pub open spec fn split_or_len(self) -> int {
        match self.split {
            Some(p) => p,
            None => self.members.len() as int,
        }
    }

    /// The disconnected members, least-recently updated first.
    pub open spec fn disconnected_part(self) -> Seq<Node<V>> {
        self.members.subrange(0, self.split_or_len())
    }

    /// The connected members, least-recently updated first.
    pub open spec fn connected_part(self) -> Seq<Node<V>> {
        self.members.subrange(self.split_or_len(), self.members.len() as int)
    }

    pub open spec fn num_connected(self) -> int {
        match self.split {
            Some(p) => self.members.len() - p,
            None => 0,
        }
    }

    pub open spec fn num_disconnected(self) -> int {
        self.members.len() - self.num_connected()
    }

    pub open spec fn contains_key(self, key: Key) -> bool {
        exists|i: int| 0 <= i < self.members.len() && #[trigger] self.members[i].key == key
    }

    /// An insertion with this status would park the node as the pending
    /// candidate: the bucket is full, its least-recently updated member is
    /// disconnected, and no candidate is parked yet.
    pub open spec fn insert_parks_pending(self, status: NodeStatus) -> bool {
        &&& status is Connected
        &&& self.full()
        &&& !(self.split matches Some(p) && p == 0)
        &&& self.pending is None
    }

    /// The admission algorithm.
    ///
    /// A connected node is appended as the most-recently connected member
    /// when there is room; when the bucket is full it is parked as the
    /// pending candidate, unless every member is connected or a candidate is
    /// already parked, in which case it is rejected. A disconnected node is
    /// rejected when the bucket is full and otherwise placed directly before
    /// the boundary, as the most-recently disconnected member.
    pub open spec fn insert(self, node: Node<V>, status: NodeStatus, now: u64) -> (Self, InsertResult) {
        match status {
            NodeStatus::Connected => {
                if self.full() {
                    if (self.split matches Some(p) && p == 0) || self.pending is Some {
                        (self, InsertResult::Full)
                    } else {
                        (
                            BucketModel {
                                pending: Some(
                                    PendingModel {
                                        node,
                                        status: NodeStatus::Connected,
                                        replace: (now + self.timeout) as u64,
                                    },
                                ),
                                ..self
                            },
                            InsertResult::Pending { disconnected: self.members[0].key },
                        )
                    }
                } else {
                    (
                        BucketModel {
                            members: self.members.push(node),
                            split: if self.split is Some {
                                self.split
                            } else {
                                Some(self.members.len() as int)
                            },
                            ..self
                        },
                        InsertResult::Inserted,
                    )
                }
            },
            NodeStatus::Disconnected => {
                if self.full() {
                    (self, InsertResult::Full)
                } else {
                    match self.split {
                        Some(p) => (
                            BucketModel {
                                members: self.members.insert(p, node),
                                split: Some(p + 1),
                                ..self
                            },
                            InsertResult::Inserted,
                        ),
                        None => (
                            BucketModel { members: self.members.push(node), ..self },
                            InsertResult::Inserted,
                        ),
                    }
                }
            },
        }
    }

    /// The boundary index after the member at position `i` has been
    /// removed: a boundary above the removed position moves down with the
    /// members behind it, and the boundary disappears when the removed
    /// member was the only connected one.
    pub open spec fn split_after_removal(self, i: int) -> Option<int> {
        match self.split {
            Some(p) => if i < p {
                Some(p - 1)
            } else if p == self.members.len() - 1 {
                None
            } else {
                Some(p)
            },
            None => None,
        }
    }

    /// The status transition: the member with the given key, if present, is
    /// removed from its position — the boundary index adjusting to the
    /// removal — and re-admitted with the new status. When the member was at
    /// position 0 and is promoted to connected, the pending candidate is
    /// discarded, since the eviction it was waiting for has lost its target.
    pub open spec fn update(self, key: Key, status: NodeStatus) -> Self {
        if !self.contains_key(key) {
            self
        } else {
            let i = index_of_key(self.members, key);
            let node = self.members[i];
            let cleared = BucketModel {
                members: self.members.remove(i),
                split: self.split_after_removal(i),
                pending: if i == 0 && status is Connected {
                    None
                } else {
                    self.pending
                },
                ..self
            };
            cleared.insert(node, status, 0).0
        }
    }

    /// The timed admission of the pending candidate.
    ///
    /// Nothing happens while there is no candidate or its time has not come.
    /// Otherwise the candidate is consumed: dropped silently when the full
    /// bucket has turned all-connected; admitted in place of the evicted
    /// least-recently updated member when the bucket is still full; admitted
    /// without eviction when room has been made.
    pub open spec fn apply_pending(self, now: u64) -> (Self, Option<AppliedPending<V>>) {
        match self.pending {
            None => (self, None),
            Some(p) => {
                if p.replace > now {
                    (self, None)
                } else {
                    let taken = BucketModel { pending: None, ..self };
                    if self.full() {
                        if self.status_of(0) is Connected {
                            (taken, None)
                        } else {
                            let applied = AppliedPending {
                                inserted: p.node.key,
                                evicted: Some(self.members[0]),
                            };
                            let rest = self.members.subrange(1, self.members.len() as int);
                            if p.status is Connected {
                                (
                                    BucketModel {
                                        members: rest.push(p.node),
                                        split: match self.split {
                                            Some(q) => Some(q - 1),
                                            None => Some(self.members.len() - 1),
                                        },
                                        pending: None,
                                        ..self
                                    },
                                    Some(applied),
                                )
                            } else {
                                match self.split {
                                    Some(q) => if q >= 1 {
                                        (
                                            BucketModel {
                                                members: rest.insert(q - 1, p.node),
                                                pending: None,
                                                ..self
                                            },
                                            Some(applied),
                                        )
                                    } else {
                                        (taken, None)
                                    },
                                    None => (
                                        BucketModel { members: rest.push(p.node), pending: None, ..self },
                                        Some(applied),
                                    ),
                                }
                            }
                        }
                    } else {
                        (
                            taken.insert(p.node, p.status, now).0,
                            Some(AppliedPending { inserted: p.node.key, evicted: None }),
                        )
                    }
                }
            },
        }
    }
}

} // verus!
