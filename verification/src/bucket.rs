//! The executable bucket and its record types.

use vstd::prelude::*;

use crate::model::BucketModel;
use crate::model::PendingModel;
use crate::model::index_of_key;
use crate::model::lemma_index_of_key_first;

verus! {

/// Maximum number of nodes in a bucket, i.e. the (fixed) `k` parameter.
pub const MAX_NODES_PER_BUCKET: usize = 20;

/// The identifier of a peer: an opaque, copyable, equality-comparable value.
/// Uniqueness of keys within a bucket is the caller's responsibility.
#[derive(Clone, Copy, PartialEq, Eq, Structural, Debug, Hash)]
pub struct Key {
    pub id: u64,
}

impl Key {
    pub fn new(id: u64) -> (r: Key)
        ensures
            r.id == id,
    {
        Key { id }
    }
}

/// The status of a node in a bucket.
///
/// The status is derived from a node's position relative to the bucket's
/// boundary index; it is never stored per node.
#[derive(PartialEq, Eq, Structural, Debug, Copy, Clone)]
pub enum NodeStatus {
    /// The node is considered connected.
    Connected,
    /// The node is considered disconnected.
    Disconnected,
}

/// A node in a bucket: a peer together with an associated value (e.g.
/// contact information). The value is never interpreted by the bucket.
#[derive(Debug, Clone, PartialEq, Eq)]
pub struct Node<V> {
    /// The key of the node, identifying the peer.
    pub key: Key,
    /// The associated value.
    pub value: V,
}

/// The position of a node in a bucket: a non-negative integer in the range
/// `[0, MAX_NODES_PER_BUCKET)`.
#[derive(Copy, Clone, Debug, PartialEq, Eq, Structural, PartialOrd, Ord)]
pub struct Position(pub usize);

/// A node pending insertion into a full bucket, tagged with the status it is
/// to be admitted with and the time from which it may be applied.
#[derive(Debug, Clone)]
pub struct PendingNode<V> {
    /// The pending node to insert.
    node: Node<V>,

    /// The status of the pending node.
    status: NodeStatus,

    /// The time at which the pending node becomes eligible for insertion.
    replace: u64,
}

impl<V> View for PendingNode<V> {
    type V = PendingModel<V>;

    closed spec fn view(&self) -> PendingModel<V> {
        PendingModel { node: self.node, status: self.status, replace: self.replace }
    }
}

impl<V> PendingNode<V> {
    pub fn key(&self) -> (r: &Key)
        ensures
            *r == self@.node.key,
    {
        &self.node.key
    }

    pub fn status(&self) -> (r: NodeStatus)
        ensures
            r == self@.status,
    {
        self.status
    }

    pub fn value_mut(&mut self) -> (r: &mut V)
        ensures
            *r == old(self)@.node.value,
            final(self)@ == (PendingModel {
                node: Node { key: old(self)@.node.key, value: *final(r) },
                ..old(self)@
            }),
    {
        &mut self.node.value
    }

    /// Whether the node is eligible for insertion at time `now`.
    pub fn is_ready(&self, now: u64) -> (r: bool)
        ensures
            r == (now >= self@.replace),
    {
        now >= self.replace
    }

    /// Reschedules the node to be eligible for insertion at time `t`.
    pub fn set_ready_at(&mut self, t: u64)
        ensures
            final(self)@ == (PendingModel { replace: t, ..old(self)@ }),
    {
        self.replace = t;
    }
}

/// The result of inserting an entry into a bucket.
#[must_use]
#[derive(Debug, Clone, PartialEq, Eq)]
pub enum InsertResult {
    /// The entry has been successfully inserted.
    Inserted,
    /// The entry is pending insertion because the bucket is currently full.
    /// The entry is inserted after a timeout elapsed, if the status of the
    /// least-recently updated (and currently disconnected) node in the
    /// bucket is not updated before the timeout expires.
    Pending {
        /// The key of the least-recently updated entry that is currently
        /// considered disconnected and whose corresponding peer should be
        /// checked for connectivity in order to prevent it from being
        /// evicted. If connectivity to the peer is re-established, the
        /// corresponding entry should be updated with
        /// [`NodeStatus::Connected`].
        disconnected: Key,
    },
    /// The entry was not inserted because the bucket is full.
    Full,
}

/// The result of applying a pending node to a bucket, possibly replacing an
/// existing node.
#[derive(Debug, Clone, PartialEq, Eq)]
pub struct AppliedPending<V> {
    /// The key of the inserted pending node.
    pub inserted: Key,
    /// The node that has been evicted from the bucket to make room for the
    /// pending node, if any.
    pub evicted: Option<Node<V>>,
}

/// A list of up to [`MAX_NODES_PER_BUCKET`] nodes, ordered from
/// least-recently updated to most-recently updated within each status class,
/// with the disconnected members forming the prefix and the connected
/// members the suffix of the list.
#[derive(Debug, Clone)]
pub struct KBucket<V> {
    /// The nodes contained in the bucket.
    nodes: Vec<Node<V>>,

    /// The position (index) in `nodes` that marks the first connected node.
    ///
    /// `None` indicates that there are no connected entries in the bucket,
    /// i.e. the bucket is either empty, or contains only entries for peers
    /// that are considered disconnected.
    first_connected_pos: Option<usize>,

    /// A node that is pending to be inserted into a full bucket, should the
    /// least-recently updated (and currently disconnected) node not be
    /// marked as connected before the pending timeout elapses.
    pending: Option<PendingNode<V>>,

    /// The timeout window before a new pending node is eligible for
    /// insertion, if the least-recently updated node is not updated as being
    /// connected in the meantime.
    pending_timeout: u64,
}

impl<V> View for KBucket<V> {
    type V = BucketModel<V>;

    closed spec fn view(&self) -> BucketModel<V> {
        BucketModel {
            members: self.nodes@,
            split: match self.first_connected_pos {
                Some(p) => Some(p as int),
                None => None,
            },
            pending: match self.pending {
                Some(p) => Some(p@),
                None => None,
            },
            timeout: self.pending_timeout,
        }
    }
}

impl<V> KBucket<V> {
    /// Creates a new, empty bucket with the given timeout for pending nodes.
    pub fn new(pending_timeout: u64) -> (r: Self)
        ensures
            r@ == (BucketModel {
                members: Seq::<Node<V>>::empty(),
                split: None::<int>,
                pending: None::<PendingModel<V>>,
                timeout: pending_timeout,
            }),
            r@.wf(),
    {
        KBucket { nodes: Vec::new(), first_connected_pos: None, pending: None, pending_timeout }
    }

    /// The configured timeout for pending nodes.
    pub fn pending_timeout(&self) -> (r: u64)
        ensures
            r == self@.timeout,
    {
        self.pending_timeout
    }

    /// Returns a reference to the pending node of the bucket, if there is any.
    pub fn pending(&self) -> (r: Option<&PendingNode<V>>)
        ensures
            match self@.pending {
                Some(pm) => r is Some && r.unwrap()@ == pm,
                None => r is None,
            },
    {
        self.pending.as_ref()
    }

    /// Gets the number of entries currently in the bucket.
    pub fn num_entries(&self) -> (r: usize)
        ensures
            r == self@.members.len(),
    {
        self.nodes.len()
    }

    /// Returns the status of the node at the given position, derived from
    /// the boundary index.
    pub fn status(&self, pos: Position) -> (r: NodeStatus)
        ensures
            r == self@.status_of(pos.0 as int),
    {
        match self.first_connected_pos {
            Some(i) => if pos.0 >= i {
                NodeStatus::Connected
            } else {
                NodeStatus::Disconnected
            },
            None => NodeStatus::Disconnected,
        }
    }

    /// Checks whether the given position refers to a connected node.
    pub fn is_connected(&self, pos: Position) -> (r: bool)
        ensures
            r == (self@.status_of(pos.0 as int) is Connected),
    {
        self.status(pos) == NodeStatus::Connected
    }

    /// Gets the number of entries in the bucket that are considered
    /// connected.
    pub fn num_connected(&self) -> (r: usize)
        requires
            self@.wf(),
        ensures
            r == self@.num_connected(),
    {
        match self.first_connected_pos {
            Some(i) => self.nodes.len() - i,
            None => 0,
        }
    }

    /// Gets the number of entries in the bucket that are considered
    /// disconnected.
    pub fn num_disconnected(&self) -> (r: usize)
        requires
            self@.wf(),
        ensures
            r == self@.num_disconnected(),
    {
        self.nodes.len() - self.num_connected()
    }

    /// Places a node into a bucket that has room, either as the
    /// most-recently connected member (at the end of the list) or as the
    /// most-recently disconnected member (directly before the boundary).
    fn reinsert(&mut self, node: Node<V>, status: NodeStatus)
        requires
            old(self)@.members.len() < MAX_NODES_PER_BUCKET,
            status is Disconnected ==> (old(self)@.split matches Some(p) ==> p
                <= old(self)@.members.len()),
        ensures
            ({
                let (m, r) = old(self)@.insert(node, status, 0);
                final(self)@ == m && r is Inserted
            }),
    {
        match status {
            NodeStatus::Connected => {
                let pos = self.nodes.len();
                if self.first_connected_pos.is_none() {
                    self.first_connected_pos = Some(pos);
                }
                self.nodes.push(node);
            },
            NodeStatus::Disconnected => {
                match self.first_connected_pos {
                    Some(p) => {
                        self.nodes.insert(p, node);
                        self.first_connected_pos = Some(p + 1);
                    },
                    None => {
                        self.nodes.push(node);
                    },
                }
            },
        }
        proof {
            let (m, r) = old(self)@.insert(node, status, 0);
            assert(self@ =~= m);
        }
    }

    /// Inserts a new node into the bucket with the given status.
    ///
    /// The status of the node to insert determines the result as follows:
    ///
    ///   * `NodeStatus::Connected`: If the bucket is full and either all
    ///     nodes are connected or there is already a pending node, insertion
    ///     fails with `InsertResult::Full`. If the bucket is full but at
    ///     least one node is disconnected and there is no pending node, the
    ///     new node is parked as pending, eligible at `now` plus the
    ///     bucket's timeout, yielding `InsertResult::Pending` with the key
    ///     of the least-recently updated disconnected node, the eviction
    ///     target. Otherwise the bucket has free slots and the new node is
    ///     added to the end of the bucket as the most-recently connected
    ///     node.
    ///
    ///   * `NodeStatus::Disconnected`: If the bucket is full, insertion
    ///     fails with `InsertResult::Full`. Otherwise the bucket has free
    ///     slots and the new node is inserted at the position preceding the
    ///     first connected node, i.e. as the most-recently disconnected
    ///     node. If there are no connected nodes, the new node is added as
    ///     the last element of the bucket.
    ///
    /// The caller must guarantee that the bucket does not already hold a
    /// node with the same key.
    pub fn insert(&mut self, node: Node<V>, status: NodeStatus, now: u64) -> (result: InsertResult)
        requires
            old(self)@.wf(),
            old(self)@.insert_parks_pending(status) ==> now + old(self)@.timeout <= u64::MAX,
        ensures
            final(self)@.wf(),
            ({
                let (m, r) = old(self)@.insert(node, status, now);
                final(self)@ == m && result == r
            }),
            result is Inserted <==> !old(self)@.full(),
            result is Pending <==> old(self)@.insert_parks_pending(status),
    {
        if self.nodes.len() < MAX_NODES_PER_BUCKET {
            self.reinsert(node, status);
            return InsertResult::Inserted;
        }
        match status {
            NodeStatus::Connected => {
                let all_connected = match self.first_connected_pos {
                    Some(p) => p == 0,
                    None => false,
                };
                if all_connected || self.pending.is_some() {
                    return InsertResult::Full;
                }
                let disconnected = self.nodes[0].key;
                self.pending = Some(
                    PendingNode {
                        node,
                        status: NodeStatus::Connected,
                        replace: now + self.pending_timeout,
                    },
                );
                InsertResult::Pending { disconnected }
            },
            NodeStatus::Disconnected => InsertResult::Full,
        }
    }

    /// Updates the status of the node referred to by the given key, if it is
    /// in the bucket: the node is removed from its current position — the
    /// boundary index adjusting to the removal — and re-admitted with the
    /// new status, which makes it the most-recently updated member of its
    /// new status class. If the node was at position 0 and is promoted to
    /// connected, the pending node is discarded, since the eviction it was
    /// waiting for has lost its target.
    pub fn update(&mut self, key: &Key, status: NodeStatus)
        requires
            old(self)@.wf(),
        ensures
            final(self)@.wf(),
            final(self)@ == old(self)@.update(*key, status),
            !old(self)@.contains_key(*key) ==> final(self)@ == old(self)@,
            old(self)@.contains_key(*key) ==> final(self)@.members.len()
                == old(self)@.members.len(),
    {
        let pos = match self.position(key) {
            Some(pos) => pos,
            None => {
                return ;
            },
        };
        proof {
            assert(old(self)@.members[pos.0 as int].key == *key);
        }
        let node = self.nodes.remove(pos.0);
        self.first_connected_pos = match self.first_connected_pos {
            Some(p) => if pos.0 < p {
                // A member below the boundary left: the boundary moves down
                // with the members behind it.
                Some(p - 1)
            } else if self.nodes.len() == p {
                // The only connected member left: no boundary remains.
                None
            } else {
                Some(p)
            },
            None => None,
        };
        if pos.0 == 0 && status == NodeStatus::Connected {
            self.pending = None;
        }
        self.reinsert(node, status);
        proof {
            assert(final(self)@ =~= old(self)@.update(*key, status));
        }
    }

    /// Inserts the pending node into the bucket, if its eligibility time has
    /// come at `now`, replacing the least-recently updated node.
    ///
    /// If a pending node has been inserted, its key is returned together
    /// with the node that was replaced. `None` indicates that the nodes in
    /// the bucket remained unchanged.
    pub fn apply_pending(&mut self, now: u64) -> (result: Option<AppliedPending<V>>)
        requires
            old(self)@.wf(),
        ensures
            final(self)@.wf(),
            ({
                let (m, r) = old(self)@.apply_pending(now);
                final(self)@ == m && result == r
            }),
            old(self)@.pending is None ==> final(self)@ == old(self)@ && result is None,
            (old(self)@.pending matches Some(p) && p.replace > now) ==> final(self)@ == old(self)@
                && result is None,
    {
        let pending = match self.pending.take() {
            None => {
                return None;
            },
            Some(p) => p,
        };
        if pending.replace > now {
            self.pending = Some(pending);
            proof {
                assert(final(self)@ =~= old(self)@);
            }
            return None;
        }
        if self.nodes.len() >= MAX_NODES_PER_BUCKET {
            let all_connected = match self.first_connected_pos {
                Some(p) => p == 0,
                None => false,
            };
            if all_connected {
                // The bucket is full with connected nodes: the eviction
                // target no longer exists, so the pending node is dropped.
                return None;
            }
            let inserted = pending.node.key;
            if pending.status == NodeStatus::Connected {
                // A connected pending node goes at the end of the list of
                // connected peers, evicting the least-recently updated node.
                let evicted = self.nodes.remove(0);
                self.first_connected_pos = match self.first_connected_pos {
                    Some(p) => Some(p - 1),
                    None => Some(self.nodes.len()),
                };
                self.nodes.push(pending.node);
                proof {
                    assert(final(self)@ =~= old(self)@.apply_pending(now).0);
                }
                Some(AppliedPending { inserted, evicted: Some(evicted) })
            } else {
                match self.first_connected_pos {
                    Some(p) => {
                        // A disconnected pending node goes directly before
                        // the boundary, as the most-recently disconnected
                        // peer; the boundary exists and is above position 0,
                        // so the eviction leaves room in front of it.
                        let evicted = self.nodes.remove(0);
                        self.nodes.insert(p - 1, pending.node);
                        proof {
                            assert(final(self)@ =~= old(self)@.apply_pending(now).0);
                        }
                        Some(AppliedPending { inserted, evicted: Some(evicted) })
                    },
                    None => {
                        // All nodes are disconnected: the new node becomes
                        // the most-recently disconnected one, evicting the
                        // least-recently disconnected.
                        let evicted = self.nodes.remove(0);
                        self.nodes.push(pending.node);
                        proof {
                            assert(final(self)@ =~= old(self)@.apply_pending(now).0);
                        }
                        Some(AppliedPending { inserted, evicted: Some(evicted) })
                    },
                }
            }
        } else {
            // There is room in the bucket, so the pending node is inserted
            // directly.
            let inserted = pending.node.key;
            self.reinsert(pending.node, pending.status);
            proof {
                assert(final(self)@ =~= old(self)@.apply_pending(now).0);
            }
            Some(AppliedPending { inserted, evicted: None })
        }
    }

    /// Gets the position of a node in the bucket, searching from the front.
    pub fn position(&self, key: &Key) -> (r: Option<Position>)
        ensures
            match r {
                Some(pos) => {
                    &&& pos.0 < self@.members.len()
                    &&& self@.members[pos.0 as int].key == *key
                    &&& forall|j: int| 0 <= j < pos.0 ==> self@.members[j].key != *key
                    &&& pos.0 == index_of_key(self@.members, *key)
                },
                None => !self@.contains_key(*key),
            },
    {
        let mut i: usize = 0;
        while i < self.nodes.len()
            invariant
                i <= self@.members.len(),
                forall|j: int| 0 <= j < i ==> self@.members[j].key != *key,
            decreases self@.members.len() - i,
        {
            if self.nodes[i].key == *key {
                proof {
                    lemma_index_of_key_first(self@.members, *key, i as int);
                }
                return Some(Position(i));
            }
            i += 1;
        }
        None
    }

    /// Returns a reference to the node in the bucket with the given key, if
    /// there is any.
    pub fn get(&self, key: &Key) -> (r: Option<&Node<V>>)
        ensures
            match r {
                Some(n) => self@.contains_key(*key) && *n == self@.members[index_of_key(
                    self@.members,
                    *key,
                )],
                None => !self@.contains_key(*key),
            },
    {
        match self.position(key) {
            Some(pos) => Some(&self.nodes[pos.0]),
            None => None,
        }
    }

    /// Gets a mutable reference to the node identified by the given key.
    ///
    /// Returns `None` if the given key does not refer to a node in the
    /// bucket.
    pub fn get_mut(&mut self, key: &Key) -> (r: Option<&mut Node<V>>)
        ensures
            old(self)@.contains_key(*key) <==> r is Some,
            r is None ==> final(self)@ == old(self)@,
            r is Some ==> {
                let i = index_of_key(old(self)@.members, *key);
                &&& *r.unwrap() == old(self)@.members[i]
                &&& final(self)@ == (BucketModel {
                    members: old(self)@.members.update(i, *final(r.unwrap())),
                    ..old(self)@
                })
            },
    {
        let pos = match self.position(key) {
            Some(pos) => pos,
            None => {
                return None;
            },
        };
        proof {
            assert(old(self)@.members[pos.0 as int].key == *key);
        }
        let elem = &mut self.nodes[pos.0];
        Some(elem)
    }

    /// Returns a mutable reference to the pending node of the bucket, if
    /// there is any.
    pub fn pending_mut(&mut self) -> (r: Option<&mut PendingNode<V>>)
        ensures
            old(self)@.pending is Some <==> r is Some,
            r is None ==> final(self)@ == old(self)@,
            r is Some ==> r.unwrap()@ == old(self)@.pending.unwrap() && final(self)@
                == (BucketModel { pending: Some((*final(r.unwrap()))@), ..old(self)@ }),
    {
        self.pending.as_mut()
    }

    /// Returns a reference to the pending node of the bucket, if there is
    /// any with a matching key.
    pub fn as_pending(&self, key: &Key) -> (r: Option<&PendingNode<V>>)
        ensures
            r is Some <==> (self@.pending matches Some(pm) && pm.node.key == *key),
            r is Some ==> r.unwrap()@ == self@.pending.unwrap(),
    {
        match &self.pending {
            Some(p) => if p.node.key == *key {
                Some(p)
            } else {
                None
            },
            None => None,
        }
    }

    /// Updates the status the pending node will be admitted with, if there
    /// is any, without touching its schedule.
    pub fn update_pending(&mut self, status: NodeStatus)
        ensures
            old(self)@.pending is None ==> final(self)@ == old(self)@,
            old(self)@.pending matches Some(pm) ==> final(self)@ == (BucketModel {
                pending: Some(PendingModel { status, ..pm }),
                ..old(self)@
            }),
    {
        if let Some(pending) = &mut self.pending {
            pending.status = status;
        }
    }

    /// Returns the nodes in the bucket, together with their derived status,
    /// in stored order.
    pub fn iter(&self) -> (r: Vec<(&Node<V>, NodeStatus)>)
        ensures
            r@.len() == self@.members.len(),
            forall|i: int|
                0 <= i < r@.len() ==> *(#[trigger] r@[i]).0 == self@.members[i] && r@[i].1
                    == self@.status_of(i),
    {
        let mut r: Vec<(&Node<V>, NodeStatus)> = Vec::new();
        let mut i: usize = 0;
        while i < self.nodes.len()
            invariant
                i <= self@.members.len(),
                r@.len() == i,
                forall|j: int|
                    0 <= j < i ==> *(#[trigger] r@[j]).0 == self@.members[j] && r@[j].1
                        == self@.status_of(j),
            decreases self@.members.len() - i,
        {
            let st = self.status(Position(i));
            r.push((&self.nodes[i], st));
            i += 1;
        }
        r
    }
}

} // verus!
