//! Laws of the bucket, proved over the model in [`crate::model`].

use vstd::prelude::*;

use crate::bucket::AppliedPending;
use crate::bucket::InsertResult;
use crate::bucket::Key;
use crate::bucket::Node;
use crate::bucket::NodeStatus;
use crate::bucket::MAX_NODES_PER_BUCKET;
use crate::model::index_of_key;
use crate::model::lemma_index_of_key_found;
use crate::model::BucketModel;

verus! {

/// Partition law: on a well-formed bucket the derived status of every
/// position agrees with the boundary index — every position at or above the
/// boundary is connected and every position below it is disconnected — an
/// absent boundary means no member is connected, and the class counts are
/// the lengths of the two class sub-sequences.
pub proof fn lemma_partition<V>(m: BucketModel<V>)
    requires
        m.wf(),
    ensures
        forall|i: int|
            0 <= i < m.members.len() ==> (#[trigger] m.status_of(i) is Connected <==> (
            m.split matches Some(p) && i >= p)),
        m.num_connected() == 0 <==> m.split is None,
        m.num_connected() == m.connected_part().len(),
        m.num_disconnected() == m.disconnected_part().len(),
{
}

/// Capacity law: a well-formed bucket holds at most `MAX_NODES_PER_BUCKET`
/// members, and an insertion keeps it well-formed, so no insertion ever
/// produces a bucket above capacity.
pub proof fn lemma_capacity<V>(m: BucketModel<V>, node: Node<V>, status: NodeStatus, now: u64)
    requires
        m.wf(),
    ensures
        m.members.len() <= MAX_NODES_PER_BUCKET,
        m.insert(node, status, now).0.wf(),
        m.insert(node, status, now).0.members.len() <= MAX_NODES_PER_BUCKET,
{
}

/// Ordering law: an accepted insertion appends the node at the end of its
/// own status class and leaves the other class untouched, so a sequence of
/// accepted insertions reproduces, within each class, its insertion order.
pub proof fn lemma_insert_class_order<V>(
    m: BucketModel<V>,
    node: Node<V>,
    status: NodeStatus,
    now: u64,
)
    requires
        m.wf(),
    ensures
        ({
            let (m2, r) = m.insert(node, status, now);
            r is Inserted ==> match status {
                NodeStatus::Connected => m2.connected_part() == m.connected_part().push(node)
                    && m2.disconnected_part() == m.disconnected_part(),
                NodeStatus::Disconnected => m2.disconnected_part() == m.disconnected_part().push(
                    node,
                ) && m2.connected_part() == m.connected_part(),
            }
        }),
{
    let (m2, r) = m.insert(node, status, now);
    if !m.full() {
        match status {
            NodeStatus::Connected => {
                assert(m2.connected_part() =~= m.connected_part().push(node));
                assert(m2.disconnected_part() =~= m.disconnected_part());
            },
            NodeStatus::Disconnected => {
                assert(m2.disconnected_part() =~= m.disconnected_part().push(node));
                assert(m2.connected_part() =~= m.connected_part());
            },
        }
    }
}

/// Status transition law: updating a present member keeps the number of
/// members, moves that member to the most-recently updated slot of its new
/// status class — the end of the list when connected, directly below the
/// boundary when disconnected — where it derives exactly the new status,
/// and leaves every other member in its previous relative order.
pub proof fn lemma_update_semantics<V>(m: BucketModel<V>, key: Key, status: NodeStatus)
    requires
        m.wf(),
        m.contains_key(key),
    ensures
        ({
            let m2 = m.update(key, status);
            let i = index_of_key(m.members, key);
            let moved = if status is Connected {
                m2.members.len() - 1
            } else {
                m2.split_or_len() - 1
            };
            &&& m2.wf()
            &&& m2.members.len() == m.members.len()
            &&& m2.members[moved] == m.members[i]
            &&& m2.status_of(moved) == status
            &&& m2.members.remove(moved) == m.members.remove(i)
        }),
{
    lemma_index_of_key_found(m.members, key);
    let m2 = m.update(key, status);
    let i = index_of_key(m.members, key);
    let moved = if status is Connected {
        m2.members.len() - 1
    } else {
        m2.split_or_len() - 1
    };
    assert(m2.members.remove(moved) =~= m.members.remove(i));
}

/// The bucket reached by admitting the given nodes, each with its intended
/// status, in order, starting from `m`.
pub open spec fn insert_all<V>(
    m: BucketModel<V>,
    items: Seq<(Node<V>, NodeStatus)>,
) -> BucketModel<V>
    decreases items.len(),
{
    if items.len() == 0 {
        m
    } else {
        insert_all(m.insert(items[0].0, items[0].1, 0).0, items.subrange(1, items.len() as int))
    }
}

/// The nodes among `items` that carry the given status, in order.
pub open spec fn class_list<V>(items: Seq<(Node<V>, NodeStatus)>, status: NodeStatus) -> Seq<
    Node<V>,
>
    decreases items.len(),
{
    if items.len() == 0 {
        Seq::empty()
    } else {
        let rest = class_list(items.subrange(1, items.len() as int), status);
        if items[0].1 == status {
            seq![items[0].0] + rest
        } else {
            rest
        }
    }
}

/// Ordering law, over a whole run of insertions: admitting any interleaving
/// of nodes that fits the remaining capacity extends each status class by
/// exactly those nodes, in insertion order — the disconnected members stay a
/// prefix and the connected members a suffix, each a FIFO of its class.
pub proof fn lemma_insert_all_class_order<V>(m: BucketModel<V>, items: Seq<(Node<V>, NodeStatus)>)
    requires
        m.wf(),
        m.members.len() + items.len() <= MAX_NODES_PER_BUCKET,
    ensures
        insert_all(m, items).wf(),
        insert_all(m, items).connected_part() == m.connected_part() + class_list(
            items,
            NodeStatus::Connected,
        ),
        insert_all(m, items).disconnected_part() == m.disconnected_part() + class_list(
            items,
            NodeStatus::Disconnected,
        ),
    decreases items.len(),
{
    if items.len() == 0 {
        assert(insert_all(m, items).connected_part() =~= m.connected_part() + class_list(
            items,
            NodeStatus::Connected,
        ));
        assert(insert_all(m, items).disconnected_part() =~= m.disconnected_part() + class_list(
            items,
            NodeStatus::Disconnected,
        ));
    } else {
        let (node, status) = items[0];
        let rest = items.subrange(1, items.len() as int);
        let (m1, r) = m.insert(node, status, 0);
        lemma_insert_class_order(m, node, status, 0);
        lemma_insert_all_class_order(m1, rest);
        match status {
            NodeStatus::Connected => {
                assert(m1.connected_part() + class_list(rest, NodeStatus::Connected)
                    =~= m.connected_part() + class_list(items, NodeStatus::Connected));
                assert(m1.disconnected_part() + class_list(rest, NodeStatus::Disconnected)
                    =~= m.disconnected_part() + class_list(items, NodeStatus::Disconnected));
            },
            NodeStatus::Disconnected => {
                assert(m1.connected_part() + class_list(rest, NodeStatus::Connected)
                    =~= m.connected_part() + class_list(items, NodeStatus::Connected));
                assert(m1.disconnected_part() + class_list(rest, NodeStatus::Disconnected)
                    =~= m.disconnected_part() + class_list(items, NodeStatus::Disconnected));
            },
        }
    }
}

/// Full-bucket rejection law: a full bucket whose members are all connected
/// rejects every insertion, and a full bucket with a pending candidate
/// already parked rejects every connected insertion; in both cases the
/// bucket is unchanged. A full bucket also rejects every disconnected
/// insertion.
pub proof fn lemma_full_rejection<V>(
    m: BucketModel<V>,
    node: Node<V>,
    status: NodeStatus,
    now: u64,
)
    requires
        m.wf(),
        m.full(),
    ensures
        m.split == Some(0int) ==> m.insert(node, status, now) == (m, InsertResult::Full),
        status is Connected && m.pending is Some ==> m.insert(node, status, now) == (
            m,
            InsertResult::Full,
        ),
        status is Disconnected ==> m.insert(node, status, now) == (m, InsertResult::Full),
{
}

/// Pending admission law: inserting a connected node into a full bucket
/// whose least-recently updated member is disconnected parks it as pending,
/// naming that member as the eviction target; once the timeout has elapsed,
/// applying the pending node evicts that member and admits the node as the
/// most-recently connected member.
pub proof fn lemma_pending_admission<V>(m: BucketModel<V>, node: Node<V>, now: u64, later: u64)
    requires
        m.wf(),
        m.full(),
        m.status_of(0) is Disconnected,
        m.pending is None,
        now + m.timeout <= u64::MAX,
        later >= now + m.timeout,
    ensures
        ({
            let (m1, r1) = m.insert(node, NodeStatus::Connected, now);
            let (m2, r2) = m1.apply_pending(later);
            &&& r1 == (InsertResult::Pending { disconnected: m.members[0].key })
            &&& r2 == Some(AppliedPending { inserted: node.key, evicted: Some(m.members[0]) })
            &&& m2.members == m.members.subrange(1, m.members.len() as int).push(node)
            &&& m2.members.len() == MAX_NODES_PER_BUCKET
            &&& m2.status_of(m2.members.len() - 1) is Connected
            &&& forall|i: int|
                0 <= i < m2.members.len() - 1 ==> #[trigger] m2.status_of(i) == m.status_of(i + 1)
            &&& m2.pending is None
            &&& m2.wf()
        }),
{
}

/// Pending cancellation law: with a pending connected candidate outstanding,
/// promoting the position-0 member (the eviction target) to connected
/// discards the candidate, a subsequent application of pending state is a
/// no-op, and the promoted member has become the most-recently connected
/// one.
pub proof fn lemma_pending_cancellation<V>(m: BucketModel<V>, node: Node<V>, now: u64, later: u64)
    requires
        m.wf(),
        m.full(),
        m.status_of(0) is Disconnected,
        m.pending is None,
        now + m.timeout <= u64::MAX,
    ensures
        ({
            let (m1, r1) = m.insert(node, NodeStatus::Connected, now);
            let m2 = m1.update(m.members[0].key, NodeStatus::Connected);
            let (m3, r3) = m2.apply_pending(later);
            &&& r1 == (InsertResult::Pending { disconnected: m.members[0].key })
            &&& m1.pending is Some
            &&& m2.pending is None
            &&& r3 is None
            &&& m3 == m2
            &&& m2.members == m.members.subrange(1, m.members.len() as int).push(m.members[0])
            &&& m2.members.len() == MAX_NODES_PER_BUCKET
            &&& m2.status_of(m2.members.len() - 1) is Connected
            &&& forall|i: int|
                0 <= i < m2.members.len() - 1 ==> #[trigger] m2.status_of(i) == m.status_of(i + 1)
            &&& m2.wf()
        }),
{
    let (m1, r1) = m.insert(node, NodeStatus::Connected, now);
    let key = m.members[0].key;
    assert(m1.contains_key(key)) by {
        assert(m1.members[0].key == key);
    }
    let m2 = m1.update(key, NodeStatus::Connected);
    assert(m2.members =~= m.members.subrange(1, m.members.len() as int).push(m.members[0]));
}

} // verus!
