use std::collections::VecDeque;

use kbucket::bucket::AppliedPending;
use kbucket::bucket::InsertResult;
use kbucket::bucket::KBucket;
use kbucket::bucket::Key;
use kbucket::bucket::MAX_NODES_PER_BUCKET;
use kbucket::bucket::Node;
use kbucket::bucket::NodeStatus;

/// The boundary index of the bucket, recovered from the public counters.
fn first_connected_pos_of(bucket: &KBucket<()>) -> Option<usize> {
    if bucket.num_connected() == 0 {
        None
    } else {
        Some(bucket.num_entries() - bucket.num_connected())
    }
}

fn fill_bucket(bucket: &mut KBucket<()>, status: NodeStatus, start: u64) {
    for i in 0..MAX_NODES_PER_BUCKET - bucket.num_entries() {
        let key = Key::new(start + i as u64);
        let node = Node { key, value: () };
        assert_eq!(InsertResult::Inserted, bucket.insert(node, status, 0));
        assert_eq!(bucket.num_entries(), i + 1);
    }
    assert!(bucket.pending().is_none());
}

fn ordering_prop(statuses: Vec<NodeStatus>) -> bool {
    let mut bucket = KBucket::<()>::new(1);

    // The expected lists of connected and disconnected nodes.
    let mut connected = VecDeque::new();
    let mut disconnected = VecDeque::new();

    // Fill the bucket, thereby populating the expected lists in insertion order.
    let mut id = 0u64;
    for status in statuses {
        let key = Key::new(id);
        id += 1;
        let node = Node { key, value: () };
        let full = bucket.num_entries() == MAX_NODES_PER_BUCKET;
        match bucket.insert(node, status, 0) {
            InsertResult::Inserted => {
                let vec = match status {
                    NodeStatus::Connected => &mut connected,
                    NodeStatus::Disconnected => &mut disconnected,
                };
                if full {
                    vec.pop_front();
                }
                vec.push_back((status, key));
            }
            _ => {}
        }
    }

    // Get all nodes from the bucket, together with their status.
    let mut nodes = bucket
        .iter()
        .into_iter()
        .map(|(n, s)| (s, n.key))
        .collect::<Vec<_>>();

    // Split the list of nodes at the first connected node.
    let first_connected_pos = nodes.iter().position(|(s, _)| *s == NodeStatus::Connected);
    assert_eq!(first_connected_pos_of(&bucket), first_connected_pos);
    let tail = first_connected_pos.map_or(Vec::new(), |p| nodes.split_off(p));

    // All nodes before the first connected node must be disconnected and
    // in insertion order. Similarly, all remaining nodes must be connected
    // and in insertion order.
    nodes == Vec::from(disconnected) && tail == Vec::from(connected)
}

#[test]
fn ordering() {
    let c = NodeStatus::Connected;
    let d = NodeStatus::Disconnected;
    assert!(ordering_prop(vec![]));
    assert!(ordering_prop(vec![c]));
    assert!(ordering_prop(vec![d]));
    assert!(ordering_prop(vec![c, d, c, c, d, d, c, d, c, c]));
    assert!(ordering_prop(vec![d; 25]));
    assert!(ordering_prop(vec![c; 25]));
    let mut thirds = Vec::new();
    for i in 0..30 {
        thirds.push(if i % 3 == 0 { c } else { d });
    }
    assert!(ordering_prop(thirds));
    let mut alternating = Vec::new();
    for i in 0..24 {
        alternating.push(if i % 2 == 0 { d } else { c });
    }
    assert!(ordering_prop(alternating));
}

#[test]
fn full_bucket() {
    let mut bucket = KBucket::<()>::new(1);

    // Fill the bucket with disconnected nodes.
    fill_bucket(&mut bucket, NodeStatus::Disconnected, 0);

    // Trying to insert another disconnected node fails.
    let node = Node { key: Key::new(100), value: () };
    match bucket.insert(node, NodeStatus::Disconnected, 0) {
        InsertResult::Full => {}
        x => panic!("{:?}", x),
    }

    // One-by-one fill the bucket with connected nodes, replacing the disconnected ones.
    for i in 0..MAX_NODES_PER_BUCKET {
        let (first, first_status) = bucket.iter()[0];
        assert_eq!(first_status, NodeStatus::Disconnected);
        let first_disconnected = first.clone();

        // Add a connected node, which is expected to be pending, scheduled to
        // replace the first (i.e. least-recently updated) node.
        let key = Key::new(200 + i as u64);
        let node = Node { key, value: () };
        match bucket.insert(node.clone(), NodeStatus::Connected, 0) {
            InsertResult::Pending { disconnected } => {
                assert_eq!(disconnected, first_disconnected.key)
            }
            x => panic!("{:?}", x),
        }

        // Trying to insert another connected node fails.
        match bucket.insert(node.clone(), NodeStatus::Connected, 0) {
            InsertResult::Full => {}
            x => panic!("{:?}", x),
        }

        assert!(bucket.pending().is_some());

        // Apply the pending node.
        let pending = bucket.pending_mut().expect("No pending node.");
        pending.set_ready_at(0);
        let result = bucket.apply_pending(0);
        assert_eq!(
            result,
            Some(AppliedPending {
                inserted: key,
                evicted: Some(first_disconnected)
            })
        );
        assert_eq!(Some((&node, NodeStatus::Connected)), bucket.iter().last().copied());
        assert!(bucket.pending().is_none());
        assert_eq!(
            Some(MAX_NODES_PER_BUCKET - (i + 1)),
            first_connected_pos_of(&bucket)
        );
    }

    assert!(bucket.pending().is_none());
    assert_eq!(MAX_NODES_PER_BUCKET, bucket.num_entries());

    // Trying to insert another connected node fails.
    let node = Node { key: Key::new(300), value: () };
    match bucket.insert(node, NodeStatus::Connected, 0) {
        InsertResult::Full => {}
        x => panic!("{:?}", x),
    }
}

#[test]
fn full_bucket_discard_pending() {
    let mut bucket = KBucket::<()>::new(1);
    fill_bucket(&mut bucket, NodeStatus::Disconnected, 0);
    let first_disconnected = bucket.iter()[0].0.clone();

    // Add a connected pending node.
    let key = Key::new(100);
    let node = Node { key, value: () };
    if let InsertResult::Pending { disconnected } = bucket.insert(node, NodeStatus::Connected, 0) {
        assert_eq!(disconnected, first_disconnected.key);
    } else {
        panic!()
    }
    assert!(bucket.pending().is_some());

    // Update the status of the first disconnected node to be connected.
    bucket.update(&first_disconnected.key, NodeStatus::Connected);

    // The pending node has been discarded.
    assert!(bucket.pending().is_none());
    assert!(bucket.iter().iter().all(|(n, _)| n.key != key));

    // The initially disconnected node is now the most-recently connected.
    assert_eq!(
        Some((&first_disconnected, NodeStatus::Connected)),
        bucket.iter().last().copied()
    );
    assert_eq!(
        bucket.position(&first_disconnected.key).map(|p| p.0),
        first_connected_pos_of(&bucket)
    );
    assert_eq!(1, bucket.num_connected());
    assert_eq!(MAX_NODES_PER_BUCKET - 1, bucket.num_disconnected());

    // A subsequent application of pending state is a no-op.
    assert_eq!(None, bucket.apply_pending(u64::MAX));
}
