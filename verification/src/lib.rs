//! A Kademlia-style routing bucket ("k-bucket").
//!
//! A bucket holds up to [`bucket::MAX_NODES_PER_BUCKET`] member nodes, ordered
//! from least-recently to most-recently updated within each status class:
//! the disconnected members form a prefix of the list and the connected
//! members form its suffix. The boundary between the two classes is the only
//! place a member's status is recorded; it is never stored per node.
//!
//! A full bucket admits a new connected member only through a timed
//! pending-replacement protocol that threatens to evict the stalest
//! disconnected member. The bucket reads no clock of its own: every
//! time-dependent operation takes the current time as an argument.

pub mod bucket;
pub mod model;
pub mod laws;
