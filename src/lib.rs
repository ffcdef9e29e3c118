//! Queue-monitoring core of a traffic-shaping control plane: decoding of
//! queueing-discipline snapshots, the registry of watched circuits, and the
//! store of web users.

pub mod text;
pub mod tc_handle;
pub mod wire;
pub mod fq_codel;
pub mod discipline;
pub mod watched_queues;
pub mod authentication;
