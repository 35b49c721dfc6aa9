//! Work partitioning and search scheduling over a large integer key space:
//! range partitions, candidate generation per search mode, checkpoints,
//! throughput counters and the decisions of each search worker.
pub mod bignum;
pub mod checkpoint;
pub mod derive;
pub mod partition;
pub mod patterns;
pub mod rng;
pub mod settings;
pub mod stats;
pub mod supervisor;
pub mod worker;
