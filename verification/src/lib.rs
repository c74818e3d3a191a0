//! Verified core of the Nexus network prover client.

pub mod digest;
pub mod keys;
pub mod prover;
pub mod proving_loop;
pub mod task;
pub mod task_pool;
pub mod text;
