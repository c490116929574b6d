//! Core of a stratum mining-pool proxy: the share record codec, worker-name
//! validation, the correlation ids carried on upstream submits, and the two
//! protocol state machines (downstream workers and the upstream node).

pub mod correlation;
pub mod names;
pub mod producer;
pub mod proto;
pub mod registry;
pub mod server;
pub mod share;
pub mod text;
pub mod worker;
