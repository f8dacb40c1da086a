//! The behavioural core of the Real-Time Publish Subscribe protocol: bounded
//! history caches, the per-peer proxy state kept by reliable writers and
//! readers, and the state machines that drive heartbeat, acknack and gap
//! exchange between them.

pub mod error;
pub mod history_cache;
pub mod messages;
pub mod qos;
pub mod reader;
pub mod reader_proxy;
pub mod sequence_set;
pub mod stateless_writer;
pub mod structure;
pub mod topic;
pub mod udp;
pub mod writer;
pub mod writer_proxy;
