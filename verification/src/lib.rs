//! A partially-stateful streaming dataflow domain runtime.
//!
//! A *domain* is a single-threaded actor that owns a subgraph of dataflow
//! nodes. It consumes [`packet::Packet`]s from its input channel, routes data
//! updates through its nodes, maintains materialized state, backfills missing
//! state on demand through a tagged replay protocol, and orders transactional
//! packets by timestamp so that schema migrations interleave deterministically
//! with regular traffic.

pub mod addr;
pub mod backlog;
pub mod checktable;
pub mod data;
pub mod domain;
pub mod endpoint;
pub mod keyed;
pub mod packet;
pub mod replay;
pub mod state;
pub mod stats;
pub mod trace;
pub mod transactions;
