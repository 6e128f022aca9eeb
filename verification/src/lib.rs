//! Distribution of signed statements about parachain candidates among
//! validators: what each peer knows, what may be sent to it, what may be
//! accepted from it, and how its reputation moves. With it, the decisions
//! of the block proposer that waits for the provisioner's inherent data.
//!
//! The library does no input or output. It takes events and returns the
//! messages to be sent; every function states what it returns and how it
//! changes the state, over the mathematical content of the data.

pub mod active_head;
pub mod collections;
pub mod gossip;
pub mod ingress;
pub mod knowledge;
pub mod messages;
pub mod primitives;
pub mod proposer;
pub mod relay_view;
pub mod subsystem;
pub mod tracker;
pub mod wire;

pub use crate::proposer::{Error, Proposer};
pub use crate::subsystem::StatementDistribution;
