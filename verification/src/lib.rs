//! Fleet provisioning engine for a tagged cluster of cloud compute nodes.
//!
//! The library discovers tagged instances in a cloud inventory, classifies
//! them into cluster roles, and drives a fixed, ordered remote-provisioning
//! script across every discovered node, collecting one outcome per node.
//! Transport (the cloud API and the SSH sessions) is reached only through
//! narrow capability traits, so every decision the engine makes is stated
//! and proved here.

pub mod config;
pub mod fleet;
pub mod inventory;
pub mod node;
pub mod operator;
pub mod provision;
pub mod remote_command;
pub mod tags;
