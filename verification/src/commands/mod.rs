//! The decisions and rules behind each command.

pub mod config;
pub mod config_laws;
pub mod consume;
pub mod group;
pub mod node;
pub mod produce;
pub mod topic;
