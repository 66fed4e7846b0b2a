//! Configuration resolution, request shaping and output rules of a
//! command-line tool for administering Apache Kafka clusters.

pub mod number;
pub mod sorting;
pub mod text;
pub mod cli;
pub mod client;
pub mod commands;
pub mod config;
