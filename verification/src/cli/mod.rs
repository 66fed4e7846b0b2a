//! Command-line arguments and output rendering.

pub mod args;
pub mod output;
