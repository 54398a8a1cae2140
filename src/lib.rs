//! Core of an inspector for a publish/subscribe network: payload truncation
//! and rendering, the per-topic history cache, the topic tree and the
//! interaction state machine of the terminal dashboard.

pub mod text;
pub mod payload;
pub mod time;
pub mod topic;
pub mod history;
pub mod tree;
pub mod cli;
pub mod interactive;
pub mod footer;
