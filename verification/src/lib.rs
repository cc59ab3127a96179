//! A terminal client for Kafka clusters: the configuration of contexts, clusters and users,
//! the client configuration that a context stands for, the state of the terminal interface
//! and its answers to key presses, and the reading of what a cluster reports about its
//! consumer groups and topics.
pub mod config;
pub mod error;
pub mod kafka;
pub mod string_map;
pub mod text;
pub mod topic;
pub mod tui;
