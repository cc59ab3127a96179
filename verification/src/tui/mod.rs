//! The terminal interface: its state, its answers to events and the layout of its screen.
pub mod app;
pub mod root;
pub mod traceroute;
