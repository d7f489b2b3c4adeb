//! A network (TCP-only) throughput measurement tool: the verified core.
//!
//! The library holds the control protocol (messages, framing, envelopes),
//! the test life-cycle (stream accounting, controller decisions, server
//! admission) and the reporting arithmetic. Sockets, tasks and printing
//! live with the program that drives it.
pub mod client;
pub mod common;
pub mod controller;
pub mod server;
