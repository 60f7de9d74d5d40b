//! Telemetry bridge core: decodes air-quality readings published on a message
//! bus, stamps them with the wall-clock time and prepares the single-point
//! write that persists each of them to a time-series store.
//!
//! The crate holds the decisions of the ingest pipeline as verified functions
//! on plain values. Connections, tasks and sockets belong to the caller.

pub mod config;
pub mod handler;
pub mod json;
pub mod packet;
pub mod reading;
pub mod subscription;
