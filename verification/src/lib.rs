//! A verified core for a real-time network traffic telemetry pipeline.
//!
//! The library owns the logic of the pipeline: building packet events out
//! of captured link-layer frames, the statistics aggregator with its
//! sliding rate window and address-frequency tables, the message protocol
//! that carries packet events and queries to the aggregator, and the
//! drop-tolerant throttled sink for diagnostic text. The surrounding
//! process (capture loop, threads, HTTP facade) lives outside and talks
//! to the library through plain values and channels.

pub mod mailbox;
pub mod packet_reciever;
pub mod render;
pub mod statistics;
pub mod webservice;
