//! Ingestion and serving of a periodic sensor stream.
//!
//! A raw stream of temperature and humidity readings is thinned to one
//! sample per minute, stamped with the time of acceptance, and kept in a
//! bounded store from which the latest sample and a bounded history are
//! served.

mod clock;
pub mod cors;
pub mod downsample;
pub mod ingest;
pub mod query;
pub mod sample;
pub mod store;
pub mod supervisor;
