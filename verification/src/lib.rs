//! Discovery and polling of the members of a Patroni cluster, and the projection
//! of their status reports onto gauges.
//!
//! The library makes no request itself. A round of polling is driven from
//! outside: an [`exporter::PollCycle`] says which request to make next and takes
//! its answer, until the round ends with the members that answered. The
//! [`supervisor::Supervisor`] takes the outcome of each round: it keeps the gauges,
//! says what to write to them, counts the failures in a row and gives up at the
//! fifth.

pub mod config;
pub mod consul;
pub mod etcd;
pub mod exporter;
pub mod gauges;
pub mod http;
pub mod ip;
pub mod json;
pub mod patroni;
pub mod patroni_local;
pub mod supervisor;
pub mod text;
