//! Core of a network telemetry node: a set of cooperatively scheduled tasks
//! that manage a wireless link, sample and normalize readings, publish
//! telemetry over a message-broker session, and render live status on a
//! small panel, all synchronized through a shared latest-value status bus.
//!
//! The decision logic of every task lives here with a proved contract; the
//! surrounding I/O (radio driver, transport, display panel) is handed plain
//! values by a thin runtime shell.

pub mod codec;
pub mod display;
pub mod payload;
pub mod publisher;
pub mod sampler;
pub mod status_bus;
pub mod temperature;
pub mod text;
pub mod wifi;
