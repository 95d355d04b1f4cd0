//! Operation coordinator for rover telemetry submissions.
//!
//! The heart of the crate is [`coordinator::OperationCoordinator`], a
//! checkpointed saga that gates a telemetry submission on the device's
//! status, delegates image analysis to an external HTTP service, persists
//! the computed result, and records a progress checkpoint after every
//! stage.  The coordinator is a pure state machine: it decides, and it
//! hands the caller the outside work to perform (a cache write, a store
//! lookup, an HTTP call) together with the event it expects back.  All
//! decisions, the checkpoint text format, and the wire formats of the
//! analysis exchange are verified here; the I/O itself lives outside the
//! library.

pub mod analysis;
pub mod codec;
pub mod coordinator;
pub mod gateway;
pub mod numtext;
pub mod text;
pub mod types;
