//! Verified core of a virtual network printer: the job model, a bounded job
//! queue, the job processor's lifecycle state machine and the protocol
//! dispatcher that turns requests into calls on the processor, with the
//! wire encoding of requests and responses.
//!
//! Around that core: the backend's configuration, the printer's interface on
//! the desktop bus, the messages between backend and preview, the preview's
//! settings and toolbar, page rotation, and the plugin registries.

pub mod error;
pub mod job;
pub mod queue;
pub mod processor;
pub mod ipp;
pub mod dispatch;
pub mod config;
pub mod document;
pub mod layout;
pub mod message;
pub mod printer;
pub mod settings;
pub mod toolbar;
pub mod plugin;
pub mod loader;
