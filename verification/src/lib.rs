//! Verified core of the NAINA OS services: event bus, microkernel supervisor,
//! runtime contexts, structured logging, memory store and task planning.
pub mod clock;
pub mod event_bus;
pub mod kernel;
pub mod keyed;
pub mod logging;
pub mod memory;
pub mod model;
pub mod orchestrator;
pub mod runtime;
pub mod text;
