//! Decision logic of a display-server backend: format negotiation, connector
//! and pipeline assignment, the per-surface render scheduler and the session
//! and hotplug controller, each stated as a contract and proved.

pub mod action;
pub mod backend;
pub mod errors;
pub mod input;
pub mod layout;
pub mod lemmas;
pub mod protocols;
pub mod shell;
pub mod workspace;

pub use errors::CompositorError;
