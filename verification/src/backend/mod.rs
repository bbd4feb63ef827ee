//! The hardware output backend.

pub mod connector;
pub mod device;
pub mod event;
pub mod failure;
pub mod format;
pub mod laws;
pub mod output;
pub mod request;
pub mod surface;
pub mod udev;
