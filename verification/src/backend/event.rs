//! The signals the backend reacts to and the actions it asks for in return.

use vstd::prelude::*;

use crate::backend::output::OutputRecord;

verus! {

/// Whether the privileged session owns the display hardware at present.
#[derive(Clone, Copy, Debug, PartialEq, Eq, Hash, Structural)]
pub enum SessionState {
    Active,
    Paused,
}

/// A notification from the privileged session.
#[derive(Clone, Copy, Debug, PartialEq, Eq, Hash, Structural)]
pub enum SessionEvent {
    PauseSession,
    ActivateSession,
}

/// A notification from the hotplug subsystem.
#[derive(Clone, Copy, Debug, PartialEq, Eq, Hash, Structural)]
pub enum UdevEvent {
    Added { device_id: u64 },
    Changed { device_id: u64 },
    Removed { device_id: u64 },
}

/// A notification from a device's mode-setting event stream.
#[derive(Clone, Copy, Debug, PartialEq, Eq, Hash, Structural)]
pub enum DrmEvent {
    /// The frame submitted on this pipeline is now on screen.
    VBlank(u32),
    /// The hardware reported an error.
    Error,
}

/// Outside work that the backend asks its event loop to carry out.
#[derive(Clone, Copy, Debug, PartialEq, Eq, Hash)]
pub enum BackendAction {
    /// Open the device and set up its rendering context.
    ConstructDevice { node: u64 },
    /// Stop the device's mode-setting activity.
    PauseDevice { node: u64 },
    /// Take up the device's mode-setting activity again.
    ActivateDevice { node: u64 },
    /// Forget the swapchain's buffers: their contents may be stale.
    ResetBuffers { node: u64, crtc: u32 },
    /// Announce an output to clients and to window management.
    AdvertiseOutput { node: u64, crtc: u32, output: OutputRecord },
    /// Withdraw an output from window management.
    RetractOutput { node: u64, crtc: u32, output: OutputRecord },
    /// Remove the device's event source from the event loop.
    DeregisterEvents { node: u64 },
    /// Read the device's connectors and negotiate a surface for each.
    ScanConnectors { node: u64 },
    /// Tell every window the frame time of this output.
    NotifyFrame { node: u64, crtc: u32, output: OutputRecord },
    /// Arm a one-shot, immediate render trigger.
    ScheduleRender,
}

impl BackendAction {
    /// The device that the action refers to, if it refers to one.
    pub open spec fn node(&self) -> Option<u64> {
        match self {
            BackendAction::ConstructDevice { node } => Some(*node),
            BackendAction::PauseDevice { node } => Some(*node),
            BackendAction::ActivateDevice { node } => Some(*node),
            BackendAction::ResetBuffers { node, .. } => Some(*node),
            BackendAction::AdvertiseOutput { node, .. } => Some(*node),
            BackendAction::RetractOutput { node, .. } => Some(*node),
            BackendAction::DeregisterEvents { node } => Some(*node),
            BackendAction::ScanConnectors { node } => Some(*node),
            BackendAction::NotifyFrame { node, .. } => Some(*node),
            BackendAction::ScheduleRender => None,
        }
    }
}

} // verus!
