//! The outside steps that can fail while the backend starts or while a GPU
//! is set up, and the single backend error that each failure surfaces as.

use vstd::prelude::*;

use crate::errors::CompositorError;

verus! {

/// A step of setting up one GPU, in the order the steps are taken.
#[derive(Clone, Copy, Debug, PartialEq, Eq, Hash, Structural)]
pub enum ConstructionStep {
    /// Resolving the device identifier to a mode-setting node.
    Node,
    /// Opening the device file with read and write access.
    Open,
    /// Creating the mode-setting handle.
    Drm,
    /// Creating the buffer allocator.
    Gbm,
    /// Creating the display of the rendering context.
    EglDisplay,
    /// Creating the rendering context.
    EglContext,
    /// Creating the renderer.
    Renderer,
    /// Registering the device's event stream with the event loop.
    EventSource,
}

/// A step of starting the backend, in the order the steps are taken.
#[derive(Clone, Copy, Debug, PartialEq, Eq, Hash, Structural)]
pub enum InitStage {
    /// Creating the privileged session.
    Session,
    /// Creating the hotplug monitor.
    UdevBackend,
    /// Assigning the seat to the input library.
    Seat,
    /// Registering the input source with the event loop.
    InputSource,
    /// Registering the session notifier with the event loop.
    SessionSource,
    /// Registering the hotplug monitor with the event loop.
    UdevSource,
}

/// A failed step of setting up a GPU, with the words of what failed.
#[derive(Clone, Debug, PartialEq, Eq)]
pub struct ConstructionFailure {
    pub step: ConstructionStep,
    pub detail: String,
}

/// The step that follows `step` when it has succeeded, if one is left.
pub open spec fn step_after(step: ConstructionStep) -> Option<ConstructionStep> {
    match step {
        ConstructionStep::Node => Some(ConstructionStep::Open),
        ConstructionStep::Open => Some(ConstructionStep::Drm),
        ConstructionStep::Drm => Some(ConstructionStep::Gbm),
        ConstructionStep::Gbm => Some(ConstructionStep::EglDisplay),
        ConstructionStep::EglDisplay => Some(ConstructionStep::EglContext),
        ConstructionStep::EglContext => Some(ConstructionStep::Renderer),
        ConstructionStep::Renderer => Some(ConstructionStep::EventSource),
        ConstructionStep::EventSource => None,
    }
}

impl ConstructionStep {
    /// The step that setting up a GPU begins with.
    pub fn first() -> (step: ConstructionStep)
        ensures
            step == ConstructionStep::Node,
    {
        ConstructionStep::Node
    }

    /// The step to take once this one has succeeded: the device file is
    /// opened first, then come the mode-setting handle, the buffer
    /// allocator and the rendering context, and the event stream is
    /// registered last.
    pub fn next(self) -> (r: Option<ConstructionStep>)
        ensures
            r == step_after(self),
    {
        match self {
            ConstructionStep::Node => Some(ConstructionStep::Open),
            ConstructionStep::Open => Some(ConstructionStep::Drm),
            ConstructionStep::Drm => Some(ConstructionStep::Gbm),
            ConstructionStep::Gbm => Some(ConstructionStep::EglDisplay),
            ConstructionStep::EglDisplay => Some(ConstructionStep::EglContext),
            ConstructionStep::EglContext => Some(ConstructionStep::Renderer),
            ConstructionStep::Renderer => Some(ConstructionStep::EventSource),
            ConstructionStep::EventSource => None,
        }
    }

    /// The text that introduces the detail of a failure at this step.
    pub open spec fn prefix(&self) -> Seq<char> {
        match self {
            ConstructionStep::Node => "failed to get DRM node: "@,
            ConstructionStep::Open => "failed to open device: "@,
            ConstructionStep::Drm => "failed to create DRM device: "@,
            ConstructionStep::Gbm => "failed to create GBM device: "@,
            ConstructionStep::EglDisplay => "failed to create EGL display: "@,
            ConstructionStep::EglContext => "failed to create EGL context: "@,
            ConstructionStep::Renderer => "failed to create GLES renderer: "@,
            ConstructionStep::EventSource => "failed to insert DRM notifier: "@,
        }
    }

    /// The backend error for a failure at this step.
    pub fn error(&self, detail: &str) -> (e: CompositorError)
        ensures
            e.is_backend(self.prefix() + detail@),
    {
        match self {
            ConstructionStep::Node => CompositorError::backend("failed to get DRM node: ", detail),
            ConstructionStep::Open => CompositorError::backend("failed to open device: ", detail),
            ConstructionStep::Drm => CompositorError::backend(
                "failed to create DRM device: ",
                detail,
            ),
            ConstructionStep::Gbm => CompositorError::backend(
                "failed to create GBM device: ",
                detail,
            ),
            ConstructionStep::EglDisplay => CompositorError::backend(
                "failed to create EGL display: ",
                detail,
            ),
            ConstructionStep::EglContext => CompositorError::backend(
                "failed to create EGL context: ",
                detail,
            ),
            ConstructionStep::Renderer => CompositorError::backend(
                "failed to create GLES renderer: ",
                detail,
            ),
            ConstructionStep::EventSource => CompositorError::backend(
                "failed to insert DRM notifier: ",
                detail,
            ),
        }
    }
}

impl InitStage {
    /// The detail text of a failure at this stage. A failed seat assignment
    /// reports no words of its own.
    pub open spec fn text(&self, detail: Seq<char>) -> Seq<char> {
        match self {
            InitStage::Session => "failed to create session: "@ + detail,
            InitStage::UdevBackend => "failed to create udev backend: "@ + detail,
            InitStage::Seat => "failed to assign seat to libinput"@,
            InitStage::InputSource => "failed to insert libinput: "@ + detail,
            InitStage::SessionSource => "failed to insert session notifier: "@ + detail,
            InitStage::UdevSource => "failed to insert udev: "@ + detail,
        }
    }

    /// The backend error for a failure at this stage.
    pub fn error(&self, detail: &str) -> (e: CompositorError)
        ensures
            e.is_backend(self.text(detail@)),
    {
        match self {
            InitStage::Session => CompositorError::backend("failed to create session: ", detail),
            InitStage::UdevBackend => CompositorError::backend(
                "failed to create udev backend: ",
                detail,
            ),
            InitStage::Seat => CompositorError::backend_text("failed to assign seat to libinput"),
            InitStage::InputSource => CompositorError::backend(
                "failed to insert libinput: ",
                detail,
            ),
            InitStage::SessionSource => CompositorError::backend(
                "failed to insert session notifier: ",
                detail,
            ),
            InitStage::UdevSource => CompositorError::backend("failed to insert udev: ", detail),
        }
    }
}

} // verus!
