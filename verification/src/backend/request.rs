//! What the connector negotiator asks the hardware for: one swapchain on one
//! pipeline, with the formats that may be tried.

use vstd::prelude::*;

use crate::backend::connector::{ConnectorInfo, ModeInfo, Verdict};
use crate::backend::format::{format_codes, Format};
use crate::backend::output::{output_record_of, OutputRecord};
use crate::backend::surface::{FrameState, Surface};
use crate::errors::CompositorError;

verus! {

/// Which formats a swapchain creation is tried with.
#[derive(Clone, Copy, Debug, PartialEq, Eq, Hash, Structural)]
pub enum Attempt {
    /// The whole candidate list.
    Full,
    /// The fallback subset only.
    Implicit,
}

/// What the buffers of a swapchain are used for.
#[derive(Clone, Copy, Debug, PartialEq, Eq, Hash, Structural)]
pub struct BufferUsage {
    pub rendering: bool,
    pub scanout: bool,
}

/// Why the hardware could not create a swapchain.
#[derive(Clone, Copy, Debug, PartialEq, Eq, Hash, Structural)]
pub enum CreationFailure {
    /// The pipeline could not be reserved.
    Reservation,
    /// The pipeline was reserved but no buffers could be set up on it.
    Swapchain,
}

/// One request to create a swapchain. Each request is served against a
/// pipeline reservation of its own: the reservation of a failed request is
/// not used again.
#[derive(Clone, Debug, PartialEq, Eq)]
pub struct SurfaceRequest {
    /// The connector to scan out to.
    pub connector: u32,
    /// The pipeline to reserve.
    pub crtc: u32,
    /// The mode to set.
    pub mode: ModeInfo,
    /// The logical output that the surface will stand for.
    pub output: OutputRecord,
    /// Which formats are tried.
    pub attempt: Attempt,
    /// The formats to offer to the allocator, in order.
    pub formats: Vec<Format>,
    /// The fourcc codes of `formats`, entry by entry.
    pub codes: Vec<u32>,
    /// The usage to allocate the buffers for.
    pub usage: BufferUsage,
}

/// What the negotiator decided about one connector.
#[derive(Clone, Debug, PartialEq, Eq)]
pub enum ConnectorPlan {
    /// Nothing is attached: no surface, no error.
    Skip,
    /// Negotiation failed for this connector; the others are not affected.
    Fail(CompositorError),
    /// A swapchain is to be created.
    Create(SurfaceRequest),
}

/// A connector for which negotiation failed, by its position in the scan.
#[derive(Clone, Debug, PartialEq, Eq)]
pub struct ConnectorFailure {
    pub index: usize,
    pub error: CompositorError,
}

/// How far a scan got: the failures met on the way, and the first connector
/// that needs the hardware, if there is one.
#[derive(Clone, Debug, PartialEq, Eq)]
pub struct ScanStep {
    /// The connectors passed over with an error, in scan order.
    pub failures: Vec<ConnectorFailure>,
    /// Where the scan stopped: the position of the connector that `request`
    /// is for, or the number of connectors when the scan is complete.
    pub index: usize,
    /// The swapchain to create for the connector at `index`.
    pub request: Option<SurfaceRequest>,
}

impl SurfaceRequest {
    /// The request is for `connector` on `crtc` with `mode`, and offers
    /// `formats` for rendering and scanout.
    pub open spec fn is_for(
        &self,
        connector: &ConnectorInfo,
        crtc: u32,
        mode: ModeInfo,
        attempt: Attempt,
        formats: Seq<Format>,
    ) -> bool {
        &&& self.connector == connector.handle
        &&& self.crtc == crtc
        &&& self.mode == mode
        &&& self.output == output_record_of(connector, mode)
        &&& self.attempt == attempt
        &&& self.formats@ == formats
        &&& self.codes@ == format_codes(formats)
        &&& self.usage == (BufferUsage { rendering: true, scanout: true })
    }

    /// The request is `first` again, but with the fallback subset `implicit`.
    pub open spec fn is_fallback_of(&self, first: &SurfaceRequest, implicit: Seq<Format>) -> bool {
        &&& self.connector == first.connector
        &&& self.crtc == first.crtc
        &&& self.mode == first.mode
        &&& self.output == first.output
        &&& self.attempt == Attempt::Implicit
        &&& self.formats@ == implicit
        &&& self.codes@ == format_codes(implicit)
        &&& self.usage == first.usage
    }

    /// The surface that stands once this request has been served.
    pub open spec fn surface(&self) -> Surface {
        Surface {
            crtc: self.crtc,
            connector: self.connector,
            output: self.output,
            frame: FrameState::Idle,
            implicit_modifiers: self.attempt is Implicit,
        }
    }

    /// The surface that stands once this request has been served.
    pub fn to_surface(&self) -> (s: Surface)
        ensures
            s == self.surface(),
    {
        let implicit_modifiers: bool = match self.attempt {
            Attempt::Full => false,
            Attempt::Implicit => true,
        };
        Surface {
            crtc: self.crtc,
            connector: self.connector,
            output: self.output,
            frame: FrameState::Idle,
            implicit_modifiers,
        }
    }
}

impl ConnectorPlan {
    /// The plan carries out `verdict` for `connector` with the candidate
    /// list `formats`.
    pub open spec fn agrees(&self, verdict: Verdict, connector: &ConnectorInfo, formats: Seq<Format>) -> bool {
        match self {
            ConnectorPlan::Skip => verdict is Skip,
            ConnectorPlan::Fail(e) => verdict.is_failure() && e.is_backend(verdict.failure_text()),
            ConnectorPlan::Create(request) => match verdict {
                Verdict::Create { crtc, mode } => request.is_for(
                    connector,
                    crtc,
                    mode,
                    Attempt::Full,
                    formats,
                ),
                _ => false,
            },
        }
    }
}

/// The detail text of the error after a failed creation that is not tried
/// again: what failed, then the hardware's own words.
pub open spec fn creation_error_text(failure: CreationFailure, detail: Seq<char>) -> Seq<char> {
    match failure {
        CreationFailure::Reservation => "failed to create DRM surface: "@ + detail,
        CreationFailure::Swapchain => "failed to create GBM surface with implicit modifier: "@
            + detail,
    }
}

/// Whether a failed request is tried once more: only a first attempt whose
/// buffers could not be set up, and only if there is a fallback subset to
/// try.
pub open spec fn retries(attempt: Attempt, failure: CreationFailure, implicit: Seq<Format>) -> bool {
    attempt is Full && failure is Swapchain && implicit.len() > 0
}

} // verus!
