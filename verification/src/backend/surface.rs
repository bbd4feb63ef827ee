//! One scanout surface and its render scheduler: a machine with two states,
//! idle and pending, that is triggered to render and told when the hardware
//! has shown the frame.

use vstd::prelude::*;

use crate::backend::event::SessionState;
use crate::backend::output::{OutputRecord, Rectangle};

verus! {

/// The edge length of the cursor element in pixels.
pub const CURSOR_SIZE: i32 = 16;

/// Whether a surface has a frame in flight.
#[derive(Clone, Copy, Debug, PartialEq, Eq, Hash, Structural)]
pub enum FrameState {
    /// No frame is in flight.
    Idle,
    /// One frame is submitted and the hardware has not confirmed it yet.
    Pending,
}

/// One display output that is being driven.
#[derive(Clone, Copy, Debug, PartialEq, Eq, Hash)]
pub struct Surface {
    /// The hardware pipeline the surface is bound to.
    pub crtc: u32,
    /// The connector the surface scans out to.
    pub connector: u32,
    /// The logical output shared with window management.
    pub output: OutputRecord,
    /// Whether a frame is in flight.
    pub frame: FrameState,
    /// Whether the swapchain had to be created from the fallback subset.
    pub implicit_modifiers: bool,
}

/// The solid-colour square drawn at the pointer position, above the windows.
#[derive(Clone, Copy, Debug, PartialEq, Eq, Hash, Structural)]
pub struct CursorElement {
    pub x: i32,
    pub y: i32,
    pub size: i32,
}

/// What is composited in a pass.
#[derive(Clone, Copy, Debug, PartialEq, Eq, Hash, Structural)]
pub enum PassLayer {
    /// The content of window management, bottom window first.
    Windows,
    /// The cursor element.
    Cursor,
}

/// What one render pass is to do.
#[derive(Clone, Copy, Debug, PartialEq, Eq, Hash)]
pub struct RenderPass {
    /// The device that owns the surface.
    pub node: u64,
    /// The pipeline of the surface to render.
    pub crtc: u32,
    /// The output to composite the window stack for.
    pub output: OutputRecord,
    /// The region to submit as damaged: always the whole output.
    pub damage: Rectangle,
    /// The cursor element.
    pub cursor: CursorElement,
    /// What is composited, in order: the lower layer, then the upper one.
    pub layers: (PassLayer, PassLayer),
}

/// How a render pass ended.
#[derive(Clone, Copy, Debug, PartialEq, Eq, Hash, Structural)]
pub enum PassOutcome {
    /// The allocator had no buffer to hand out.
    AcquireFailed,
    /// The buffer could not be bound as a render target.
    BindFailed,
    /// Compositing failed.
    CompositeFailed,
    /// The rendered buffer could not be queued for presentation.
    SubmitFailed,
    /// The rendered buffer is queued for presentation.
    Submitted,
}

/// A step of a render pass, in the order the steps are taken.
#[derive(Clone, Copy, Debug, PartialEq, Eq, Hash, Structural)]
pub enum PassStep {
    /// Acquire the next buffer of the swapchain.
    Acquire,
    /// Bind the buffer as the render target.
    Bind,
    /// Composite the window stack, bottom to top, and the cursor above it.
    Composite,
    /// Submit the rendered buffer for presentation, with the damage.
    Submit,
}

/// How a pass goes on after a step.
#[derive(Clone, Copy, Debug, PartialEq, Eq, Hash, Structural)]
pub enum PassProgress {
    /// The next step to take.
    Next(PassStep),
    /// The pass is over.
    Done(PassOutcome),
}

/// How a pass goes on after `step`: a failed step ends the pass with the
/// failure of that step, a step that succeeded leads to the next one, and
/// the pass is submitted after its last step.
pub open spec fn progress_after(step: PassStep, succeeded: bool) -> PassProgress {
    match step {
        PassStep::Acquire => if succeeded {
            PassProgress::Next(PassStep::Bind)
        } else {
            PassProgress::Done(PassOutcome::AcquireFailed)
        },
        PassStep::Bind => if succeeded {
            PassProgress::Next(PassStep::Composite)
        } else {
            PassProgress::Done(PassOutcome::BindFailed)
        },
        PassStep::Composite => if succeeded {
            PassProgress::Next(PassStep::Submit)
        } else {
            PassProgress::Done(PassOutcome::CompositeFailed)
        },
        PassStep::Submit => if succeeded {
            PassProgress::Done(PassOutcome::Submitted)
        } else {
            PassProgress::Done(PassOutcome::SubmitFailed)
        },
    }
}

impl PassStep {
    /// The step a pass begins with.
    pub fn first() -> (step: PassStep)
        ensures
            step == PassStep::Acquire,
    {
        PassStep::Acquire
    }

    /// Decides how the pass goes on after this step.
    pub fn then_what(self, succeeded: bool) -> (r: PassProgress)
        ensures
            r == progress_after(self, succeeded),
    {
        match self {
            PassStep::Acquire => if succeeded {
                PassProgress::Next(PassStep::Bind)
            } else {
                PassProgress::Done(PassOutcome::AcquireFailed)
            },
            PassStep::Bind => if succeeded {
                PassProgress::Next(PassStep::Composite)
            } else {
                PassProgress::Done(PassOutcome::BindFailed)
            },
            PassStep::Composite => if succeeded {
                PassProgress::Next(PassStep::Submit)
            } else {
                PassProgress::Done(PassOutcome::CompositeFailed)
            },
            PassStep::Submit => if succeeded {
                PassProgress::Done(PassOutcome::Submitted)
            } else {
                PassProgress::Done(PassOutcome::SubmitFailed)
            },
        }
    }
}

/// A pass is submitted only after its last step, and only if that step
/// succeeded; a failure ends the pass at once.
pub proof fn lemma_pass_steps(step: PassStep, succeeded: bool)
    ensures
        progress_after(step, succeeded) == PassProgress::Done(PassOutcome::Submitted) <==> step
            is Submit && succeeded,
        !succeeded ==> progress_after(step, succeeded) is Done,
        succeeded && !(step is Submit) ==> progress_after(step, succeeded) is Next,
{
}

/// The frame state after a pass that started in `frame` ended with
/// `outcome`: a submitted frame is pending, anything else changes nothing.
pub open spec fn frame_after_pass(frame: FrameState, outcome: PassOutcome) -> FrameState {
    if frame is Idle && outcome is Submitted {
        FrameState::Pending
    } else {
        frame
    }
}

/// Whether a trigger starts a pass: only on an idle surface, and only while
/// the session is active.
pub open spec fn trigger_starts_pass(session: SessionState, frame: FrameState) -> bool {
    session is Active && frame is Idle
}

/// The pass for a surface of device `node` with the pointer at `pointer`.
pub open spec fn pass_of(node: u64, surface: Surface, pointer: (i32, i32)) -> RenderPass {
    RenderPass {
        node,
        crtc: surface.crtc,
        output: surface.output,
        damage: surface.output.mode.full_rectangle(),
        cursor: CursorElement { x: pointer.0, y: pointer.1, size: CURSOR_SIZE },
        layers: (PassLayer::Windows, PassLayer::Cursor),
    }
}

impl Surface {
    /// The surface as it is after a pass ended with `outcome`.
    pub open spec fn after_pass(self, outcome: PassOutcome) -> Surface {
        Surface { frame: frame_after_pass(self.frame, outcome), ..self }
    }

    /// The surface with no frame in flight.
    pub open spec fn idle(self) -> Surface {
        Surface { frame: FrameState::Idle, ..self }
    }

    /// Whether a render trigger starts a pass on this surface.
    pub fn should_render(&self, session: SessionState) -> (b: bool)
        ensures
            b == trigger_starts_pass(session, self.frame),
    {
        let active: bool = match session {
            SessionState::Active => true,
            SessionState::Paused => false,
        };
        let idle: bool = match self.frame {
            FrameState::Idle => true,
            FrameState::Pending => false,
        };
        active && idle
    }

    /// The pass to run for this surface: the windows are composited first
    /// and the cursor, at the pointer position, above them, and the whole
    /// output is submitted as damage.
    pub fn pass(&self, node: u64, pointer: (i32, i32)) -> (p: RenderPass)
        ensures
            p == pass_of(node, *self, pointer),
    {
        RenderPass {
            node,
            crtc: self.crtc,
            output: self.output,
            damage: self.output.mode.bounds(),
            cursor: CursorElement { x: pointer.0, y: pointer.1, size: CURSOR_SIZE },
            layers: (PassLayer::Windows, PassLayer::Cursor),
        }
    }

    /// Records how a pass ended: the surface is pending once its frame is
    /// submitted, and stays as it was, ready for the next trigger, after any
    /// failure. A surface that is pending already is left alone.
    pub fn finish_pass(&mut self, outcome: PassOutcome)
        ensures
            *final(self) == old(self).after_pass(outcome),
    {
        match (self.frame, outcome) {
            (FrameState::Idle, PassOutcome::Submitted) => {
                self.frame = FrameState::Pending;
            },
            _ => {},
        }
    }

    /// Records that the hardware has shown the submitted frame, or that the
    /// swapchain was reset: no frame is in flight any more.
    pub fn frame_completed(&mut self)
        ensures
            *final(self) == old(self).idle(),
    {
        self.frame = FrameState::Idle;
    }
}

/// A trigger on a pending surface starts no pass, whatever the session
/// state, and finishing a pass on a pending surface changes nothing:
/// triggers repeated while a frame is in flight are no-ops.
pub proof fn lemma_pending_ignores_triggers(
    surface: Surface,
    session: SessionState,
    outcome: PassOutcome,
)
    requires
        surface.frame is Pending,
    ensures
        !trigger_starts_pass(session, surface.frame),
        surface.after_pass(outcome) == surface,
{
}

/// A surface becomes pending only by a submitted pass from idle, and every
/// failed pass leaves it schedulable.
pub proof fn lemma_pass_outcomes(surface: Surface, outcome: PassOutcome)
    requires
        surface.frame is Idle,
    ensures
        outcome is Submitted ==> surface.after_pass(outcome).frame is Pending,
        !(outcome is Submitted) ==> surface.after_pass(outcome) == surface,
        surface.after_pass(outcome).idle() == surface,
{
}

} // verus!
