//! One GPU: its format candidates and the scanout surfaces that drive its
//! displays, each bound to a hardware pipeline of its own.

use vstd::prelude::*;

use crate::backend::connector::{
    bound_crtc, chosen_crtc, chosen_encoder, connector_verdict, crtc_fits, is_eligible,
    is_first_eligible, lemma_first_eligible_unique, select_mode, ConnectorInfo, ModeInfo,
    ResourceHandles, Verdict,
};
use crate::backend::event::{BackendAction, SessionState};
use crate::backend::format::{
    candidate_formats, codes_of, implicit_formats, is_usable, negotiate_formats, Format,
    FormatCandidates,
};
use crate::backend::output::OutputRecord;
use crate::backend::request::{
    creation_error_text, retries, Attempt, BufferUsage, ConnectorFailure, ConnectorPlan,
    CreationFailure, ScanStep, SurfaceRequest,
};
use crate::backend::surface::{pass_of, trigger_starts_pass, PassOutcome, RenderPass, Surface};
use crate::errors::CompositorError;
use crate::lemmas::{lemma_filter_take_ends, lemma_filter_take_step};

verus! {

/// One GPU.
#[derive(Debug)]
pub struct Device {
    node: u64,
    candidates: FormatCandidates,
    surfaces: Vec<Surface>,
}

/// A device as a mathematical value.
pub struct DeviceView {
    /// The stable hardware identifier.
    pub node: u64,
    /// The format candidate list.
    pub formats: Seq<Format>,
    /// The fallback subset of the candidate list.
    pub implicit: Seq<Format>,
    /// The scanout surfaces, in the order they were registered.
    pub surfaces: Seq<Surface>,
}

impl DeviceView {
    /// A device without surfaces, with the candidates negotiated from
    /// `capabilities`.
    pub open spec fn fresh(node: u64, capabilities: Seq<Format>) -> DeviceView {
        DeviceView {
            node,
            formats: candidate_formats(capabilities),
            implicit: implicit_formats(candidate_formats(capabilities)),
            surfaces: Seq::<Surface>::empty(),
        }
    }

    /// No two surfaces share a pipeline, and the format lists are those of a
    /// negotiation.
    pub open spec fn wf(self) -> bool {
        &&& self.implicit == implicit_formats(self.formats)
        &&& forall|i: int| 0 <= i < self.formats.len() ==> is_usable(#[trigger] self.formats[i])
        &&& forall|i: int, j: int|
            0 <= i < j < self.surfaces.len() ==> (#[trigger] self.surfaces[i]).crtc != (
            #[trigger] self.surfaces[j]).crtc
    }

    /// The pipelines that surfaces have claimed, surface by surface.
    pub open spec fn claimed(self) -> Seq<u32> {
        self.surfaces.map_values(|s: Surface| s.crtc)
    }

    /// Whether a surface is bound to `crtc`.
    pub open spec fn claims(self, crtc: u32) -> bool {
        exists|i: int| 0 <= i < self.surfaces.len() && (#[trigger] self.surfaces[i]).crtc == crtc
    }

    /// `i` is the position of the surface bound to `crtc`.
    pub open spec fn is_surface_at(self, crtc: u32, i: int) -> bool {
        0 <= i < self.surfaces.len() && self.surfaces[i].crtc == crtc
    }

    /// The device once `surface` is registered: it takes the place of the
    /// surface bound to its pipeline, or comes last if the pipeline was free.
    pub open spec fn with_surface(self, surface: Surface) -> DeviceView {
        if self.claims(surface.crtc) {
            DeviceView {
                surfaces: self.surfaces.map_values(
                    |s: Surface|
                        if s.crtc == surface.crtc {
                            surface
                        } else {
                            s
                        },
                ),
                ..self
            }
        } else {
            DeviceView { surfaces: self.surfaces.push(surface), ..self }
        }
    }

    /// The device once the hardware has shown the frame on `crtc`.
    pub open spec fn completed(self, crtc: u32) -> DeviceView {
        DeviceView {
            surfaces: self.surfaces.map_values(
                |s: Surface|
                    if s.crtc == crtc {
                        s.idle()
                    } else {
                        s
                    },
            ),
            ..self
        }
    }

    /// The device once a pass on `crtc` has ended with `outcome`.
    pub open spec fn pass_finished(self, crtc: u32, outcome: PassOutcome) -> DeviceView {
        DeviceView {
            surfaces: self.surfaces.map_values(
                |s: Surface|
                    if s.crtc == crtc {
                        s.after_pass(outcome)
                    } else {
                        s
                    },
            ),
            ..self
        }
    }

    /// The device once every swapchain has been reset.
    pub open spec fn reset(self) -> DeviceView {
        DeviceView { surfaces: self.surfaces.map_values(|s: Surface| s.idle()), ..self }
    }

    /// The passes that a render trigger starts: one for each surface that
    /// the trigger applies to, in surface order.
    pub open spec fn passes(self, session: SessionState, pointer: (i32, i32)) -> Seq<RenderPass> {
        self.surfaces.filter(|s: Surface| trigger_starts_pass(session, s.frame)).map_values(
            |s: Surface| pass_of(self.node, s, pointer),
        )
    }

    /// One swapchain reset for each surface, in surface order.
    pub open spec fn reset_actions(self) -> Seq<BackendAction> {
        self.surfaces.map_values(
            |s: Surface| BackendAction::ResetBuffers { node: self.node, crtc: s.crtc },
        )
    }

    /// What tearing the device down takes: every output is withdrawn, in
    /// surface order, and only then is the event source removed.
    pub open spec fn teardown_actions(self) -> Seq<BackendAction> {
        self.surfaces.map_values(
            |s: Surface|
                BackendAction::RetractOutput { node: self.node, crtc: s.crtc, output: s.output },
        ).push(BackendAction::DeregisterEvents { node: self.node })
    }

    /// The verdict on the connector at `i` of a scan.
    pub open spec fn verdict_at(self, crtcs: Seq<u32>, connectors: Seq<ConnectorInfo>, i: int) -> Verdict {
        connector_verdict(crtcs, self.claimed(), &connectors[i])
    }

    /// A scan from `start` stops at `stop`: at the first connector that a
    /// surface is to be created for, or at the end of the list.
    pub open spec fn is_scan_stop(
        self,
        crtcs: Seq<u32>,
        connectors: Seq<ConnectorInfo>,
        start: int,
        stop: int,
    ) -> bool {
        &&& start <= stop <= connectors.len()
        &&& forall|j: int|
            start <= j < stop ==> !(#[trigger] self.verdict_at(crtcs, connectors, j) is Create)
        &&& stop < connectors.len() ==> self.verdict_at(crtcs, connectors, stop) is Create
    }

    /// The positions from `start` up to `stop` at which negotiation fails,
    /// in order.
    pub open spec fn failed_between(
        self,
        crtcs: Seq<u32>,
        connectors: Seq<ConnectorInfo>,
        start: int,
        stop: int,
    ) -> Seq<int>
        decreases stop - start,
    {
        if stop <= start {
            Seq::<int>::empty()
        } else {
            let rest = self.failed_between(crtcs, connectors, start, stop - 1);
            if self.verdict_at(crtcs, connectors, stop - 1).is_failure() {
                rest.push(stop - 1)
            } else {
                rest
            }
        }
    }

    /// `step` is what a scan of `connectors` from `start` comes to.
    pub open spec fn scanned(
        self,
        step: ScanStep,
        crtcs: Seq<u32>,
        connectors: Seq<ConnectorInfo>,
        start: int,
    ) -> bool {
        let failed = self.failed_between(crtcs, connectors, start, step.index as int);
        &&& start <= connectors.len() ==> self.is_scan_stop(
            crtcs,
            connectors,
            start,
            step.index as int,
        )
        &&& start > connectors.len() ==> step.index == start
        &&& step.request is Some <==> step.index < connectors.len()
        &&& step.request matches Some(request) ==> match self.verdict_at(
            crtcs,
            connectors,
            step.index as int,
        ) {
            Verdict::Create { crtc, mode } => request.is_for(
                &connectors[step.index as int],
                crtc,
                mode,
                Attempt::Full,
                self.formats,
            ),
            _ => false,
        }
        &&& step.failures@.len() == failed.len()
        &&& forall|k: int|
            0 <= k < failed.len() ==> {
                &&& (#[trigger] step.failures@[k]).index == failed[k]
                &&& step.failures@[k].error.is_backend(
                    self.verdict_at(crtcs, connectors, failed[k]).failure_text(),
                )
            }
    }
}

/// Registering a surface keeps the pipelines of a device pairwise distinct.
pub proof fn lemma_with_surface_wf(view: DeviceView, surface: Surface)
    requires
        view.wf(),
    ensures
        view.with_surface(surface).wf(),
        view.with_surface(surface).claims(surface.crtc),
{
    let after = view.with_surface(surface);
    if view.claims(surface.crtc) {
        let i = choose|i: int| 0 <= i < view.surfaces.len() && (#[trigger] view.surfaces[i]).crtc == surface.crtc;
        assert(after.surfaces[i].crtc == surface.crtc);
        assert forall|a: int, b: int| 0 <= a < b < after.surfaces.len() implies (
        #[trigger] after.surfaces[a]).crtc != (#[trigger] after.surfaces[b]).crtc by {
            assert(after.surfaces[a].crtc == view.surfaces[a].crtc);
            assert(after.surfaces[b].crtc == view.surfaces[b].crtc);
        }
    } else {
        assert(after.surfaces[view.surfaces.len() as int].crtc == surface.crtc);
    }
}

/// Frame-state changes touch no pipeline binding: the device stays well
/// formed through completions, passes and resets.
pub proof fn lemma_frame_changes_wf(view: DeviceView, crtc: u32, outcome: PassOutcome)
    requires
        view.wf(),
    ensures
        view.completed(crtc).wf(),
        view.pass_finished(crtc, outcome).wf(),
        view.reset().wf(),
        view.completed(crtc).claimed() == view.claimed(),
        view.pass_finished(crtc, outcome).claimed() == view.claimed(),
        view.reset().claimed() == view.claimed(),
{
    let a = view.completed(crtc);
    let b = view.pass_finished(crtc, outcome);
    let c = view.reset();
    assert forall|i: int, j: int| 0 <= i < j < view.surfaces.len() implies (#[trigger] a.surfaces[i]).crtc
        != (#[trigger] a.surfaces[j]).crtc && (#[trigger] b.surfaces[i]).crtc != (
    #[trigger] b.surfaces[j]).crtc && (#[trigger] c.surfaces[i]).crtc != (
    #[trigger] c.surfaces[j]).crtc by {
        assert(a.surfaces[i].crtc == view.surfaces[i].crtc);
        assert(a.surfaces[j].crtc == view.surfaces[j].crtc);
        assert(b.surfaces[i].crtc == view.surfaces[i].crtc);
        assert(b.surfaces[j].crtc == view.surfaces[j].crtc);
        assert(c.surfaces[i].crtc == view.surfaces[i].crtc);
        assert(c.surfaces[j].crtc == view.surfaces[j].crtc);
    }
    assert(a.claimed() =~= view.claimed());
    assert(b.claimed() =~= view.claimed());
    assert(c.claimed() =~= view.claimed());
}

/// A pipeline is in the list of claimed pipelines exactly when a surface is
/// bound to it.
pub proof fn lemma_claimed_contains(view: DeviceView, crtc: u32)
    ensures
        view.claimed().contains(crtc) <==> view.claims(crtc),
{
    if view.claimed().contains(crtc) {
        let i = choose|i: int| 0 <= i < view.claimed().len() && view.claimed()[i] == crtc;
        assert(view.surfaces[i].crtc == crtc);
    }
    if view.claims(crtc) {
        let i = choose|i: int| 0 <= i < view.surfaces.len() && (#[trigger] view.surfaces[i]).crtc == crtc;
        assert(view.claimed()[i] == crtc);
    }
}

impl View for Device {
    type V = DeviceView;

    closed spec fn view(&self) -> DeviceView {
        DeviceView {
            node: self.node,
            formats: self.candidates.formats@,
            implicit: self.candidates.implicit@,
            surfaces: self.surfaces@,
        }
    }
}

impl Device {
    /// The device is well formed.
    pub open spec fn wf(&self) -> bool {
        self@.wf()
    }

    /// A device without surfaces, whose format candidates are negotiated
    /// from the capability set that its rendering context advertises.
    pub fn new(node: u64, capabilities: &Vec<Format>) -> (d: Device)
        ensures
            d.wf(),
            d@ == DeviceView::fresh(node, capabilities@),
    {
        Device { node, candidates: negotiate_formats(capabilities), surfaces: Vec::new() }
    }

    /// The stable hardware identifier.
    pub fn node(&self) -> (node: u64)
        ensures
            node == self@.node,
    {
        self.node
    }

    /// The format candidates.
    pub fn candidates(&self) -> (c: &FormatCandidates)
        ensures
            c.formats@ == self@.formats,
            c.implicit@ == self@.implicit,
    {
        &self.candidates
    }

    /// The scanout surfaces, in the order they were registered.
    pub fn surfaces(&self) -> (s: &Vec<Surface>)
        ensures
            s@ == self@.surfaces,
    {
        &self.surfaces
    }

    /// The position of the surface bound to `crtc`, if there is one.
    pub fn surface_index(&self, crtc: u32) -> (r: Option<usize>)
        ensures
            r is None <==> !self@.claims(crtc),
            r matches Some(i) ==> self@.is_surface_at(crtc, i as int) && forall|j: int|
                0 <= j < i ==> (#[trigger] self@.surfaces[j]).crtc != crtc,
    {
        let mut i: usize = 0;
        while i < self.surfaces.len()
            invariant
                i <= self.surfaces.len(),
                forall|j: int| 0 <= j < i ==> (#[trigger] self.surfaces@[j]).crtc != crtc,
            decreases self.surfaces.len() - i,
        {
            if self.surfaces[i].crtc == crtc {
                return Some(i);
            }
            i += 1;
        }
        None
    }

    /// Whether a surface is bound to `crtc`.
    pub fn claims(&self, crtc: u32) -> (b: bool)
        ensures
            b == self@.claims(crtc),
            b == self@.claimed().contains(crtc),
    {
        proof {
            lemma_claimed_contains(self@, crtc);
        }
        self.surface_index(crtc).is_some()
    }

    /// Whether `crtc` is one of the pipelines in `crtcs`.
    fn lists(crtcs: &Vec<u32>, crtc: u32) -> (b: bool)
        ensures
            b == crtcs@.contains(crtc),
    {
        let mut i: usize = 0;
        while i < crtcs.len()
            invariant
                i <= crtcs.len(),
                forall|j: int| 0 <= j < i ==> crtcs@[j] != crtc,
            decreases crtcs.len() - i,
        {
            if crtcs[i] == crtc {
                return true;
            }
            i += 1;
        }
        false
    }

    /// Resolves the hardware pipeline for a connector: the pipeline that the
    /// connector's present encoder is bound to if that is still free,
    /// otherwise the first pipeline of the device that fits the encoder and
    /// that no surface has claimed.
    pub fn find_crtc_for_connector(&self, resources: &ResourceHandles, connector: &ConnectorInfo) -> (r:
        Result<u32, CompositorError>)
        ensures
            match r {
                Ok(crtc) => chosen_crtc(resources.crtcs@, self@.claimed(), connector) == Some(crtc)
                    && resources.crtcs@.contains(crtc) && !self@.claims(crtc),
                Err(e) => chosen_crtc(resources.crtcs@, self@.claimed(), connector) is None
                    && e.is_backend(
                    if chosen_encoder(connector) is None {
                        Verdict::NoEncoder.failure_text()
                    } else {
                        Verdict::NoCrtc.failure_text()
                    },
                ),
            },
    {
        let ghost crtcs = resources.crtcs@;
        let ghost claimed = self@.claimed();
        let encoder = match connector.current_encoder {
            Some(e) => e,
            None => {
                if connector.encoders.len() > 0 {
                    connector.encoders[0]
                } else {
                    return Err(CompositorError::backend_text("no encoder found"));
                }
            },
        };
        if let Some(e) = connector.current_encoder {
            if let Some(c) = e.crtc {
                if Self::lists(&resources.crtcs, c) && !self.claims(c) {
                    return Ok(c);
                }
            }
        }
        let mut i: usize = 0;
        while i < resources.crtcs.len()
            invariant
                i <= resources.crtcs.len(),
                crtcs == resources.crtcs@,
                claimed == self@.claimed(),
                chosen_encoder(connector) == Some(encoder),
                bound_crtc(crtcs, claimed, connector) is None,
                forall|j: int| 0 <= j < i ==> !is_eligible(crtcs, encoder.possible_crtcs, claimed, j),
            decreases resources.crtcs.len() - i,
        {
            let crtc: u32 = resources.crtcs[i];
            if crtc_fits(encoder.possible_crtcs, i) && !self.claims(crtc) {
                proof {
                    assert(is_first_eligible(crtcs, encoder.possible_crtcs, claimed, i as int));
                    let c = choose|c: int| is_first_eligible(crtcs, encoder.possible_crtcs, claimed, c);
                    lemma_first_eligible_unique(crtcs, encoder.possible_crtcs, claimed, i as int, c);
                }
                return Ok(crtc);
            }
            i += 1;
        }
        Err(CompositorError::backend_text("no available pipeline"))
    }
}

/// A copy of a list of formats.
fn copy_formats(formats: &Vec<Format>) -> (copy: Vec<Format>)
    ensures
        copy@ == formats@,
{
    let mut copy: Vec<Format> = Vec::new();
    let mut i: usize = 0;
    while i < formats.len()
        invariant
            i <= formats.len(),
            copy@ == formats@.take(i as int),
        decreases formats.len() - i,
    {
        copy.push(formats[i]);
        i += 1;
    }
    copy
}

impl Device {
    /// Decides what is to be done about one connector: nothing if no display
    /// is attached; otherwise a mode and a pipeline are chosen and a
    /// swapchain is requested with the whole candidate list, for rendering
    /// and scanout. A connector without a mode, an encoder or a free
    /// pipeline fails on its own account.
    pub fn plan_connector(&self, resources: &ResourceHandles, connector: &ConnectorInfo) -> (plan:
        ConnectorPlan)
        ensures
            plan.agrees(
                connector_verdict(resources.crtcs@, self@.claimed(), connector),
                connector,
                self@.formats,
            ),
    {
        if !connector.connected {
            return ConnectorPlan::Skip;
        }
        let mode: ModeInfo = match select_mode(&connector.modes) {
            Some(mode) => mode,
            None => {
                return ConnectorPlan::Fail(
                    CompositorError::backend_text("no mode found for connector"),
                );
            },
        };
        let crtc: u32 = match self.find_crtc_for_connector(resources, connector) {
            Ok(crtc) => crtc,
            Err(e) => {
                return ConnectorPlan::Fail(e);
            },
        };
        let formats: Vec<Format> = copy_formats(&self.candidates.formats);
        let codes: Vec<u32> = codes_of(&formats);
        ConnectorPlan::Create(
            SurfaceRequest {
                connector: connector.handle,
                crtc,
                mode,
                output: OutputRecord::for_connector(connector, mode),
                attempt: Attempt::Full,
                formats,
                codes,
                usage: BufferUsage { rendering: true, scanout: true },
            },
        )
    }

    /// Scans the connectors from position `start` on, up to the first one
    /// that a surface is to be created for. Connectors without a display are
    /// passed over; one for which negotiation fails is recorded with its
    /// error and does not stop the scan.
    pub fn scan_connectors(
        &self,
        resources: &ResourceHandles,
        connectors: &Vec<ConnectorInfo>,
        start: usize,
    ) -> (step: ScanStep)
        ensures
            self@.scanned(step, resources.crtcs@, connectors@, start as int),
    {
        let ghost crtcs = resources.crtcs@;
        let mut failures: Vec<ConnectorFailure> = Vec::new();
        let mut i: usize = start;
        while i < connectors.len()
            invariant
                start <= i,
                start <= connectors.len() ==> i <= connectors.len(),
                start > connectors.len() ==> i == start,
                crtcs == resources.crtcs@,
                forall|j: int|
                    start <= j < i ==> !(#[trigger] self@.verdict_at(crtcs, connectors@, j) is Create),
                failures@.len() == self@.failed_between(crtcs, connectors@, start as int, i as int).len(),
                forall|k: int|
                    0 <= k < failures@.len() ==> {
                        &&& (#[trigger] failures@[k]).index == self@.failed_between(
                            crtcs,
                            connectors@,
                            start as int,
                            i as int,
                        )[k]
                        &&& failures@[k].error.is_backend(
                            self@.verdict_at(
                                crtcs,
                                connectors@,
                                self@.failed_between(crtcs, connectors@, start as int, i as int)[k],
                            ).failure_text(),
                        )
                    },
            decreases connectors.len() - i,
        {
            let plan: ConnectorPlan = self.plan_connector(resources, &connectors[i]);
            match plan {
                ConnectorPlan::Skip => {},
                ConnectorPlan::Fail(error) => {
                    failures.push(ConnectorFailure { index: i, error });
                },
                ConnectorPlan::Create(request) => {
                    return ScanStep { failures, index: i, request: Some(request) };
                },
            }
            i += 1;
        }
        ScanStep { failures, index: i, request: None }
    }

    /// Decides what follows a failed swapchain creation. A first attempt
    /// whose buffers could not be set up is tried once more, with the
    /// fallback subset only, provided that subset is not empty. Anything
    /// else ends negotiation for the connector with an error that names what
    /// failed and carries the hardware's own words.
    pub fn fallback_request(&self, failed: &SurfaceRequest, failure: CreationFailure, detail: &str) -> (r:
        Result<SurfaceRequest, CompositorError>)
        ensures
            match r {
                Ok(request) => retries(failed.attempt, failure, self@.implicit)
                    && request.is_fallback_of(failed, self@.implicit),
                Err(e) => !retries(failed.attempt, failure, self@.implicit) && e.is_backend(
                    creation_error_text(failure, detail@),
                ),
            },
    {
        match failure {
            CreationFailure::Reservation => Err(
                CompositorError::backend("failed to create DRM surface: ", detail),
            ),
            CreationFailure::Swapchain => {
                let first: bool = match failed.attempt {
                    Attempt::Full => true,
                    Attempt::Implicit => false,
                };
                if first && self.candidates.implicit.len() > 0 {
                    let formats: Vec<Format> = copy_formats(&self.candidates.implicit);
                    let codes: Vec<u32> = codes_of(&formats);
                    Ok(
                        SurfaceRequest {
                            connector: failed.connector,
                            crtc: failed.crtc,
                            mode: failed.mode,
                            output: failed.output,
                            attempt: Attempt::Implicit,
                            formats,
                            codes,
                            usage: failed.usage,
                        },
                    )
                } else {
                    Err(
                        CompositorError::backend(
                            "failed to create GBM surface with implicit modifier: ",
                            detail,
                        ),
                    )
                }
            },
        }
    }

    /// Registers the surface of a served request under its pipeline, and
    /// asks for the output to be advertised and for exactly one initial
    /// render. A surface already bound to that pipeline is replaced, so that
    /// no two surfaces ever share one.
    pub fn register_surface(&mut self, request: &SurfaceRequest) -> (actions: Vec<BackendAction>)
        ensures
            final(self)@ == old(self)@.with_surface(request.surface()),
            old(self).wf() ==> final(self).wf(),
            actions@ == seq![
                BackendAction::AdvertiseOutput {
                    node: old(self)@.node,
                    crtc: request.crtc,
                    output: request.output,
                },
                BackendAction::ScheduleRender,
            ],
    {
        let surface: Surface = request.to_surface();
        let ghost before = self@;
        let mut replaced: bool = false;
        let mut i: usize = 0;
        while i < self.surfaces.len()
            invariant
                i <= self.surfaces.len(),
                self.surfaces@.len() == before.surfaces.len(),
                self.node == before.node,
                self.candidates.formats@ == before.formats,
                self.candidates.implicit@ == before.implicit,
                replaced <==> exists|j: int| 0 <= j < i && (#[trigger] before.surfaces[j]).crtc == surface.crtc,
                forall|j: int|
                    0 <= j < i ==> #[trigger] self.surfaces@[j] == if before.surfaces[j].crtc
                        == surface.crtc {
                        surface
                    } else {
                        before.surfaces[j]
                    },
                forall|j: int| i <= j < self.surfaces@.len() ==> self.surfaces@[j] == before.surfaces[j],
            decreases self.surfaces.len() - i,
        {
            if self.surfaces[i].crtc == surface.crtc {
                self.surfaces[i] = surface;
                replaced = true;
            }
            i += 1;
        }
        if !replaced {
            self.surfaces.push(surface);
        }
        proof {
            assert(self@.surfaces =~= before.with_surface(surface).surfaces);
        }
        let mut actions: Vec<BackendAction> = Vec::new();
        actions.push(
            BackendAction::AdvertiseOutput {
                node: self.node,
                crtc: request.crtc,
                output: request.output,
            },
        );
        actions.push(BackendAction::ScheduleRender);
        proof {
            assert(actions@ =~= seq![
                BackendAction::AdvertiseOutput {
                    node: before.node,
                    crtc: request.crtc,
                    output: request.output,
                },
                BackendAction::ScheduleRender,
            ]);
        }
        actions
    }
}

impl Device {
    /// Records that the hardware has shown the frame submitted on `crtc`:
    /// the surface bound to it has no frame in flight any more. Nothing
    /// changes if no surface is bound to `crtc`.
    pub fn frame_completed(&mut self, crtc: u32)
        ensures
            final(self)@ == old(self)@.completed(crtc),
            old(self).wf() ==> final(self).wf(),
    {
        let ghost before = self@;
        let mut i: usize = 0;
        while i < self.surfaces.len()
            invariant
                i <= self.surfaces.len(),
                self.surfaces@.len() == before.surfaces.len(),
                self.node == before.node,
                self.candidates.formats@ == before.formats,
                self.candidates.implicit@ == before.implicit,
                forall|j: int|
                    0 <= j < i ==> #[trigger] self.surfaces@[j] == before.completed(crtc).surfaces[j],
                forall|j: int| i <= j < self.surfaces@.len() ==> self.surfaces@[j] == before.surfaces[j],
            decreases self.surfaces.len() - i,
        {
            if self.surfaces[i].crtc == crtc {
                self.surfaces[i].frame_completed();
            }
            i += 1;
        }
        proof {
            assert(self@.surfaces =~= before.completed(crtc).surfaces);
        }
    }

    /// Records how the pass on `crtc` ended: the surface bound to it is
    /// pending once its frame is submitted; a failed pass, or a pass on a
    /// surface that was pending already, changes nothing.
    pub fn finish_pass(&mut self, crtc: u32, outcome: PassOutcome)
        ensures
            final(self)@ == old(self)@.pass_finished(crtc, outcome),
            old(self).wf() ==> final(self).wf(),
    {
        let ghost before = self@;
        let mut i: usize = 0;
        while i < self.surfaces.len()
            invariant
                i <= self.surfaces.len(),
                self.surfaces@.len() == before.surfaces.len(),
                self.node == before.node,
                self.candidates.formats@ == before.formats,
                self.candidates.implicit@ == before.implicit,
                forall|j: int|
                    0 <= j < i ==> #[trigger] self.surfaces@[j] == before.pass_finished(
                        crtc,
                        outcome,
                    ).surfaces[j],
                forall|j: int| i <= j < self.surfaces@.len() ==> self.surfaces@[j] == before.surfaces[j],
            decreases self.surfaces.len() - i,
        {
            if self.surfaces[i].crtc == crtc {
                self.surfaces[i].finish_pass(outcome);
            }
            i += 1;
        }
        proof {
            assert(self@.surfaces =~= before.pass_finished(crtc, outcome).surfaces);
        }
    }

    /// Marks every swapchain as reset, so that no surface has a frame in
    /// flight, and asks for the reset of each.
    pub fn reset_buffers(&mut self) -> (actions: Vec<BackendAction>)
        ensures
            final(self)@ == old(self)@.reset(),
            old(self).wf() ==> final(self).wf(),
            actions@ == old(self)@.reset_actions(),
    {
        let ghost before = self@;
        let mut actions: Vec<BackendAction> = Vec::new();
        let mut i: usize = 0;
        while i < self.surfaces.len()
            invariant
                i <= self.surfaces.len(),
                self.surfaces@.len() == before.surfaces.len(),
                self.node == before.node,
                self.candidates.formats@ == before.formats,
                self.candidates.implicit@ == before.implicit,
                actions@.len() == i,
                forall|j: int| 0 <= j < i ==> #[trigger] actions@[j] == before.reset_actions()[j],
                forall|j: int| 0 <= j < i ==> #[trigger] self.surfaces@[j] == before.surfaces[j].idle(),
                forall|j: int| i <= j < self.surfaces@.len() ==> self.surfaces@[j] == before.surfaces[j],
            decreases self.surfaces.len() - i,
        {
            self.surfaces[i].frame_completed();
            actions.push(BackendAction::ResetBuffers { node: self.node, crtc: self.surfaces[i].crtc });
            i += 1;
        }
        proof {
            assert(self@.surfaces =~= before.reset().surfaces);
        }
        actions
    }

    /// The passes that a render trigger starts on this device: one for each
    /// idle surface while the session is active, in surface order, each with
    /// the whole output as damage and the cursor at `pointer`. A pending
    /// surface gets none, and a paused session gets none at all.
    pub fn passes(&self, session: SessionState, pointer: (i32, i32)) -> (passes: Vec<RenderPass>)
        ensures
            passes@ == self@.passes(session, pointer),
    {
        let ghost pred = |s: Surface| trigger_starts_pass(session, s.frame);
        let ghost make = |s: Surface| pass_of(self@.node, s, pointer);
        let mut passes: Vec<RenderPass> = Vec::new();
        let mut i: usize = 0;
        proof {
            lemma_filter_take_ends(self.surfaces@, pred);
        }
        while i < self.surfaces.len()
            invariant
                i <= self.surfaces.len(),
                pred == |s: Surface| trigger_starts_pass(session, s.frame),
                make == |s: Surface| pass_of(self@.node, s, pointer),
                passes@ == self.surfaces@.take(i as int).filter(pred).map_values(make),
            decreases self.surfaces.len() - i,
        {
            proof {
                lemma_filter_take_step(self.surfaces@, i as int, pred);
                let kept = self.surfaces@.take(i as int).filter(pred);
                assert(kept.push(self.surfaces@[i as int]).map_values(make) =~= kept.map_values(
                    make,
                ).push(make(self.surfaces@[i as int])));
            }
            if self.surfaces[i].should_render(session) {
                passes.push(self.surfaces[i].pass(self.node, pointer));
            }
            i += 1;
        }
        passes
    }

    /// What tearing the device down takes: the output of every surface is
    /// withdrawn, in surface order, and only then is the device's event
    /// source removed.
    pub fn teardown(&self) -> (actions: Vec<BackendAction>)
        ensures
            actions@ == self@.teardown_actions(),
    {
        let mut actions: Vec<BackendAction> = Vec::new();
        let mut i: usize = 0;
        while i < self.surfaces.len()
            invariant
                i <= self.surfaces.len(),
                actions@.len() == i,
                forall|j: int| 0 <= j < i ==> #[trigger] actions@[j] == self@.teardown_actions()[j],
            decreases self.surfaces.len() - i,
        {
            actions.push(
                BackendAction::RetractOutput {
                    node: self.node,
                    crtc: self.surfaces[i].crtc,
                    output: self.surfaces[i].output,
                },
            );
            i += 1;
        }
        actions.push(BackendAction::DeregisterEvents { node: self.node });
        actions
    }
}

} // verus!
