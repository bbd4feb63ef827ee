//! The session and hotplug controller: the set of GPUs, the session state,
//! and the reaction to every signal that reaches the backend.

use vstd::prelude::*;

use crate::backend::connector::{ConnectorInfo, ResourceHandles};
pub use crate::backend::device::Device;
use crate::backend::device::{lemma_frame_changes_wf, lemma_with_surface_wf, DeviceView};
use crate::backend::event::{BackendAction, DrmEvent, SessionEvent, SessionState, UdevEvent};
use crate::backend::failure::ConstructionFailure;
use crate::backend::format::Format;
use crate::backend::laws::lemma_paused_session_renders_nothing;
use crate::backend::request::{
    creation_error_text, retries, CreationFailure, ScanStep, SurfaceRequest,
};
pub use crate::backend::surface::Surface;
use crate::backend::surface::{PassOutcome, RenderPass};
use crate::errors::CompositorError;
use crate::lemmas::{lemma_filter_subset, lemma_filter_take_ends, lemma_filter_take_step};

verus! {

/// The state of the backend.
#[derive(Debug)]
pub struct UdevData {
    session: SessionState,
    primary_gpu: u64,
    devices: Vec<Device>,
}

/// A GPU found when the backend starts.
#[derive(Clone, Copy, Debug, PartialEq, Eq, Hash, Structural)]
pub struct GpuCandidate {
    /// The identifier the hotplug subsystem knows the device by.
    pub device_id: u64,
    /// The identifier of the device's render node, if it has one.
    pub render_node: Option<u64>,
}

/// The backend as it starts: its state, and the work to begin with.
#[derive(Debug)]
pub struct Startup {
    pub data: UdevData,
    pub actions: Vec<BackendAction>,
}

/// `i` is the position of the first GPU that can render.
pub open spec fn is_first_render_capable(candidates: Seq<GpuCandidate>, i: int) -> bool {
    &&& 0 <= i < candidates.len()
    &&& candidates[i].render_node is Some
    &&& forall|j: int| 0 <= j < i ==> (#[trigger] candidates[j]).render_node is None
}

/// The work the backend begins with: every GPU found is to be set up, in
/// the order found, and then the first render is triggered.
pub open spec fn startup_actions(candidates: Seq<GpuCandidate>) -> Seq<BackendAction> {
    candidates.map_values(|c: GpuCandidate| BackendAction::ConstructDevice { node: c.device_id }).push(
        BackendAction::ScheduleRender,
    )
}

/// The state of the backend as a mathematical value.
pub struct UdevView {
    /// Whether the session owns the hardware at present.
    pub session: SessionState,
    /// The GPU that renders.
    pub primary_gpu: u64,
    /// The GPUs, in the order they were added.
    pub devices: Seq<DeviceView>,
}

/// The passes that a render trigger starts on `devices`: those of each
/// device, device after device.
pub open spec fn render_passes(devices: Seq<DeviceView>, session: SessionState, pointer: (i32, i32))
    -> Seq<RenderPass>
    decreases devices.len(),
{
    if devices.len() == 0 {
        Seq::<RenderPass>::empty()
    } else {
        render_passes(devices.drop_last(), session, pointer) + devices.last().passes(
            session,
            pointer,
        )
    }
}

/// One pause request for each device, in device order.
pub open spec fn pause_actions(devices: Seq<DeviceView>) -> Seq<BackendAction> {
    devices.map_values(|d: DeviceView| BackendAction::PauseDevice { node: d.node })
}

/// For each device, in device order: its activation, then the reset of each
/// of its swapchains.
pub open spec fn activation_actions(devices: Seq<DeviceView>) -> Seq<BackendAction>
    decreases devices.len(),
{
    if devices.len() == 0 {
        Seq::<BackendAction>::empty()
    } else {
        activation_actions(devices.drop_last()).push(
            BackendAction::ActivateDevice { node: devices.last().node },
        ) + devices.last().reset_actions()
    }
}

/// The teardown of every device identified by `node`, in device order.
pub open spec fn removal_actions(devices: Seq<DeviceView>, node: u64) -> Seq<BackendAction>
    decreases devices.len(),
{
    if devices.len() == 0 {
        Seq::<BackendAction>::empty()
    } else if devices.last().node == node {
        removal_actions(devices.drop_last(), node) + devices.last().teardown_actions()
    } else {
        removal_actions(devices.drop_last(), node)
    }
}

/// The number of surfaces of all devices together.
pub open spec fn surface_count(devices: Seq<DeviceView>) -> nat
    decreases devices.len(),
{
    if devices.len() == 0 {
        0
    } else {
        surface_count(devices.drop_last()) + devices.last().surfaces.len()
    }
}

/// Every device is well formed, and no two devices share an identifier.
pub open spec fn devices_wf(devices: Seq<DeviceView>) -> bool {
    &&& forall|i: int| 0 <= i < devices.len() ==> (#[trigger] devices[i]).wf()
    &&& forall|i: int, j: int|
        0 <= i < j < devices.len() ==> (#[trigger] devices[i]).node != (#[trigger] devices[j]).node
}

impl UdevView {
    /// Every device is well formed, and no two devices share an identifier.
    pub open spec fn wf(self) -> bool {
        devices_wf(self.devices)
    }

    /// Whether a device is identified by `node`.
    pub open spec fn has_device(self, node: u64) -> bool {
        exists|i: int| 0 <= i < self.devices.len() && (#[trigger] self.devices[i]).node == node
    }

    /// `i` is the position of the first device identified by `node`.
    pub open spec fn is_device_at(self, node: u64, i: int) -> bool {
        &&& 0 <= i < self.devices.len()
        &&& self.devices[i].node == node
        &&& forall|j: int| 0 <= j < i ==> (#[trigger] self.devices[j]).node != node
    }

    /// The state with `change` applied to every device identified by `node`.
    pub open spec fn with_device_changed(self, node: u64, change: spec_fn(DeviceView) -> DeviceView)
        -> UdevView {
        UdevView {
            devices: self.devices.map_values(
                |d: DeviceView|
                    if d.node == node {
                        change(d)
                    } else {
                        d
                    },
            ),
            ..self
        }
    }

    /// The state once the session is paused.
    pub open spec fn paused(self) -> UdevView {
        UdevView { session: SessionState::Paused, ..self }
    }

    /// The state once the session is active again: every swapchain is
    /// reset, so no surface has a frame in flight.
    pub open spec fn activated(self) -> UdevView {
        UdevView {
            session: SessionState::Active,
            devices: self.devices.map_values(|d: DeviceView| d.reset()),
            ..self
        }
    }

    /// The state after a hotplug notification: a removal takes the device
    /// away; an addition changes nothing until the device is set up; a
    /// change notification changes nothing at all.
    pub open spec fn after_udev_event(self, event: UdevEvent) -> UdevView {
        match event {
            UdevEvent::Removed { device_id } => self.without(device_id),
            _ => self,
        }
    }

    /// What a hotplug notification asks for: to set up an added device, to
    /// tear down a removed one, and nothing on a change.
    pub open spec fn udev_actions(self, event: UdevEvent) -> Seq<BackendAction> {
        match event {
            UdevEvent::Added { device_id } => seq![
                BackendAction::ConstructDevice { node: device_id },
            ],
            UdevEvent::Changed { device_id } => Seq::<BackendAction>::empty(),
            UdevEvent::Removed { device_id } => removal_actions(self.devices, device_id),
        }
    }

    /// The state after a session notification.
    pub open spec fn after_session_event(self, event: SessionEvent) -> UdevView {
        match event {
            SessionEvent::PauseSession => self.paused(),
            SessionEvent::ActivateSession => self.activated(),
        }
    }

    /// What a session notification asks for.
    pub open spec fn session_actions(self, event: SessionEvent) -> Seq<BackendAction> {
        match event {
            SessionEvent::PauseSession => pause_actions(self.devices),
            SessionEvent::ActivateSession => activation_actions(self.devices),
        }
    }

    /// The state after a mode-setting event of the device `node`: a
    /// completed frame leaves its surface idle, an error changes nothing.
    pub open spec fn after_drm_event(self, node: u64, event: DrmEvent) -> UdevView {
        match event {
            DrmEvent::VBlank(crtc) => self.with_device_changed(
                node,
                |d: DeviceView| d.completed(crtc),
            ),
            DrmEvent::Error => self,
        }
    }

    /// What a mode-setting event asks for: a completed frame triggers the
    /// next render while the session is active, and nothing while it is
    /// paused; an error asks for nothing.
    pub open spec fn drm_actions(self, event: DrmEvent) -> Seq<BackendAction> {
        if event is VBlank && self.session is Active {
            seq![BackendAction::ScheduleRender]
        } else {
            Seq::<BackendAction>::empty()
        }
    }

    /// The state once `surface` is registered with the device `node`.
    pub open spec fn with_surface(self, node: u64, surface: Surface) -> UdevView {
        self.with_device_changed(node, |d: DeviceView| d.with_surface(surface))
    }

    /// The state once the pass `pass` has ended with `outcome`.
    pub open spec fn after_pass(self, pass: RenderPass, outcome: PassOutcome) -> UdevView {
        self.with_device_changed(pass.node, |d: DeviceView| d.pass_finished(pass.crtc, outcome))
    }

    /// The state without the device identified by `node`.
    pub open spec fn without(self, node: u64) -> UdevView {
        UdevView { devices: self.devices.filter(|d: DeviceView| d.node != node), ..self }
    }

    /// The state once `device` is added: it takes the place of any device
    /// with its identifier, and comes last.
    pub open spec fn with_device(self, device: DeviceView) -> UdevView {
        UdevView { devices: self.without(device.node).devices.push(device), ..self }
    }
}

impl View for UdevData {
    type V = UdevView;

    closed spec fn view(&self) -> UdevView {
        UdevView {
            session: self.session,
            primary_gpu: self.primary_gpu,
            devices: self.devices@.map_values(|d: Device| d@),
        }
    }
}

impl UdevData {
    /// The state is well formed.
    pub open spec fn wf(&self) -> bool {
        self@.wf()
    }

    /// The state at start-up: the session is active and no device is known.
    pub fn new(primary_gpu: u64) -> (data: UdevData)
        ensures
            data.wf(),
            data@.session == SessionState::Active,
            data@.primary_gpu == primary_gpu,
            data@.devices == Seq::<DeviceView>::empty(),
    {
        let data = UdevData { session: SessionState::Active, primary_gpu, devices: Vec::new() };
        data
    }

    /// Whether the session owns the hardware at present.
    pub fn session(&self) -> (s: SessionState)
        ensures
            s == self@.session,
    {
        self.session
    }

    /// The GPU that renders.
    pub fn primary_gpu(&self) -> (node: u64)
        ensures
            node == self@.primary_gpu,
    {
        self.primary_gpu
    }

    /// The GPUs, in the order they were added.
    pub fn devices(&self) -> (devices: &Vec<Device>)
        ensures
            devices@.len() == self@.devices.len(),
            forall|i: int| 0 <= i < devices@.len() ==> (#[trigger] devices@[i])@ == self@.devices[i],
    {
        &self.devices
    }

    /// The position of the first device identified by `node`.
    pub fn device_index(&self, node: u64) -> (r: Option<usize>)
        ensures
            r is None <==> !self@.has_device(node),
            r matches Some(i) ==> self@.is_device_at(node, i as int),
    {
        let mut i: usize = 0;
        while i < self.devices.len()
            invariant
                i <= self.devices.len(),
                forall|j: int| 0 <= j < i ==> (#[trigger] self@.devices[j]).node != node,
            decreases self.devices.len() - i,
        {
            if self.devices[i].node() == node {
                assert(self@.devices[i as int].node == node);
                return Some(i);
            }
            i += 1;
        }
        None
    }

    /// The first device identified by `node`.
    pub fn device(&self, node: u64) -> (r: Option<&Device>)
        ensures
            r is None <==> !self@.has_device(node),
            r matches Some(d) ==> exists|i: int|
                self@.is_device_at(node, i) && d@ == #[trigger] self@.devices[i],
    {
        match self.device_index(node) {
            Some(i) => Some(&self.devices[i]),
            None => None,
        }
    }
}

impl UdevData {
    /// Reacts to a session notification. On a pause the session is marked
    /// paused and every device is asked to pause. On an activation the
    /// session is marked active, every device is asked to take up its work
    /// again, and every swapchain is reset.
    pub fn handle_session_event(&mut self, event: SessionEvent) -> (actions: Vec<BackendAction>)
        ensures
            final(self)@ == old(self)@.after_session_event(event),
            actions@ == old(self)@.session_actions(event),
            old(self).wf() ==> final(self).wf(),
    {
        let ghost before = self@;
        proof {
            if before.wf() {
                lemma_session_event_wf(before, event);
            }
        }
        let mut actions: Vec<BackendAction> = Vec::new();
        match event {
            SessionEvent::PauseSession => {
                self.session = SessionState::Paused;
                let mut i: usize = 0;
                while i < self.devices.len()
                    invariant
                        i <= self.devices.len(),
                        self@ == before.paused(),
                        actions@.len() == i,
                        forall|j: int|
                            0 <= j < i ==> #[trigger] actions@[j] == pause_actions(before.devices)[j],
                    decreases self.devices.len() - i,
                {
                    actions.push(BackendAction::PauseDevice { node: self.devices[i].node() });
                    i += 1;
                }
            },
            SessionEvent::ActivateSession => {
                self.session = SessionState::Active;
                let mut i: usize = 0;
                while i < self.devices.len()
                    invariant
                        i <= self.devices.len(),
                        self.devices@.len() == before.devices.len(),
                        self.session == SessionState::Active,
                        self.primary_gpu == before.primary_gpu,
                        actions@ == activation_actions(before.devices.take(i as int)),
                        forall|j: int|
                            0 <= j < i ==> (#[trigger] self.devices@[j])@ == before.devices[j].reset(),
                        forall|j: int|
                            i <= j < self.devices@.len() ==> (#[trigger] self.devices@[j])@
                                == before.devices[j],
                    decreases self.devices.len() - i,
                {
                    actions.push(BackendAction::ActivateDevice { node: self.devices[i].node() });
                    let mut resets: Vec<BackendAction> = self.devices[i].reset_buffers();
                    actions.append(&mut resets);
                    proof {
                        assert(before.devices.take(i + 1).drop_last() =~= before.devices.take(
                            i as int,
                        ));
                    }
                    i += 1;
                }
                proof {
                    assert(before.devices.take(before.devices.len() as int) =~= before.devices);
                    assert(self@.devices =~= before.activated().devices);
                }
            },
        }
        actions
    }

    /// Reacts to a mode-setting event of the device `node`. A completed
    /// frame leaves its surface idle and triggers the next render, unless
    /// the session is paused: then nothing is triggered. A hardware error
    /// changes nothing.
    pub fn handle_drm_event(&mut self, node: u64, event: DrmEvent) -> (actions: Vec<BackendAction>)
        ensures
            final(self)@ == old(self)@.after_drm_event(node, event),
            actions@ == old(self)@.drm_actions(event),
            old(self).wf() ==> final(self).wf(),
    {
        let ghost before = self@;
        let mut actions: Vec<BackendAction> = Vec::new();
        match event {
            DrmEvent::VBlank(crtc) => {
                proof {
                    if before.wf() {
                        lemma_device_change_wf(before, node, crtc, PassOutcome::Submitted);
                    }
                }
                let ghost change = |d: DeviceView| d.completed(crtc);
                let mut i: usize = 0;
                while i < self.devices.len()
                    invariant
                        i <= self.devices.len(),
                        self.devices@.len() == before.devices.len(),
                        self.session == before.session,
                        self.primary_gpu == before.primary_gpu,
                        change == |d: DeviceView| d.completed(crtc),
                        forall|j: int|
                            0 <= j < i ==> (#[trigger] self.devices@[j])@ == before.with_device_changed(
                                node,
                                change,
                            ).devices[j],
                        forall|j: int|
                            i <= j < self.devices@.len() ==> (#[trigger] self.devices@[j])@
                                == before.devices[j],
                    decreases self.devices.len() - i,
                {
                    if self.devices[i].node() == node {
                        self.devices[i].frame_completed(crtc);
                    }
                    i += 1;
                }
                proof {
                    assert(self@.devices =~= before.with_device_changed(node, change).devices);
                }
                match self.session {
                    SessionState::Active => {
                        actions.push(BackendAction::ScheduleRender);
                    },
                    SessionState::Paused => {},
                }
            },
            DrmEvent::Error => {
            },
        }
        actions
    }

    /// The trigger armed at start-up, so that the first frame is not blank.
    pub fn schedule_initial_render(&self) -> (action: BackendAction)
        ensures
            action == BackendAction::ScheduleRender,
    {
        BackendAction::ScheduleRender
    }

    /// The trigger for the next render: armed while the session is active,
    /// withheld while it is paused.
    pub fn schedule_render(&self) -> (action: Option<BackendAction>)
        ensures
            action == if self@.session is Active {
                Some(BackendAction::ScheduleRender)
            } else {
                None::<BackendAction>
            },
    {
        match self.session {
            SessionState::Active => Some(BackendAction::ScheduleRender),
            SessionState::Paused => None,
        }
    }

    /// Answers a render trigger with the passes to run: one for each idle
    /// surface of each device. A surface with a frame in flight gets none,
    /// and while the session is paused no surface gets one.
    pub fn render(&self, pointer: (i32, i32)) -> (passes: Vec<RenderPass>)
        ensures
            passes@ == render_passes(self@.devices, self@.session, pointer),
            self@.session is Paused ==> passes@.len() == 0,
    {
        proof {
            if self@.session is Paused {
                lemma_paused_session_renders_nothing(self@, pointer, DrmEvent::Error);
            }
        }
        let mut passes: Vec<RenderPass> = Vec::new();
        let mut i: usize = 0;
        while i < self.devices.len()
            invariant
                i <= self.devices.len(),
                passes@ == render_passes(self@.devices.take(i as int), self@.session, pointer),
            decreases self.devices.len() - i,
        {
            let mut more: Vec<RenderPass> = self.devices[i].passes(self.session, pointer);
            passes.append(&mut more);
            proof {
                assert(self@.devices.take(i + 1).drop_last() =~= self@.devices.take(i as int));
            }
            i += 1;
        }
        proof {
            assert(self@.devices.take(self@.devices.len() as int) =~= self@.devices);
        }
        passes
    }

    /// Records how a pass ended, and asks for every window to be told the
    /// frame time of the output, whether the pass succeeded or not. The
    /// surface is pending once its frame is submitted; after a failure it
    /// stays as it was, ready for the next trigger.
    pub fn pass_finished(&mut self, pass: &RenderPass, outcome: PassOutcome) -> (action: BackendAction)
        ensures
            final(self)@ == old(self)@.after_pass(*pass, outcome),
            action == (BackendAction::NotifyFrame {
                node: pass.node,
                crtc: pass.crtc,
                output: pass.output,
            }),
            old(self).wf() ==> final(self).wf(),
    {
        let ghost before = self@;
        let ghost change = |d: DeviceView| d.pass_finished(pass.crtc, outcome);
        proof {
            if before.wf() {
                lemma_device_change_wf(before, pass.node, pass.crtc, outcome);
            }
        }
        let mut i: usize = 0;
        while i < self.devices.len()
            invariant
                i <= self.devices.len(),
                self.devices@.len() == before.devices.len(),
                self.session == before.session,
                self.primary_gpu == before.primary_gpu,
                change == |d: DeviceView| d.pass_finished(pass.crtc, outcome),
                forall|j: int|
                    0 <= j < i ==> (#[trigger] self.devices@[j])@ == before.with_device_changed(
                        pass.node,
                        change,
                    ).devices[j],
                forall|j: int|
                    i <= j < self.devices@.len() ==> (#[trigger] self.devices@[j])@
                        == before.devices[j],
            decreases self.devices.len() - i,
        {
            if self.devices[i].node() == pass.node {
                self.devices[i].finish_pass(pass.crtc, outcome);
            }
            i += 1;
        }
        proof {
            assert(self@.devices =~= before.with_device_changed(pass.node, change).devices);
        }
        BackendAction::NotifyFrame { node: pass.node, crtc: pass.crtc, output: pass.output }
    }
}

/// A session notification keeps the state well formed.
pub proof fn lemma_session_event_wf(view: UdevView, event: SessionEvent)
    requires
        view.wf(),
    ensures
        view.after_session_event(event).wf(),
{
    let after = view.activated();
    assert forall|i: int| 0 <= i < after.devices.len() implies (#[trigger] after.devices[i]).wf() by {
        lemma_frame_changes_wf(view.devices[i], 0, PassOutcome::Submitted);
    }
    assert forall|i: int, j: int| 0 <= i < j < after.devices.len() implies (
    #[trigger] after.devices[i]).node != (#[trigger] after.devices[j]).node by {
        assert(after.devices[i].node == view.devices[i].node);
        assert(after.devices[j].node == view.devices[j].node);
    }
}

/// A completed frame and a finished pass keep the state well formed.
pub proof fn lemma_device_change_wf(view: UdevView, node: u64, crtc: u32, outcome: PassOutcome)
    requires
        view.wf(),
    ensures
        view.after_drm_event(node, DrmEvent::VBlank(crtc)).wf(),
        view.with_device_changed(node, |d: DeviceView| d.pass_finished(crtc, outcome)).wf(),
{
    let a = view.after_drm_event(node, DrmEvent::VBlank(crtc));
    let b = view.with_device_changed(node, |d: DeviceView| d.pass_finished(crtc, outcome));
    assert forall|i: int| 0 <= i < view.devices.len() implies (#[trigger] a.devices[i]).wf() && (
    #[trigger] b.devices[i]).wf() && a.devices[i].node == view.devices[i].node && b.devices[i].node
        == view.devices[i].node by {
        lemma_frame_changes_wf(view.devices[i], crtc, outcome);
    }
    assert forall|i: int, j: int| 0 <= i < j < view.devices.len() implies (
    #[trigger] a.devices[i]).node != (#[trigger] a.devices[j]).node by {
        assert(a.devices[i].node == view.devices[i].node);
        assert(a.devices[j].node == view.devices[j].node);
    }
    assert forall|i: int, j: int| 0 <= i < j < view.devices.len() implies (
    #[trigger] b.devices[i]).node != (#[trigger] b.devices[j]).node by {
        assert(b.devices[i].node == view.devices[i].node);
        assert(b.devices[j].node == view.devices[j].node);
    }
}

impl UdevData {
    /// Tears down the device identified by `node`: the outputs of its
    /// surfaces are withdrawn first, then its event source is removed, and
    /// the device is forgotten. Nothing happens if there is no such device.
    pub fn remove_device(&mut self, node: u64) -> (actions: Vec<BackendAction>)
        ensures
            final(self)@ == old(self)@.without(node),
            actions@ == removal_actions(old(self)@.devices, node),
            !final(self)@.has_device(node),
            old(self).wf() ==> final(self).wf(),
    {
        let ghost before = self@;
        let ghost keep = |d: DeviceView| d.node != node;
        let ghost mut k: int = 0;
        let mut actions: Vec<BackendAction> = Vec::new();
        let mut i: usize = 0;
        proof {
            lemma_filter_take_ends(before.devices, keep);
            lemma_without(before, node);
        }
        while i < self.devices.len()
            invariant
                0 <= k <= before.devices.len(),
                keep == |d: DeviceView| d.node != node,
                i == before.devices.take(k).filter(keep).len(),
                self.devices@.len() == i + (before.devices.len() - k),
                self.session == before.session,
                self.primary_gpu == before.primary_gpu,
                forall|j: int|
                    0 <= j < i ==> (#[trigger] self.devices@[j])@ == before.devices.take(k).filter(
                        keep,
                    )[j],
                forall|j: int|
                    i <= j < self.devices@.len() ==> (#[trigger] self.devices@[j])@
                        == before.devices[k + (j - i)],
                actions@ == removal_actions(before.devices.take(k), node),
            decreases self.devices.len() - i,
        {
            proof {
                lemma_filter_take_step(before.devices, k, keep);
                assert(before.devices.take(k + 1).drop_last() =~= before.devices.take(k));
            }
            if self.devices[i].node() == node {
                let device: Device = self.devices.remove(i);
                let mut teardown: Vec<BackendAction> = device.teardown();
                actions.append(&mut teardown);
            } else {
                i += 1;
            }
            proof {
                k = k + 1;
            }
        }
        proof {
            lemma_filter_take_ends(before.devices, keep);
            assert(self@.devices =~= before.without(node).devices);
        }
        actions
    }

    /// Takes up a device after the outside attempt to set it up. A failed
    /// step surfaces as a single backend error and leaves no trace of the
    /// device. On success the device stands with the format candidates
    /// negotiated from what its rendering context advertises and with no
    /// surface yet, a device that had the same identifier is torn down
    /// first, and the scan of the connectors is asked for.
    pub fn add_device(&mut self, node: u64, construction: Result<Vec<Format>, ConstructionFailure>) -> (r:
        Result<Vec<BackendAction>, CompositorError>)
        ensures
            match construction {
                Ok(capabilities) => r is Ok && final(self)@.has_device(node) && final(self)@
                    == old(self)@.with_device(DeviceView::fresh(node, capabilities@))
                    && r.unwrap()@ == removal_actions(old(self)@.devices, node).push(
                    BackendAction::ScanConnectors { node },
                ),
                Err(failure) => r is Err && final(self)@ == old(self)@ && r.unwrap_err().is_backend(
                    failure.step.prefix() + failure.detail@,
                ),
            },
            old(self).wf() ==> final(self).wf(),
    {
        let ghost before = self@;
        match construction {
            Ok(capabilities) => {
                proof {
                    lemma_with_device(before, DeviceView::fresh(node, capabilities@));
                }
                let mut actions: Vec<BackendAction> = self.remove_device(node);
                let device: Device = Device::new(node, &capabilities);
                self.devices.push(device);
                actions.push(BackendAction::ScanConnectors { node });
                proof {
                    assert(self@.devices =~= before.with_device(
                        DeviceView::fresh(node, capabilities@),
                    ).devices);
                }
                Ok(actions)
            },
            Err(failure) => Err(failure.step.error(failure.detail.as_str())),
        }
    }

    /// Reacts to a hotplug notification. An added device is to be set up, a
    /// removed one is torn down, and a change notification is taken note of
    /// only: it changes nothing and asks for nothing.
    pub fn handle_udev_event(&mut self, event: UdevEvent) -> (actions: Vec<BackendAction>)
        ensures
            final(self)@ == old(self)@.after_udev_event(event),
            actions@ == old(self)@.udev_actions(event),
            old(self).wf() ==> final(self).wf(),
    {
        match event {
            UdevEvent::Added { device_id } => {
                let mut actions: Vec<BackendAction> = Vec::new();
                actions.push(BackendAction::ConstructDevice { node: device_id });
                actions
            },
            UdevEvent::Changed { device_id } => {
                let actions: Vec<BackendAction> = Vec::new();
                actions
            },
            UdevEvent::Removed { device_id } => self.remove_device(device_id),
        }
    }
}

/// Filtering devices keeps them well formed and their identifiers distinct.
proof fn lemma_filter_devices_wf(devices: Seq<DeviceView>, keep: spec_fn(DeviceView) -> bool)
    requires
        devices_wf(devices),
    ensures
        devices_wf(devices.filter(keep)),
    decreases devices.len(),
{
    reveal(Seq::filter);
    if devices.len() > 0 {
        let front = devices.drop_last();
        let last = devices.len() - 1;
        assert forall|i: int| 0 <= i < front.len() implies (#[trigger] front[i]).wf() by {
            assert(devices[i].wf());
        }
        assert forall|i: int, j: int| 0 <= i < j < front.len() implies (#[trigger] front[i]).node != (
        #[trigger] front[j]).node by {
            assert(devices[i].node != devices[j].node);
        }
        lemma_filter_devices_wf(front, keep);
        lemma_filter_subset(front, keep);
        let kept = front.filter(keep);
        let out = devices.filter(keep);
        if keep(devices.last()) {
            assert(out =~= kept.push(devices[last]));
            assert forall|i: int, j: int| 0 <= i < j < out.len() implies (#[trigger] out[i]).node != (
            #[trigger] out[j]).node by {
                if j == out.len() - 1 {
                    assert(front.contains(kept[i]));
                    let p = choose|p: int| 0 <= p < front.len() && front[p] == kept[i];
                    assert(devices[p].node != devices[last].node);
                } else {
                    assert(kept[i].node != kept[j].node);
                }
            }
            assert forall|i: int| 0 <= i < out.len() implies (#[trigger] out[i]).wf() by {
                if i < kept.len() {
                    assert(kept[i].wf());
                } else {
                    assert(devices[last].wf());
                }
            }
        } else {
            assert(out =~= kept);
        }
    }
}

/// Removing a device keeps the state well formed, and leaves no device with
/// the removed identifier.
pub proof fn lemma_without(view: UdevView, node: u64)
    ensures
        !view.without(node).has_device(node),
        view.wf() ==> view.without(node).wf(),
        forall|other: u64|
            other != node ==> (view.without(node).has_device(other) <==> view.has_device(other)),
{
    let keep = |d: DeviceView| d.node != node;
    let out = view.devices.filter(keep);
    assert(view.without(node).devices == out);
    assert forall|i: int| 0 <= i < out.len() implies (#[trigger] out[i]).node != node by {
        view.devices.lemma_filter_pred(keep, i);
    }
    if view.wf() {
        lemma_filter_devices_wf(view.devices, keep);
    }
    lemma_filter_subset(view.devices, keep);
    assert forall|other: u64| other != node implies (view.without(node).has_device(other)
        <==> view.has_device(other)) by {
        if view.has_device(other) {
            let i = choose|i: int|
                0 <= i < view.devices.len() && (#[trigger] view.devices[i]).node == other;
            assert(keep(view.devices[i]));
            view.devices.lemma_filter_contains(keep, i);
            let j = choose|j: int| 0 <= j < out.len() && out[j] == view.devices[i];
            assert(out[j].node == other);
            assert(view.without(node).has_device(other));
        }
        if view.without(node).has_device(other) {
            let j = choose|j: int| 0 <= j < out.len() && (#[trigger] out[j]).node == other;
            assert(view.devices.contains(out[j]));
            let i = choose|i: int| 0 <= i < view.devices.len() && view.devices[i] == out[j];
            assert(view.devices[i].node == other);
            assert(view.has_device(other));
        }
    }
}

/// Adding a well-formed device keeps the state well formed, and the device
/// is then the only one with its identifier.
pub proof fn lemma_with_device(view: UdevView, device: DeviceView)
    ensures
        view.with_device(device).has_device(device.node),
        view.wf() && device.wf() ==> view.with_device(device).wf(),
        view.with_device(device).devices.last() == device,
{
    lemma_without(view, device.node);
    let rest = view.without(device.node).devices;
    let after = view.with_device(device);
    assert(after.devices[rest.len() as int].node == device.node);
    if view.wf() && device.wf() {
        assert forall|i: int| 0 <= i < after.devices.len() implies (#[trigger] after.devices[i]).wf() by {
            if i < rest.len() {
                assert(rest[i].wf());
            }
        }
        assert forall|i: int, j: int| 0 <= i < j < after.devices.len() implies (
        #[trigger] after.devices[i]).node != (#[trigger] after.devices[j]).node by {
            if j < rest.len() {
                assert(rest[i].node != rest[j].node);
            } else {
                assert(rest[i].node != device.node);
            }
        }
    }
}

/// Starts the backend from the GPUs found at start-up. The first GPU with a
/// render node becomes the primary GPU; without one the backend cannot
/// start. The session starts active, with no device yet: each GPU found is
/// to be set up, and one initial render is triggered after that.
pub fn init_udev(candidates: &Vec<GpuCandidate>) -> (r: Result<Startup, CompositorError>)
    ensures
        match r {
            Ok(startup) => {
                &&& exists|i: int|
                    is_first_render_capable(candidates@, i) && Some(startup.data@.primary_gpu)
                        == (#[trigger] candidates@[i]).render_node
                &&& startup.data.wf()
                &&& startup.data@.session == SessionState::Active
                &&& startup.data@.devices == Seq::<DeviceView>::empty()
                &&& startup.actions@ == startup_actions(candidates@)
            },
            Err(e) => {
                &&& forall|i: int|
                    0 <= i < candidates@.len() ==> (#[trigger] candidates@[i]).render_node is None
                &&& e.is_backend("no suitable GPU found"@)
            },
        },
{
    let mut primary: Option<u64> = None;
    let mut i: usize = 0;
    while i < candidates.len() && primary.is_none()
        invariant
            i <= candidates.len(),
            primary is None ==> forall|j: int|
                0 <= j < i ==> (#[trigger] candidates@[j]).render_node is None,
            primary is Some ==> i > 0 && is_first_render_capable(candidates@, i - 1) && primary
                == candidates@[i - 1].render_node,
        decreases candidates.len() - i,
    {
        primary = candidates[i].render_node;
        i += 1;
    }
    match primary {
        None => Err(CompositorError::backend_text("no suitable GPU found")),
        Some(node) => {
            let mut actions: Vec<BackendAction> = Vec::new();
            let mut k: usize = 0;
            while k < candidates.len()
                invariant
                    k <= candidates.len(),
                    actions@.len() == k,
                    forall|j: int|
                        0 <= j < k ==> #[trigger] actions@[j] == startup_actions(candidates@)[j],
                decreases candidates.len() - k,
            {
                actions.push(BackendAction::ConstructDevice { node: candidates[k].device_id });
                k += 1;
            }
            actions.push(BackendAction::ScheduleRender);
            Ok(Startup { data: UdevData::new(node), actions })
        },
    }
}

impl UdevData {
    /// Scans the connectors of the device `node` from position `start` on,
    /// up to the first one that a surface is to be created for.
    pub fn scan_connectors(
        &self,
        node: u64,
        resources: &ResourceHandles,
        connectors: &Vec<ConnectorInfo>,
        start: usize,
    ) -> (r: Result<ScanStep, CompositorError>)
        ensures
            match r {
                Ok(step) => exists|i: int|
                    self@.is_device_at(node, i) && (#[trigger] self@.devices[i]).scanned(
                        step,
                        resources.crtcs@,
                        connectors@,
                        start as int,
                    ),
                Err(e) => !self@.has_device(node) && e.is_backend("device not found"@),
            },
    {
        match self.device(node) {
            Some(device) => Ok(device.scan_connectors(resources, connectors, start)),
            None => Err(CompositorError::backend_text("device not found")),
        }
    }

    /// Decides what follows a failed swapchain creation on the device
    /// `node`: one more attempt with the fallback subset, or the error that
    /// ends negotiation for the connector.
    pub fn fallback_request(
        &self,
        node: u64,
        failed: &SurfaceRequest,
        failure: CreationFailure,
        detail: &str,
    ) -> (r: Result<SurfaceRequest, CompositorError>)
        ensures
            match r {
                Ok(request) => exists|i: int|
                    self@.is_device_at(node, i) && retries(
                        failed.attempt,
                        failure,
                        (#[trigger] self@.devices[i]).implicit,
                    ) && request.is_fallback_of(failed, self@.devices[i].implicit),
                Err(e) => if self@.has_device(node) {
                    exists|i: int|
                        self@.is_device_at(node, i) && !retries(
                            failed.attempt,
                            failure,
                            (#[trigger] self@.devices[i]).implicit,
                        ) && e.is_backend(creation_error_text(failure, detail@))
                } else {
                    e.is_backend("device not found"@)
                },
            },
    {
        match self.device(node) {
            Some(device) => device.fallback_request(failed, failure, detail),
            None => Err(CompositorError::backend_text("device not found")),
        }
    }

    /// Registers the surface of a served request with the device `node`,
    /// and asks for the output to be advertised and for exactly one initial
    /// render. Without such a device nothing is registered.
    pub fn register_surface(&mut self, node: u64, request: &SurfaceRequest) -> (r: Result<
        Vec<BackendAction>,
        CompositorError,
    >)
        ensures
            match r {
                Ok(actions) => {
                    &&& old(self)@.has_device(node)
                    &&& final(self)@ == old(self)@.with_surface(node, request.surface())
                    &&& actions@ == seq![
                        BackendAction::AdvertiseOutput {
                            node,
                            crtc: request.crtc,
                            output: request.output,
                        },
                        BackendAction::ScheduleRender,
                    ]
                },
                Err(e) => {
                    &&& !old(self)@.has_device(node)
                    &&& final(self)@ == old(self)@
                    &&& e.is_backend("device not found"@)
                },
            },
            old(self).wf() ==> final(self).wf(),
    {
        let ghost before = self@;
        let ghost surface = request.surface();
        let ghost change = |d: DeviceView| d.with_surface(surface);
        if self.device_index(node).is_none() {
            return Err(CompositorError::backend_text("device not found"));
        }
        let mut i: usize = 0;
        while i < self.devices.len()
            invariant
                i <= self.devices.len(),
                self.devices@.len() == before.devices.len(),
                self.session == before.session,
                self.primary_gpu == before.primary_gpu,
                surface == request.surface(),
                change == |d: DeviceView| d.with_surface(surface),
                forall|j: int|
                    0 <= j < i ==> (#[trigger] self.devices@[j])@ == before.with_device_changed(
                        node,
                        change,
                    ).devices[j],
                forall|j: int|
                    i <= j < self.devices@.len() ==> (#[trigger] self.devices@[j])@
                        == before.devices[j],
            decreases self.devices.len() - i,
        {
            if self.devices[i].node() == node {
                let _ = self.devices[i].register_surface(request);
            }
            i += 1;
        }
        proof {
            assert(self@.devices =~= before.with_device_changed(node, change).devices);
        }
        let mut actions: Vec<BackendAction> = Vec::new();
        actions.push(
            BackendAction::AdvertiseOutput { node, crtc: request.crtc, output: request.output },
        );
        actions.push(BackendAction::ScheduleRender);
        proof {
            assert(actions@ =~= seq![
                BackendAction::AdvertiseOutput { node, crtc: request.crtc, output: request.output },
                BackendAction::ScheduleRender,
            ]);
        }
        Ok(actions)
    }
}

/// Registering a surface keeps the state well formed.
pub proof fn lemma_with_surface(view: UdevView, node: u64, surface: Surface)
    requires
        view.wf(),
    ensures
        view.with_surface(node, surface).wf(),
{
    let after = view.with_surface(node, surface);
    assert forall|i: int| 0 <= i < view.devices.len() implies (#[trigger] after.devices[i]).wf()
        && after.devices[i].node == view.devices[i].node by {
        lemma_with_surface_wf(view.devices[i], surface);
    }
    assert forall|i: int, j: int| 0 <= i < j < view.devices.len() implies (
    #[trigger] after.devices[i]).node != (#[trigger] after.devices[j]).node by {
        assert(after.devices[i].node == view.devices[i].node);
        assert(after.devices[j].node == view.devices[j].node);
    }
}

} // verus!
