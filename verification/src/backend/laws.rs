//! What holds of the backend in every state: pipelines are never shared,
//! a surface with a frame in flight is never rendered again, a paused
//! session renders nothing, and a removed device leaves nothing behind.

use vstd::prelude::*;

use crate::backend::device::DeviceView;
use crate::backend::event::{BackendAction, DrmEvent, SessionEvent, SessionState, UdevEvent};
use crate::backend::format::Format;
use crate::backend::request::{retries, Attempt, CreationFailure};
use crate::backend::surface::{pass_of, trigger_starts_pass, PassOutcome, RenderPass, Surface};
use crate::backend::udev::{
    activation_actions, lemma_device_change_wf, lemma_session_event_wf, lemma_with_device,
    lemma_with_surface, lemma_without, removal_actions, render_passes, surface_count, UdevView,
};
use crate::lemmas::{
    lemma_filter_all, lemma_filter_keeps_distinct, lemma_filter_none, lemma_filter_subset,
};

verus! {

/// In a well-formed state no two surfaces of a device share a pipeline, and
/// no two devices share an identifier.
pub proof fn lemma_pipelines_pairwise_distinct(view: UdevView, d: int, i: int, j: int)
    requires
        view.wf(),
        0 <= d < view.devices.len(),
        0 <= i < view.devices[d].surfaces.len(),
        0 <= j < view.devices[d].surfaces.len(),
        i != j,
    ensures
        view.devices[d].surfaces[i].crtc != view.devices[d].surfaces[j].crtc,
{
    assert(view.devices[d].wf());
    if i < j {
        assert(view.devices[d].surfaces[i].crtc != view.devices[d].surfaces[j].crtc);
    } else {
        assert(view.devices[d].surfaces[j].crtc != view.devices[d].surfaces[i].crtc);
    }
}

/// In a well-formed state no two devices share an identifier: there is at
/// most one device for each piece of hardware.
pub proof fn lemma_device_identifiers_distinct(view: UdevView, d: int, e: int)
    requires
        view.wf(),
        0 <= d < view.devices.len(),
        0 <= e < view.devices.len(),
        d != e,
    ensures
        view.devices[d].node != view.devices[e].node,
{
    if d < e {
        assert(view.devices[d].node != view.devices[e].node);
    } else {
        assert(view.devices[e].node != view.devices[d].node);
    }
}

/// Only a session notification changes the session state, and it sets the
/// state that it announces.
pub proof fn lemma_only_session_events_change_the_session(
    view: UdevView,
    node: u64,
    udev_event: UdevEvent,
    drm_event: DrmEvent,
    pass: RenderPass,
    outcome: PassOutcome,
    surface: Surface,
    device: DeviceView,
)
    ensures
        view.after_session_event(SessionEvent::PauseSession).session is Paused,
        view.after_session_event(SessionEvent::ActivateSession).session is Active,
        view.after_udev_event(udev_event).session == view.session,
        view.after_drm_event(node, drm_event).session == view.session,
        view.after_pass(pass, outcome).session == view.session,
        view.with_surface(node, surface).session == view.session,
        view.with_device(device).session == view.session,
        view.without(node).session == view.session,
{
}

/// Every change of state keeps the state well formed: whatever signal
/// arrives, pipelines stay pairwise distinct within each device.
pub proof fn lemma_every_step_keeps_pipelines_distinct(
    view: UdevView,
    node: u64,
    crtc: u32,
    session_event: SessionEvent,
    udev_event: UdevEvent,
    drm_event: DrmEvent,
    pass: RenderPass,
    outcome: PassOutcome,
    surface: Surface,
    capabilities: Seq<Format>,
)
    requires
        view.wf(),
    ensures
        view.after_session_event(session_event).wf(),
        view.after_udev_event(udev_event).wf(),
        view.after_drm_event(node, drm_event).wf(),
        view.after_pass(pass, outcome).wf(),
        view.with_surface(node, surface).wf(),
        view.with_device(DeviceView::fresh(node, capabilities)).wf(),
        view.without(node).wf(),
{
    lemma_session_event_wf(view, session_event);
    match udev_event {
        UdevEvent::Removed { device_id } => {
            lemma_without(view, device_id);
        },
        _ => {},
    }
    match drm_event {
        DrmEvent::VBlank(c) => {
            lemma_device_change_wf(view, node, c, outcome);
        },
        DrmEvent::Error => {},
    }
    lemma_device_change_wf(view, pass.node, pass.crtc, outcome);
    lemma_with_surface(view, node, surface);
    let fresh = DeviceView::fresh(node, capabilities);
    assert(fresh.wf()) by {
        assert forall|i: int| 0 <= i < fresh.formats.len() implies crate::backend::format::is_usable(
            #[trigger] fresh.formats[i],
        ) by {
            capabilities.lemma_filter_pred(|f: Format| crate::backend::format::is_usable(f), i);
        }
    }
    lemma_with_device(view, fresh);
    lemma_without(view, node);
}

/// Every pass of a device stands for one of its surfaces that the trigger
/// applies to.
pub proof fn lemma_device_pass_origin(
    device: DeviceView,
    session: SessionState,
    pointer: (i32, i32),
    n: int,
)
    requires
        0 <= n < device.passes(session, pointer).len(),
    ensures
        exists|k: int|
            0 <= k < device.surfaces.len() && trigger_starts_pass(
                session,
                (#[trigger] device.surfaces[k]).frame,
            ) && device.passes(session, pointer)[n] == pass_of(
                device.node,
                device.surfaces[k],
                pointer,
            ),
{
    let pred = |s: Surface| trigger_starts_pass(session, s.frame);
    let kept = device.surfaces.filter(pred);
    lemma_filter_subset(device.surfaces, pred);
    device.surfaces.lemma_filter_pred(pred, n);
    assert(device.surfaces.contains(kept[n]));
    let k = choose|k: int| 0 <= k < device.surfaces.len() && device.surfaces[k] == kept[n];
    assert(trigger_starts_pass(session, device.surfaces[k].frame));
}

/// Every pass that a render trigger starts stands for a surface of a known
/// device that the trigger applies to.
pub proof fn lemma_render_pass_origin(
    devices: Seq<DeviceView>,
    session: SessionState,
    pointer: (i32, i32),
    n: int,
)
    requires
        0 <= n < render_passes(devices, session, pointer).len(),
    ensures
        exists|d: int, k: int|
            0 <= d < devices.len() && 0 <= k < devices[d].surfaces.len() && trigger_starts_pass(
                session,
                (#[trigger] devices[d].surfaces[k]).frame,
            ) && render_passes(devices, session, pointer)[n] == pass_of(
                devices[d].node,
                devices[d].surfaces[k],
                pointer,
            ),
    decreases devices.len(),
{
    let front = devices.drop_last();
    let before = render_passes(front, session, pointer);
    if n < before.len() {
        lemma_render_pass_origin(front, session, pointer, n);
        let (d, k) = choose|d: int, k: int|
            0 <= d < front.len() && 0 <= k < front[d].surfaces.len() && trigger_starts_pass(
                session,
                (#[trigger] front[d].surfaces[k]).frame,
            ) && before[n] == pass_of(front[d].node, front[d].surfaces[k], pointer);
        assert(devices[d] == front[d]);
        assert(trigger_starts_pass(session, devices[d].surfaces[k].frame));
    } else {
        let last = devices.len() - 1;
        lemma_device_pass_origin(devices[last], session, pointer, n - before.len());
        let k = choose|k: int|
            0 <= k < devices[last].surfaces.len() && trigger_starts_pass(
                session,
                (#[trigger] devices[last].surfaces[k]).frame,
            ) && devices[last].passes(session, pointer)[n - before.len()] == pass_of(
                devices[last].node,
                devices[last].surfaces[k],
                pointer,
            );
        assert(trigger_starts_pass(session, devices[last].surfaces[k].frame));
    }
}

/// No render pass is started for a surface that has a frame in flight: the
/// passes of a render trigger hold none for it, and a pass reported for it
/// all the same changes nothing.
pub proof fn lemma_pending_surface_is_not_rendered(
    view: UdevView,
    pointer: (i32, i32),
    d: int,
    k: int,
    outcome: PassOutcome,
)
    requires
        view.wf(),
        0 <= d < view.devices.len(),
        0 <= k < view.devices[d].surfaces.len(),
        view.devices[d].surfaces[k].frame is Pending,
    ensures
        forall|n: int|
            0 <= n < render_passes(view.devices, view.session, pointer).len() ==> !({
                &&& (#[trigger] render_passes(view.devices, view.session, pointer)[n]).node
                    == view.devices[d].node
                &&& render_passes(view.devices, view.session, pointer)[n].crtc
                    == view.devices[d].surfaces[k].crtc
            }),
        view.after_pass(pass_of(view.devices[d].node, view.devices[d].surfaces[k], pointer), outcome)
            == view,
{
    let passes = render_passes(view.devices, view.session, pointer);
    let node = view.devices[d].node;
    let crtc = view.devices[d].surfaces[k].crtc;
    assert forall|n: int| 0 <= n < passes.len() implies !((#[trigger] passes[n]).node == node
        && passes[n].crtc == crtc) by {
        lemma_render_pass_origin(view.devices, view.session, pointer, n);
        let (e, m) = choose|e: int, m: int|
            0 <= e < view.devices.len() && 0 <= m < view.devices[e].surfaces.len()
                && trigger_starts_pass(view.session, (#[trigger] view.devices[e].surfaces[m]).frame)
                && passes[n] == pass_of(view.devices[e].node, view.devices[e].surfaces[m], pointer);
        if passes[n].node == node && passes[n].crtc == crtc {
            if e != d {
                if e < d {
                    assert(view.devices[e].node != view.devices[d].node);
                } else {
                    assert(view.devices[d].node != view.devices[e].node);
                }
            }
            if m != k {
                lemma_pipelines_pairwise_distinct(view, d, m, k);
            }
        }
    }
    let pass = pass_of(node, view.devices[d].surfaces[k], pointer);
    let after = view.after_pass(pass, outcome);
    assert forall|e: int| 0 <= e < view.devices.len() implies #[trigger] after.devices[e]
        == view.devices[e] by {
        if view.devices[e].node == node {
            if e != d {
                if e < d {
                    assert(view.devices[e].node != view.devices[d].node);
                } else {
                    assert(view.devices[d].node != view.devices[e].node);
                }
            }
            let changed = view.devices[e].pass_finished(crtc, outcome);
            assert forall|m: int| 0 <= m < view.devices[e].surfaces.len() implies #[trigger] changed.surfaces[m]
                == view.devices[e].surfaces[m] by {
                if m != k {
                    lemma_pipelines_pairwise_distinct(view, d, m, k);
                }
            }
            assert(changed.surfaces =~= view.devices[e].surfaces);
        }
    }
    assert(after.devices =~= view.devices);
}

/// While the session is paused no render pass is started: a render trigger
/// starts none, and a completed frame triggers nothing.
pub proof fn lemma_paused_session_renders_nothing(view: UdevView, pointer: (i32, i32), event: DrmEvent)
    requires
        view.session is Paused,
    ensures
        render_passes(view.devices, view.session, pointer) == Seq::<RenderPass>::empty(),
        view.drm_actions(event) == Seq::<BackendAction>::empty(),
        view.after_drm_event(view.primary_gpu, event).session is Paused,
    decreases view.devices.len(),
{
    if view.devices.len() > 0 {
        let front = UdevView { devices: view.devices.drop_last(), ..view };
        lemma_paused_session_renders_nothing(front, pointer, event);
        let last = view.devices.last();
        lemma_filter_none(last.surfaces, |s: Surface| trigger_starts_pass(view.session, s.frame));
        assert(last.passes(view.session, pointer) =~= Seq::<RenderPass>::empty());
        assert(render_passes(view.devices, view.session, pointer) =~= Seq::<RenderPass>::empty());
    }
}

/// One pass for each surface of `devices`, device after device and surface
/// after surface, each as for an idle surface.
pub open spec fn one_pass_per_surface(devices: Seq<DeviceView>, pointer: (i32, i32)) -> Seq<
    RenderPass,
>
    decreases devices.len(),
{
    if devices.len() == 0 {
        Seq::<RenderPass>::empty()
    } else {
        one_pass_per_surface(devices.drop_last(), pointer) + devices.last().surfaces.map_values(
            |s: Surface| pass_of(devices.last().node, s.idle(), pointer),
        )
    }
}

/// After the session is resumed, the next render trigger starts exactly one
/// pass for each surface.
pub proof fn lemma_resume_renders_every_surface_once(view: UdevView, pointer: (i32, i32))
    ensures
        view.activated().session is Active,
        render_passes(view.activated().devices, SessionState::Active, pointer)
            == one_pass_per_surface(view.devices, pointer),
        one_pass_per_surface(view.devices, pointer).len() == surface_count(view.devices),
    decreases view.devices.len(),
{
    let after = view.activated();
    if view.devices.len() > 0 {
        let front = UdevView { devices: view.devices.drop_last(), ..view };
        lemma_resume_renders_every_surface_once(front, pointer);
        assert(front.activated().devices =~= after.devices.drop_last());
        let last = view.devices.last();
        let reset = last.reset();
        assert(after.devices.last() == reset);
        let pred = |s: Surface| trigger_starts_pass(SessionState::Active, s.frame);
        lemma_filter_all(reset.surfaces, pred);
        assert(reset.passes(SessionState::Active, pointer) =~= last.surfaces.map_values(
            |s: Surface| pass_of(last.node, s.idle(), pointer),
        ));
    } else {
        assert(after.devices =~= view.devices);
    }
}

/// No two passes of a device are for the same surface.
pub proof fn lemma_device_passes_distinct(
    device: DeviceView,
    session: SessionState,
    pointer: (i32, i32),
    m: int,
    n: int,
)
    requires
        device.wf(),
        0 <= m < n < device.passes(session, pointer).len(),
    ensures
        device.passes(session, pointer)[m].crtc != device.passes(session, pointer)[n].crtc,
{
    let pred = |s: Surface| trigger_starts_pass(session, s.frame);
    let key = |s: Surface| s.crtc;
    assert forall|i: int, j: int| 0 <= i < j < device.surfaces.len() implies key(
        #[trigger] device.surfaces[i],
    ) != key(#[trigger] device.surfaces[j]) by {
        assert(device.surfaces[i].crtc != device.surfaces[j].crtc);
    }
    lemma_filter_keeps_distinct(device.surfaces, pred, key);
    let kept = device.surfaces.filter(pred);
    assert(key(kept[m]) != key(kept[n]));
}

/// In a well-formed state no two passes of a render trigger are for the
/// same surface: a surface gets one pass at most.
pub proof fn lemma_render_passes_distinct(
    view: UdevView,
    pointer: (i32, i32),
    m: int,
    n: int,
)
    requires
        view.wf(),
        0 <= m < n < render_passes(view.devices, view.session, pointer).len(),
    ensures
        ({
            let passes = render_passes(view.devices, view.session, pointer);
            passes[m].node != passes[n].node || passes[m].crtc != passes[n].crtc
        }),
    decreases view.devices.len(),
{
    let devices = view.devices;
    let front = UdevView { devices: devices.drop_last(), ..view };
    let before = render_passes(front.devices, view.session, pointer);
    let last = devices.len() - 1;
    assert(front.wf()) by {
        assert forall|i: int| 0 <= i < front.devices.len() implies (#[trigger] front.devices[i]).wf() by {
            assert(devices[i].wf());
        }
        assert forall|i: int, j: int| 0 <= i < j < front.devices.len() implies (
        #[trigger] front.devices[i]).node != (#[trigger] front.devices[j]).node by {
            assert(devices[i].node != devices[j].node);
        }
    }
    if n < before.len() {
        lemma_render_passes_distinct(front, pointer, m, n);
    } else if m < before.len() {
        lemma_render_pass_origin(front.devices, view.session, pointer, m);
        let (d, k) = choose|d: int, k: int|
            0 <= d < front.devices.len() && 0 <= k < front.devices[d].surfaces.len()
                && trigger_starts_pass(view.session, (#[trigger] front.devices[d].surfaces[k]).frame)
                && before[m] == pass_of(front.devices[d].node, front.devices[d].surfaces[k], pointer);
        lemma_device_pass_origin(devices[last], view.session, pointer, n - before.len());
        assert(devices[d].node != devices[last].node);
    } else {
        assert(devices[last].wf());
        lemma_device_passes_distinct(
            devices[last],
            view.session,
            pointer,
            m - before.len(),
            n - before.len(),
        );
    }
}

/// The teardown of a device that is not there asks for nothing.
pub proof fn lemma_removal_of_absent(devices: Seq<DeviceView>, node: u64)
    requires
        forall|i: int| 0 <= i < devices.len() ==> (#[trigger] devices[i]).node != node,
    ensures
        removal_actions(devices, node) == Seq::<BackendAction>::empty(),
    decreases devices.len(),
{
    if devices.len() > 0 {
        assert(devices[devices.len() - 1].node != node);
        assert forall|i: int| 0 <= i < devices.drop_last().len() implies (
        #[trigger] devices.drop_last()[i]).node != node by {
            assert(devices[i].node != node);
        }
        lemma_removal_of_absent(devices.drop_last(), node);
    }
}

/// Where identifiers are distinct, removing a device asks for the teardown
/// of that one device.
pub proof fn lemma_removal_of_present(devices: Seq<DeviceView>, d: int)
    requires
        0 <= d < devices.len(),
        forall|i: int, j: int|
            0 <= i < j < devices.len() ==> (#[trigger] devices[i]).node != (#[trigger] devices[j]).node,
    ensures
        removal_actions(devices, devices[d].node) == devices[d].teardown_actions(),
    decreases devices.len(),
{
    let node = devices[d].node;
    let last = devices.len() - 1;
    let front = devices.drop_last();
    if d == last {
        assert forall|i: int| 0 <= i < front.len() implies (#[trigger] front[i]).node != node by {
            assert(devices[i].node != devices[last].node);
        }
        lemma_removal_of_absent(front, node);
        assert(removal_actions(devices, node) =~= devices[d].teardown_actions());
    } else {
        assert(devices[d].node != devices[last].node);
        assert forall|i: int, j: int| 0 <= i < j < front.len() implies (#[trigger] front[i]).node != (
        #[trigger] front[j]).node by {
            assert(devices[i].node != devices[j].node);
        }
        assert(front[d] == devices[d]);
        lemma_removal_of_present(front, d);
    }
}

/// Every action of an activation refers to a device of the state.
pub proof fn lemma_activation_refers_to_devices(devices: Seq<DeviceView>, n: int)
    requires
        0 <= n < activation_actions(devices).len(),
    ensures
        exists|d: int|
            0 <= d < devices.len() && activation_actions(devices)[n].node() == Some(
                (#[trigger] devices[d]).node,
            ),
    decreases devices.len(),
{
    let front = devices.drop_last();
    let before = activation_actions(front);
    let last = devices.len() - 1;
    if n < before.len() {
        lemma_activation_refers_to_devices(front, n);
        let d = choose|d: int|
            0 <= d < front.len() && before[n].node() == Some((#[trigger] front[d]).node);
        assert(devices[d] == front[d]);
    } else {
        assert(activation_actions(devices)[n].node() == Some(devices[last].node));
    }
}

/// Removing a device withdraws the output of each of its surfaces and then
/// removes its event source; afterwards nothing refers to the device any
/// more: it is not part of the state, no render pass and no session action
/// names it, and an event or a pass result that still arrives for it
/// changes nothing.
pub proof fn lemma_removed_device_leaves_nothing(
    view: UdevView,
    d: int,
    pointer: (i32, i32),
    session_event: SessionEvent,
    drm_event: DrmEvent,
    pass: RenderPass,
    outcome: PassOutcome,
)
    requires
        view.wf(),
        0 <= d < view.devices.len(),
        pass.node == view.devices[d].node,
    ensures
        removal_actions(view.devices, view.devices[d].node) == view.devices[d].teardown_actions(),
        view.devices[d].teardown_actions().len() == view.devices[d].surfaces.len() + 1,
        forall|k: int|
            0 <= k < view.devices[d].surfaces.len() ==> #[trigger] view.devices[d].teardown_actions()[k]
                == (BackendAction::RetractOutput {
                node: view.devices[d].node,
                crtc: view.devices[d].surfaces[k].crtc,
                output: view.devices[d].surfaces[k].output,
            }),
        view.devices[d].teardown_actions().last() == (BackendAction::DeregisterEvents {
            node: view.devices[d].node,
        }),
        !view.without(view.devices[d].node).has_device(view.devices[d].node),
        view.without(view.devices[d].node).wf(),
        forall|n: int|
            0 <= n < render_passes(
                view.without(view.devices[d].node).devices,
                view.session,
                pointer,
            ).len() ==> (#[trigger] render_passes(
                view.without(view.devices[d].node).devices,
                view.session,
                pointer,
            )[n]).node != view.devices[d].node,
        forall|n: int|
            0 <= n < view.without(view.devices[d].node).session_actions(session_event).len() ==> (
            #[trigger] view.without(view.devices[d].node).session_actions(session_event)[n]).node()
                != Some(view.devices[d].node),
        view.without(view.devices[d].node).after_drm_event(view.devices[d].node, drm_event)
            == view.without(view.devices[d].node),
        view.without(view.devices[d].node).after_pass(pass, outcome) == view.without(
            view.devices[d].node,
        ),
{
    let node = view.devices[d].node;
    let after = view.without(node);
    lemma_removal_of_present(view.devices, d);
    lemma_without(view, node);
    let passes = render_passes(after.devices, view.session, pointer);
    assert forall|n: int| 0 <= n < passes.len() implies (#[trigger] passes[n]).node != node by {
        lemma_render_pass_origin(after.devices, view.session, pointer, n);
        let (e, m) = choose|e: int, m: int|
            0 <= e < after.devices.len() && 0 <= m < after.devices[e].surfaces.len()
                && trigger_starts_pass(view.session, (#[trigger] after.devices[e].surfaces[m]).frame)
                && passes[n] == pass_of(after.devices[e].node, after.devices[e].surfaces[m], pointer);
        assert(after.devices[e].node != node);
    }
    let actions = after.session_actions(session_event);
    assert forall|n: int| 0 <= n < actions.len() implies (#[trigger] actions[n]).node() != Some(
        node,
    ) by {
        match session_event {
            SessionEvent::PauseSession => {
                assert(actions[n].node() == Some(after.devices[n].node));
                assert(after.devices[n].node != node);
            },
            SessionEvent::ActivateSession => {
                lemma_activation_refers_to_devices(after.devices, n);
                let e = choose|e: int|
                    0 <= e < after.devices.len() && actions[n].node() == Some(
                        (#[trigger] after.devices[e]).node,
                    );
                assert(after.devices[e].node != node);
            },
        }
    }
    assert forall|e: int| 0 <= e < after.devices.len() implies (#[trigger] after.devices[e]).node
        != node by {}
    assert(after.after_drm_event(node, drm_event).devices =~= after.devices);
    assert(after.after_pass(pass, outcome).devices =~= after.devices);
}

/// A failed swapchain creation is tried again at most once, and only with a
/// fallback subset that is not empty: the second attempt is never tried
/// again, a failed reservation is never tried again, and with an empty
/// fallback subset the first failure ends negotiation.
pub proof fn lemma_at_most_one_retry(failure: CreationFailure, implicit: Seq<Format>)
    ensures
        !retries(Attempt::Implicit, failure, implicit),
        !retries(Attempt::Full, CreationFailure::Reservation, implicit),
        retries(Attempt::Full, CreationFailure::Swapchain, implicit) <==> implicit.len() > 0,
{
}

} // verus!
