use projectwc::backend::connector::{ConnectorInfo, EncoderInfo, ModeInfo, ResourceHandles};
use projectwc::backend::event::{BackendAction, DrmEvent, SessionEvent, SessionState, UdevEvent};
use projectwc::backend::failure::{ConstructionFailure, ConstructionStep, InitStage};
use projectwc::backend::format::{Format, MODIFIER_INVALID};
use projectwc::backend::output::{OutputMode, OutputRecord, Rectangle};
use projectwc::backend::request::{Attempt, CreationFailure, SurfaceRequest};
use projectwc::backend::surface::{
    CursorElement, FrameState, PassLayer, PassOutcome, RenderPass,
};
use projectwc::backend::udev::{init_udev, GpuCandidate, UdevData};
use projectwc::CompositorError;

const LINEAR: u64 = 0;
const XRGB: u32 = 0x34325258;
const ARGB: u32 = 0x34325241;

fn caps() -> Vec<Format> {
    vec![
        Format { code: XRGB, modifier: LINEAR },
        Format { code: XRGB, modifier: MODIFIER_INVALID },
        Format { code: ARGB, modifier: 0x0100_0000_0000_0006 },
    ]
}

fn connector(handle: u32, interface_id: u32) -> ConnectorInfo {
    ConnectorInfo {
        handle,
        connected: true,
        interface: 11,
        interface_id,
        size: None,
        modes: vec![ModeInfo { width: 1920, height: 1080, vrefresh: 60, preferred: true }],
        current_encoder: None,
        encoders: vec![EncoderInfo { crtc: None, possible_crtcs: 0b11 }],
    }
}

fn output(interface_id: u32) -> OutputRecord {
    OutputRecord {
        interface: 11,
        interface_id,
        physical_size: (0, 0),
        mode: OutputMode { width: 1920, height: 1080, refresh: 60_000 },
    }
}

/// Drives a scan to its end against hardware that accepts every request.
fn scan_all(data: &mut UdevData, node: u64, crtcs: Vec<u32>, connectors: &Vec<ConnectorInfo>) {
    let res = ResourceHandles { crtcs };
    let mut start = 0;
    loop {
        let step = data.scan_connectors(node, &res, connectors, start).unwrap();
        match step.request {
            Some(request) => {
                data.register_surface(node, &request).unwrap();
                start = step.index + 1;
            }
            None => break,
        }
    }
}

fn backend_with_two_surfaces() -> UdevData {
    let mut data = UdevData::new(1);
    data.add_device(1, Ok(caps())).unwrap();
    scan_all(&mut data, 1, vec![40, 41], &vec![connector(5, 1), connector(6, 2)]);
    data
}

fn frames(data: &UdevData) -> Vec<(u64, u32, FrameState)> {
    let mut out = Vec::new();
    for d in data.devices() {
        for s in d.surfaces() {
            out.push((d.node(), s.crtc, s.frame));
        }
    }
    out
}

#[test]
fn startup_picks_the_first_gpu_that_can_render() {
    let found = vec![
        GpuCandidate { device_id: 10, render_node: None },
        GpuCandidate { device_id: 11, render_node: Some(128) },
        GpuCandidate { device_id: 12, render_node: Some(129) },
    ];
    let startup = init_udev(&found).unwrap();
    assert_eq!(startup.data.primary_gpu(), 128);
    assert_eq!(startup.data.session(), SessionState::Active);
    assert!(startup.data.devices().is_empty());
    assert_eq!(
        startup.actions,
        vec![
            BackendAction::ConstructDevice { node: 10 },
            BackendAction::ConstructDevice { node: 11 },
            BackendAction::ConstructDevice { node: 12 },
            BackendAction::ScheduleRender,
        ]
    );
}

#[test]
fn startup_fails_without_a_gpu_that_can_render() {
    let none: Vec<GpuCandidate> = Vec::new();
    assert_eq!(
        init_udev(&none).unwrap_err(),
        CompositorError::Backend("no suitable GPU found".to_string())
    );
    let found = vec![GpuCandidate { device_id: 10, render_node: None }];
    assert_eq!(
        init_udev(&found).unwrap_err(),
        CompositorError::Backend("no suitable GPU found".to_string())
    );
}

#[test]
fn added_device_negotiates_its_formats_and_asks_for_a_scan() {
    let mut data = UdevData::new(1);
    let actions = data.add_device(3, Ok(caps())).unwrap();
    assert_eq!(actions, vec![BackendAction::ScanConnectors { node: 3 }]);
    assert_eq!(data.devices().len(), 1);
    let d = data.device(3).unwrap();
    assert_eq!(d.node(), 3);
    assert!(d.surfaces().is_empty());
    assert_eq!(
        d.candidates().formats,
        vec![
            Format { code: XRGB, modifier: LINEAR },
            Format { code: XRGB, modifier: MODIFIER_INVALID },
        ]
    );
    assert_eq!(d.candidates().implicit, vec![Format { code: XRGB, modifier: MODIFIER_INVALID }]);
    assert_eq!(d.candidates().filtered, 1);
}

#[test]
fn failed_construction_leaves_no_device() {
    let steps = [
        (ConstructionStep::Node, "failed to get DRM node: denied"),
        (ConstructionStep::Open, "failed to open device: denied"),
        (ConstructionStep::Drm, "failed to create DRM device: denied"),
        (ConstructionStep::Gbm, "failed to create GBM device: denied"),
        (ConstructionStep::EglDisplay, "failed to create EGL display: denied"),
        (ConstructionStep::EglContext, "failed to create EGL context: denied"),
        (ConstructionStep::Renderer, "failed to create GLES renderer: denied"),
        (ConstructionStep::EventSource, "failed to insert DRM notifier: denied"),
    ];
    for (step, text) in steps {
        let mut data = UdevData::new(1);
        data.add_device(2, Ok(caps())).unwrap();
        let r = data.add_device(
            3,
            Err(ConstructionFailure { step, detail: "denied".to_string() }),
        );
        assert_eq!(r, Err(CompositorError::Backend(text.to_string())));
        assert_eq!(data.devices().len(), 1);
        assert!(data.device(3).is_none());
        assert!(data.device(2).is_some());
    }
}

#[test]
fn construction_steps_follow_in_order() {
    let mut order = vec![ConstructionStep::first()];
    while let Some(next) = order[order.len() - 1].next() {
        order.push(next);
    }
    assert_eq!(
        order,
        vec![
            ConstructionStep::Node,
            ConstructionStep::Open,
            ConstructionStep::Drm,
            ConstructionStep::Gbm,
            ConstructionStep::EglDisplay,
            ConstructionStep::EglContext,
            ConstructionStep::Renderer,
            ConstructionStep::EventSource,
        ]
    );
}

#[test]
fn startup_failures_name_the_stage() {
    let e = |stage: InitStage| stage.error("boom");
    assert_eq!(
        e(InitStage::Session),
        CompositorError::Backend("failed to create session: boom".to_string())
    );
    assert_eq!(
        e(InitStage::UdevBackend),
        CompositorError::Backend("failed to create udev backend: boom".to_string())
    );
    assert_eq!(
        e(InitStage::Seat),
        CompositorError::Backend("failed to assign seat to libinput".to_string())
    );
    assert_eq!(
        e(InitStage::InputSource),
        CompositorError::Backend("failed to insert libinput: boom".to_string())
    );
    assert_eq!(
        e(InitStage::SessionSource),
        CompositorError::Backend("failed to insert session notifier: boom".to_string())
    );
    assert_eq!(
        e(InitStage::UdevSource),
        CompositorError::Backend("failed to insert udev: boom".to_string())
    );
}

#[test]
fn device_added_twice_replaces_the_first() {
    let mut data = backend_with_two_surfaces();
    let actions = data.add_device(1, Ok(Vec::new())).unwrap();
    assert_eq!(
        actions,
        vec![
            BackendAction::RetractOutput { node: 1, crtc: 40, output: output(1) },
            BackendAction::RetractOutput { node: 1, crtc: 41, output: output(2) },
            BackendAction::DeregisterEvents { node: 1 },
            BackendAction::ScanConnectors { node: 1 },
        ]
    );
    assert_eq!(data.devices().len(), 1);
    assert!(data.device(1).unwrap().surfaces().is_empty());
}

#[test]
fn surfaces_of_a_device_never_share_a_pipeline() {
    let mut data = UdevData::new(1);
    data.add_device(1, Ok(caps())).unwrap();
    let connectors = vec![connector(5, 1), connector(6, 2), connector(7, 3)];
    let res = ResourceHandles { crtcs: vec![40, 41] };
    let mut start = 0;
    let mut failures = Vec::new();
    loop {
        let step = data.scan_connectors(1, &res, &connectors, start).unwrap();
        failures.extend(step.failures);
        match step.request {
            Some(request) => {
                data.register_surface(1, &request).unwrap();
                data.register_surface(1, &request).unwrap();
                start = step.index + 1;
            }
            None => break,
        }
    }
    let crtcs: Vec<u32> = data.device(1).unwrap().surfaces().iter().map(|s| s.crtc).collect();
    assert_eq!(crtcs, vec![40, 41]);
    assert_eq!(failures.len(), 1);
    assert_eq!(failures[0].index, 2);
    assert_eq!(
        failures[0].error,
        CompositorError::Backend("no available pipeline".to_string())
    );
}

#[test]
fn registration_advertises_the_output_and_triggers_one_render() {
    let mut data = UdevData::new(1);
    data.add_device(1, Ok(caps())).unwrap();
    let res = ResourceHandles { crtcs: vec![40] };
    let connectors = vec![connector(5, 1)];
    let step = data.scan_connectors(1, &res, &connectors, 0).unwrap();
    let request = step.request.unwrap();
    let actions = data.register_surface(1, &request).unwrap();
    assert_eq!(
        actions,
        vec![
            BackendAction::AdvertiseOutput { node: 1, crtc: 40, output: output(1) },
            BackendAction::ScheduleRender,
        ]
    );
    let s = data.device(1).unwrap().surfaces()[0];
    assert_eq!(s.crtc, 40);
    assert_eq!(s.connector, 5);
    assert_eq!(s.frame, FrameState::Idle);
    assert!(!s.implicit_modifiers);
}

#[test]
fn negotiation_for_an_unknown_device_fails() {
    let mut data = UdevData::new(1);
    let res = ResourceHandles { crtcs: vec![40] };
    let missing = CompositorError::Backend("device not found".to_string());
    assert_eq!(data.scan_connectors(9, &res, &Vec::new(), 0).unwrap_err(), missing);
    let request = SurfaceRequest {
        connector: 5,
        crtc: 40,
        mode: ModeInfo { width: 1, height: 1, vrefresh: 1, preferred: false },
        output: output(1),
        attempt: Attempt::Full,
        formats: Vec::new(),
        codes: Vec::new(),
        usage: projectwc::backend::request::BufferUsage { rendering: true, scanout: true },
    };
    assert_eq!(data.register_surface(9, &request).unwrap_err(), missing);
    assert_eq!(
        data.fallback_request(9, &request, CreationFailure::Swapchain, "x").unwrap_err(),
        missing
    );
    assert!(data.devices().is_empty());
}

#[test]
fn swapchain_fallback_retries_once_with_implicit_formats() {
    let mut data = UdevData::new(1);
    data.add_device(1, Ok(caps())).unwrap();
    let res = ResourceHandles { crtcs: vec![40] };
    let connectors = vec![connector(5, 1)];
    let step = data.scan_connectors(1, &res, &connectors, 0).unwrap();
    let first = step.request.unwrap();
    assert_eq!(first.attempt, Attempt::Full);
    // The hardware refuses every request that offers an explicit modifier.
    let accepts = |r: &SurfaceRequest| r.formats.iter().all(|f| f.modifier == MODIFIER_INVALID);
    let mut attempts = 1;
    assert!(!accepts(&first));
    let second = data
        .fallback_request(1, &first, CreationFailure::Swapchain, "no modifiers")
        .unwrap();
    attempts += 1;
    assert_eq!(second.attempt, Attempt::Implicit);
    assert_eq!(second.formats, vec![Format { code: XRGB, modifier: MODIFIER_INVALID }]);
    assert_eq!(second.codes, vec![XRGB]);
    assert_eq!(second.crtc, first.crtc);
    assert_eq!(second.connector, first.connector);
    assert_eq!(second.mode, first.mode);
    assert_eq!(second.output, first.output);
    assert_eq!(second.usage, first.usage);
    assert!(accepts(&second));
    data.register_surface(1, &second).unwrap();
    assert_eq!(attempts, 2);
    let surfaces = data.device(1).unwrap().surfaces();
    assert_eq!(surfaces.len(), 1);
    assert!(surfaces[0].implicit_modifiers);
}

#[test]
fn swapchain_fallback_is_exhausted_after_the_second_attempt() {
    let mut data = UdevData::new(1);
    data.add_device(1, Ok(caps())).unwrap();
    let res = ResourceHandles { crtcs: vec![40] };
    let step = data.scan_connectors(1, &res, &vec![connector(5, 1)], 0).unwrap();
    let first = step.request.unwrap();
    let second = data.fallback_request(1, &first, CreationFailure::Swapchain, "a").unwrap();
    let r = data.fallback_request(1, &second, CreationFailure::Swapchain, "b");
    assert_eq!(
        r,
        Err(CompositorError::Backend(
            "failed to create GBM surface with implicit modifier: b".to_string()
        ))
    );
    assert!(data.device(1).unwrap().surfaces().is_empty());
}

#[test]
fn swapchain_fallback_fails_without_implicit_formats() {
    let mut data = UdevData::new(1);
    data.add_device(1, Ok(vec![Format { code: XRGB, modifier: LINEAR }])).unwrap();
    let res = ResourceHandles { crtcs: vec![40] };
    let step = data.scan_connectors(1, &res, &vec![connector(5, 1)], 0).unwrap();
    let first = step.request.unwrap();
    let r = data.fallback_request(1, &first, CreationFailure::Swapchain, "refused");
    assert_eq!(
        r,
        Err(CompositorError::Backend(
            "failed to create GBM surface with implicit modifier: refused".to_string()
        ))
    );
    assert!(data.device(1).unwrap().surfaces().is_empty());
}

#[test]
fn failed_reservation_is_not_tried_again() {
    let mut data = UdevData::new(1);
    data.add_device(1, Ok(caps())).unwrap();
    let res = ResourceHandles { crtcs: vec![40] };
    let step = data.scan_connectors(1, &res, &vec![connector(5, 1)], 0).unwrap();
    let first = step.request.unwrap();
    let r = data.fallback_request(1, &first, CreationFailure::Reservation, "busy");
    assert_eq!(
        r,
        Err(CompositorError::Backend("failed to create DRM surface: busy".to_string()))
    );
}

#[test]
fn render_trigger_starts_one_pass_per_idle_surface() {
    let data = backend_with_two_surfaces();
    let passes = data.render((100, 200));
    assert_eq!(
        passes,
        vec![
            RenderPass {
                node: 1,
                crtc: 40,
                output: output(1),
                damage: Rectangle { x: 0, y: 0, width: 1920, height: 1080 },
                cursor: CursorElement { x: 100, y: 200, size: 16 },
                layers: (PassLayer::Windows, PassLayer::Cursor),
            },
            RenderPass {
                node: 1,
                crtc: 41,
                output: output(2),
                damage: Rectangle { x: 0, y: 0, width: 1920, height: 1080 },
                cursor: CursorElement { x: 100, y: 200, size: 16 },
                layers: (PassLayer::Windows, PassLayer::Cursor),
            },
        ]
    );
}

#[test]
fn pending_surface_is_not_rendered_again() {
    let mut data = backend_with_two_surfaces();
    let passes = data.render((0, 0));
    let notice = data.pass_finished(&passes[0], PassOutcome::Submitted);
    assert_eq!(notice, BackendAction::NotifyFrame { node: 1, crtc: 40, output: output(1) });
    assert_eq!(
        frames(&data),
        vec![(1, 40, FrameState::Pending), (1, 41, FrameState::Idle)]
    );
    for _ in 0..3 {
        let again = data.render((0, 0));
        assert_eq!(again.len(), 1);
        assert_eq!(again[0].crtc, 41);
    }
    // A pass reported for the pending surface all the same changes nothing.
    data.pass_finished(&passes[0], PassOutcome::Submitted);
    data.pass_finished(&passes[0], PassOutcome::AcquireFailed);
    assert_eq!(
        frames(&data),
        vec![(1, 40, FrameState::Pending), (1, 41, FrameState::Idle)]
    );
}

#[test]
fn failed_pass_leaves_the_surface_schedulable_and_still_notifies() {
    let failures = [
        PassOutcome::AcquireFailed,
        PassOutcome::BindFailed,
        PassOutcome::CompositeFailed,
        PassOutcome::SubmitFailed,
    ];
    for outcome in failures {
        let mut data = backend_with_two_surfaces();
        let passes = data.render((0, 0));
        let notice = data.pass_finished(&passes[1], outcome);
        assert_eq!(notice, BackendAction::NotifyFrame { node: 1, crtc: 41, output: output(2) });
        assert_eq!(
            frames(&data),
            vec![(1, 40, FrameState::Idle), (1, 41, FrameState::Idle)]
        );
        assert_eq!(data.render((0, 0)).len(), 2);
    }
}

#[test]
fn completed_frame_frees_the_surface_and_triggers_the_next_render() {
    let mut data = backend_with_two_surfaces();
    let passes = data.render((0, 0));
    data.pass_finished(&passes[0], PassOutcome::Submitted);
    data.pass_finished(&passes[1], PassOutcome::Submitted);
    assert!(data.render((0, 0)).is_empty());
    let actions = data.handle_drm_event(1, DrmEvent::VBlank(40));
    assert_eq!(actions, vec![BackendAction::ScheduleRender]);
    assert_eq!(
        frames(&data),
        vec![(1, 40, FrameState::Idle), (1, 41, FrameState::Pending)]
    );
    let next = data.render((0, 0));
    assert_eq!(next.len(), 1);
    assert_eq!(next[0].crtc, 40);
}

#[test]
fn hardware_error_changes_nothing() {
    let mut data = backend_with_two_surfaces();
    let passes = data.render((0, 0));
    data.pass_finished(&passes[0], PassOutcome::Submitted);
    let before = frames(&data);
    assert!(data.handle_drm_event(1, DrmEvent::Error).is_empty());
    assert_eq!(frames(&data), before);
}

#[test]
fn paused_session_renders_nothing_and_resume_renders_each_surface_once() {
    let mut data = backend_with_two_surfaces();
    data.add_device(2, Ok(caps())).unwrap();
    scan_all(&mut data, 2, vec![50], &vec![connector(8, 3)]);
    let passes = data.render((0, 0));
    assert_eq!(passes.len(), 3);
    data.pass_finished(&passes[0], PassOutcome::Submitted);

    let paused = data.handle_session_event(SessionEvent::PauseSession);
    assert_eq!(
        paused,
        vec![BackendAction::PauseDevice { node: 1 }, BackendAction::PauseDevice { node: 2 }]
    );
    assert_eq!(data.session(), SessionState::Paused);
    // A frame completes while paused: nothing is triggered, nothing is rendered.
    assert!(data.handle_drm_event(1, DrmEvent::VBlank(40)).is_empty());
    assert_eq!(data.schedule_render(), None);
    assert!(data.render((0, 0)).is_empty());

    let resumed = data.handle_session_event(SessionEvent::ActivateSession);
    assert_eq!(
        resumed,
        vec![
            BackendAction::ActivateDevice { node: 1 },
            BackendAction::ResetBuffers { node: 1, crtc: 40 },
            BackendAction::ResetBuffers { node: 1, crtc: 41 },
            BackendAction::ActivateDevice { node: 2 },
            BackendAction::ResetBuffers { node: 2, crtc: 50 },
        ]
    );
    assert_eq!(data.session(), SessionState::Active);
    assert_eq!(data.schedule_render(), Some(BackendAction::ScheduleRender));
    let keys: Vec<(u64, u32)> = data.render((0, 0)).iter().map(|p| (p.node, p.crtc)).collect();
    assert_eq!(keys, vec![(1, 40), (1, 41), (2, 50)]);
}

#[test]
fn resume_resets_a_frame_that_was_in_flight() {
    let mut data = backend_with_two_surfaces();
    let passes = data.render((0, 0));
    data.pass_finished(&passes[0], PassOutcome::Submitted);
    data.pass_finished(&passes[1], PassOutcome::Submitted);
    data.handle_session_event(SessionEvent::PauseSession);
    data.handle_session_event(SessionEvent::ActivateSession);
    assert_eq!(
        frames(&data),
        vec![(1, 40, FrameState::Idle), (1, 41, FrameState::Idle)]
    );
    assert_eq!(data.render((0, 0)).len(), 2);
}

#[test]
fn removed_device_retracts_its_outputs_and_leaves_nothing() {
    let mut data = backend_with_two_surfaces();
    data.add_device(2, Ok(caps())).unwrap();
    scan_all(&mut data, 2, vec![50], &vec![connector(8, 3)]);
    let stale = data.render((0, 0));

    let actions = data.handle_udev_event(UdevEvent::Removed { device_id: 1 });
    assert_eq!(
        actions,
        vec![
            BackendAction::RetractOutput { node: 1, crtc: 40, output: output(1) },
            BackendAction::RetractOutput { node: 1, crtc: 41, output: output(2) },
            BackendAction::DeregisterEvents { node: 1 },
        ]
    );
    assert!(data.device(1).is_none());
    assert_eq!(data.devices().len(), 1);

    let all: Vec<u64> = data.render((0, 0)).iter().map(|p| p.node).collect();
    assert_eq!(all, vec![2]);
    let before = frames(&data);
    data.handle_drm_event(1, DrmEvent::VBlank(40));
    data.pass_finished(&stale[0], PassOutcome::Submitted);
    assert_eq!(frames(&data), before);
    assert_eq!(
        data.handle_session_event(SessionEvent::PauseSession),
        vec![BackendAction::PauseDevice { node: 2 }]
    );
    assert_eq!(
        data.handle_session_event(SessionEvent::ActivateSession),
        vec![
            BackendAction::ActivateDevice { node: 2 },
            BackendAction::ResetBuffers { node: 2, crtc: 50 },
        ]
    );
    assert!(data.remove_device(1).is_empty());
}

#[test]
fn hotplug_notifications_ask_for_construction_or_nothing() {
    let mut data = backend_with_two_surfaces();
    let before = frames(&data);
    assert_eq!(
        data.handle_udev_event(UdevEvent::Added { device_id: 9 }),
        vec![BackendAction::ConstructDevice { node: 9 }]
    );
    assert!(data.handle_udev_event(UdevEvent::Changed { device_id: 1 }).is_empty());
    assert!(data.handle_udev_event(UdevEvent::Removed { device_id: 9 }).is_empty());
    assert_eq!(frames(&data), before);
    assert_eq!(data.devices().len(), 1);
}

#[test]
fn initial_render_is_always_scheduled() {
    let mut data = UdevData::new(1);
    assert_eq!(data.schedule_initial_render(), BackendAction::ScheduleRender);
    data.handle_session_event(SessionEvent::PauseSession);
    assert_eq!(data.schedule_initial_render(), BackendAction::ScheduleRender);
}
