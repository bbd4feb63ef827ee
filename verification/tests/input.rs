use projectwc::backend::output::OutputMode;
use projectwc::backend::surface::{PassOutcome, PassProgress, PassStep};
use projectwc::input::{
    handle_keybinding, handle_keyboard_event, handle_pointer_button, ButtonDecision, KeyBinding,
    KeyFilter, BUTTON_LEFT, KEY_ESCAPE, KEY_Q, KEY_RETURN,
};
use projectwc::protocols::wlr_screencopy::{
    announces_buffer_done, buffer_offer, new_frame, split_seconds, validate_buffer, BufferLayout,
    BufferOffer, CopyDecision, FrameRequest, ScreencopyFrameState, SCREENCOPY_VERSION,
};

#[test]
fn bindings_need_alt() {
    assert_eq!(handle_keybinding(true, KEY_ESCAPE), Some(KeyBinding::Quit));
    assert_eq!(handle_keybinding(true, KEY_RETURN), Some(KeyBinding::SpawnTerminal));
    assert_eq!(handle_keybinding(true, KEY_Q), Some(KeyBinding::CloseFocused));
    assert_eq!(handle_keybinding(true, 0x51), None);
    assert_eq!(handle_keybinding(true, 0x20), None);
    assert_eq!(handle_keybinding(false, KEY_ESCAPE), None);
    assert_eq!(handle_keybinding(false, KEY_RETURN), None);
    assert_eq!(handle_keybinding(false, KEY_Q), None);
}

#[test]
fn key_symbols_have_their_x11_values() {
    assert_eq!(KEY_ESCAPE, xkeysym::Keysym::Escape.raw());
    assert_eq!(KEY_RETURN, xkeysym::Keysym::Return.raw());
    assert_eq!(KEY_Q, xkeysym::Keysym::q.raw());
    assert_eq!(KEY_Q, 'q' as u32);
    assert_eq!(BUTTON_LEFT, 272);
}

#[test]
fn only_a_press_starts_a_binding() {
    assert_eq!(
        handle_keyboard_event(true, true, KEY_Q),
        KeyFilter::Intercept(KeyBinding::CloseFocused)
    );
    assert_eq!(handle_keyboard_event(false, true, KEY_Q), KeyFilter::Forward);
    assert_eq!(handle_keyboard_event(true, false, KEY_Q), KeyFilter::Forward);
    assert_eq!(handle_keyboard_event(true, true, 0x61), KeyFilter::Forward);
}

#[test]
fn pointer_button_decisions() {
    let left = BUTTON_LEFT;
    let right = 0x111;
    assert_eq!(handle_pointer_button(true, left, true, true, false), ButtonDecision::StartMove);
    assert_eq!(handle_pointer_button(true, left, true, true, true), ButtonDecision::StartMove);
    assert_eq!(
        handle_pointer_button(true, left, true, false, false),
        ButtonDecision::Forward
    );
    assert_eq!(
        handle_pointer_button(true, left, false, true, false),
        ButtonDecision::FocusAndForward
    );
    assert_eq!(
        handle_pointer_button(true, right, true, true, false),
        ButtonDecision::FocusAndForward
    );
    assert_eq!(handle_pointer_button(false, left, false, true, true), ButtonDecision::EndMove);
    assert_eq!(handle_pointer_button(false, left, true, false, true), ButtonDecision::EndMove);
    assert_eq!(handle_pointer_button(false, left, false, true, false), ButtonDecision::Forward);
    assert_eq!(handle_pointer_button(false, right, false, true, true), ButtonDecision::Forward);
    assert_eq!(handle_pointer_button(true, right, false, false, true), ButtonDecision::Forward);
}

#[test]
fn pass_steps_follow_in_order_and_stop_at_a_failure() {
    assert_eq!(PassStep::first(), PassStep::Acquire);
    assert_eq!(PassStep::Acquire.then_what(true), PassProgress::Next(PassStep::Bind));
    assert_eq!(PassStep::Bind.then_what(true), PassProgress::Next(PassStep::Composite));
    assert_eq!(PassStep::Composite.then_what(true), PassProgress::Next(PassStep::Submit));
    assert_eq!(PassStep::Submit.then_what(true), PassProgress::Done(PassOutcome::Submitted));
    assert_eq!(
        PassStep::Acquire.then_what(false),
        PassProgress::Done(PassOutcome::AcquireFailed)
    );
    assert_eq!(PassStep::Bind.then_what(false), PassProgress::Done(PassOutcome::BindFailed));
    assert_eq!(
        PassStep::Composite.then_what(false),
        PassProgress::Done(PassOutcome::CompositeFailed)
    );
    assert_eq!(PassStep::Submit.then_what(false), PassProgress::Done(PassOutcome::SubmitFailed));
}

#[test]
fn nested_output_runs_at_sixty_hertz() {
    assert_eq!(
        OutputMode::nested(1280, 800),
        OutputMode { width: 1280, height: 800, refresh: 60_000 }
    );
}

#[test]
fn capture_offer_has_packed_rows() {
    assert_eq!(
        buffer_offer(1920, 1080),
        Some(BufferOffer { width: 1920, height: 1080, stride: 7680 })
    );
    assert_eq!(buffer_offer(0, 0), Some(BufferOffer { width: 0, height: 0, stride: 0 }));
    assert_eq!(
        buffer_offer(0x3fff_ffff, 1),
        Some(BufferOffer { width: 0x3fff_ffff, height: 1, stride: 0xffff_fffc })
    );
    assert_eq!(buffer_offer(0x4000_0000, 1), None);
    assert_eq!(buffer_offer(-1, 1), None);
    assert_eq!(buffer_offer(1, -1), None);
}

#[test]
fn capture_announces_the_end_of_offers_from_version_three() {
    assert_eq!(SCREENCOPY_VERSION, 3);
    assert!(!announces_buffer_done(1));
    assert!(!announces_buffer_done(2));
    assert!(announces_buffer_done(3));
    assert!(announces_buffer_done(4));
}

fn layout(width: i32, height: i32, stride: i32, len: usize) -> BufferLayout {
    BufferLayout { xrgb8888: true, width, height, stride, len }
}

#[test]
fn capture_buffer_must_fit_exactly() {
    assert!(validate_buffer(&layout(640, 480, 2560, 1_228_800), 640, 480));
    assert!(!validate_buffer(&layout(640, 480, 2560, 1_228_801), 640, 480));
    assert!(!validate_buffer(&layout(640, 480, 2564, 1_230_720), 640, 480));
    assert!(!validate_buffer(&layout(640, 481, 2560, 1_231_360), 640, 480));
    assert!(!validate_buffer(&layout(641, 480, 2564, 1_230_720), 640, 480));
    let mut other = layout(640, 480, 2560, 1_228_800);
    other.xrgb8888 = false;
    assert!(!validate_buffer(&other, 640, 480));
    assert!(validate_buffer(&layout(0, 0, 0, 0), 0, 0));
    assert!(!validate_buffer(&layout(-1, 1, -4, 0), -1, 1));
    assert!(!validate_buffer(&layout(0x2000_0000, 1, i32::MIN, 0), 0x2000_0000, 1));
}

#[test]
fn capture_frame_takes_one_buffer() {
    let good = FrameRequest::Copy(layout(4, 2, 16, 32));
    let bad = FrameRequest::Copy(layout(4, 2, 16, 31));
    let mut frame = new_frame(true);
    assert_eq!(frame, ScreencopyFrameState::Pending { copied: false });
    assert_eq!(frame.request(FrameRequest::Destroy, 4, 2), CopyDecision::Ignore);
    assert_eq!(frame.request(bad, 4, 2), CopyDecision::InvalidBuffer);
    assert_eq!(frame, ScreencopyFrameState::Pending { copied: false });
    assert_eq!(frame.request(good, 4, 2), CopyDecision::Accept);
    assert_eq!(frame, ScreencopyFrameState::Pending { copied: true });
    assert_eq!(frame.request(good, 4, 2), CopyDecision::AlreadyUsed);
    assert_eq!(frame.request(bad, 4, 2), CopyDecision::AlreadyUsed);
    assert_eq!(frame.request(FrameRequest::Destroy, 4, 2), CopyDecision::Ignore);
    assert_eq!(frame, ScreencopyFrameState::Pending { copied: true });
}

#[test]
fn failed_capture_frame_answers_nothing() {
    let mut frame = new_frame(false);
    assert_eq!(frame, ScreencopyFrameState::Failed);
    assert_eq!(
        frame.request(FrameRequest::Copy(layout(4, 2, 16, 32)), 4, 2),
        CopyDecision::Ignore
    );
    assert_eq!(frame, ScreencopyFrameState::Failed);
}

#[test]
fn capture_time_is_split_into_halves() {
    assert_eq!(split_seconds(0), (0, 0));
    assert_eq!(split_seconds(1_700_000_000), (0, 1_700_000_000));
    assert_eq!(split_seconds(0x1_0000_0000), (1, 0));
    assert_eq!(split_seconds(0x1234_5678_9abc_def0), (0x1234_5678, 0x9abc_def0));
    assert_eq!(split_seconds(u64::MAX), (u32::MAX, u32::MAX));
}
