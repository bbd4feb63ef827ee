use projectwc::action::{Action, FocusChange};
use projectwc::backend::output::Rectangle;
use projectwc::layout::{GapConfig, LayoutType, WindowGeometry};
use projectwc::protocols::wlr_screencopy::ScreencopyManagerState;
use projectwc::shell::{placement, popup_target};
use projectwc::workspace::Workspace;
use projectwc::CompositorError;

#[test]
fn layout_names_are_read_in_any_case() {
    assert_eq!(LayoutType::from_str("tiling"), Ok(LayoutType::Tiling));
    assert_eq!(LayoutType::from_str("Tiling"), Ok(LayoutType::Tiling));
    assert_eq!(LayoutType::from_str("TILING"), Ok(LayoutType::Tiling));
}

#[test]
fn unknown_layout_names_are_rejected_as_written() {
    assert_eq!(
        LayoutType::from_str("Floating"),
        Err("Invalid Layout Type: Floating".to_string())
    );
    assert_eq!(LayoutType::from_str(""), Err("Invalid Layout Type: ".to_string()));
    assert_eq!(
        LayoutType::from_str(" tiling"),
        Err("Invalid Layout Type:  tiling".to_string())
    );
}

#[test]
fn layout_from_a_lowered_name() {
    assert_eq!(LayoutType::from_lowercase("tiling", "TiLiNg"), Ok(LayoutType::Tiling));
    assert_eq!(
        LayoutType::from_lowercase("Tiling", "Tiling"),
        Err("Invalid Layout Type: Tiling".to_string())
    );
    assert_eq!(
        LayoutType::from_lowercase("grid", "GRID"),
        Err("Invalid Layout Type: GRID".to_string())
    );
}

#[test]
fn focus_moves_one_step_and_stops_at_the_ends() {
    let next = Action::FocusNext;
    let prev = Action::FocusPrevious;
    assert_eq!(next.execute(Some(0), 3), Some(FocusChange { previous: Some(0), target: 1 }));
    assert_eq!(next.execute(Some(1), 3), Some(FocusChange { previous: Some(1), target: 2 }));
    assert_eq!(next.execute(Some(2), 3), None);
    assert_eq!(prev.execute(Some(2), 3), Some(FocusChange { previous: Some(2), target: 1 }));
    assert_eq!(prev.execute(Some(0), 3), None);
}

#[test]
fn focus_starts_at_an_end_without_a_focused_window() {
    assert_eq!(
        Action::FocusNext.execute(None, 3),
        Some(FocusChange { previous: None, target: 0 })
    );
    assert_eq!(
        Action::FocusPrevious.execute(None, 3),
        Some(FocusChange { previous: None, target: 2 })
    );
}

#[test]
fn focus_does_not_move_without_windows() {
    assert_eq!(Action::FocusNext.execute(None, 0), None);
    assert_eq!(Action::FocusPrevious.execute(None, 0), None);
    assert_eq!(Action::FocusNext.execute(Some(0), 0), None);
    assert_eq!(Action::FocusPrevious.execute(Some(5), 3), None);
    assert_eq!(Action::FocusNext.execute(Some(usize::MAX), usize::MAX), None);
}

#[test]
fn errors_render_with_their_prefix() {
    assert_eq!(
        CompositorError::Backend("x".to_string()).message(),
        "backend initialization failed: x"
    );
    assert_eq!(
        CompositorError::Renderer("x".to_string()).message(),
        "renderer creation failed: x"
    );
    assert_eq!(
        CompositorError::Socket("x".to_string()).message(),
        "wayland socket creation failed: x"
    );
    assert_eq!(
        CompositorError::EventLoop("".to_string()).message(),
        "event loop error: "
    );
    assert_eq!(
        CompositorError::backend("a: ", "b"),
        CompositorError::Backend("a: b".to_string())
    );
    assert_eq!(
        CompositorError::backend_text("c"),
        CompositorError::Backend("c".to_string())
    );
}

#[test]
fn plain_values_can_be_built() {
    let gaps = GapConfig {
        inner_horizontal: 10,
        inner_vertical: 10,
        outer_horizontal: 20,
        outer_vertical: 20,
    };
    assert_eq!(gaps.outer_horizontal, 20);
    let g = WindowGeometry { x_coordinate: -1, y_coordinate: 2, width: 3, height: 4 };
    assert_eq!(g.clone(), g);
    assert_eq!(Workspace {}, Workspace {});
    assert_eq!(ScreencopyManagerState::default(), ScreencopyManagerState);
}

#[test]
fn popup_target_is_the_output_seen_from_the_window() {
    let output = Rectangle { x: 0, y: 0, width: 1920, height: 1080 };
    assert_eq!(
        popup_target(output, (10, 20), (300, 400)),
        Some(Rectangle { x: -310, y: -420, width: 1920, height: 1080 })
    );
    assert_eq!(popup_target(output, (0, 0), (0, 0)), Some(output));
    assert_eq!(
        popup_target(output, (-5, 7), (i32::MIN + 6, 0)),
        Some(Rectangle { x: i32::MAX, y: -7, width: 1920, height: 1080 })
    );
    assert_eq!(popup_target(output, (0, 0), (i32::MIN, 0)), None);
    assert_eq!(popup_target(output, (2, 0), (i32::MAX, 0)), None);
    assert_eq!(popup_target(output, (0, i32::MAX), (0, 2)), None);
}

#[test]
fn placement_counts_from_the_origin_of_the_output() {
    let g = WindowGeometry { x_coordinate: 20, y_coordinate: 30, width: 100, height: 50 };
    assert_eq!(placement((1920, 0), &g), Some((1940, 30)));
    assert_eq!(placement((-20, -30), &g), Some((0, 0)));
    assert_eq!(placement((i32::MAX - 20, 0), &g), Some((i32::MAX, 30)));
    assert_eq!(placement((i32::MAX - 19, 0), &g), None);
    assert_eq!(placement((0, i32::MAX), &g), None);
}
