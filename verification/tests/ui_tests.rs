use annotations::input::{KeyName, KeyPress};
use annotations::overlay::{draw_mode_input_region, input_region, InputRegion, Layer, SCREEN_EXTENT};
use annotations::platform::{above_state_messages, NET_WM_STATE_ADD};
use annotations::state::{AppState, Color, PathTool, Stroke, StrokeWidth, Tool};
use annotations::stroke::{laser_paint, stroke_paint, Paint, HIGHLIGHTER_ALPHA, LASER_WIDTH};
use annotations::toolbar::{tool_button_states, toolbar_key};

#[test]
fn toolbar_settings_do_not_touch_the_drawing() {
    let mut st = AppState::new();
    st.strokes.push(Stroke::Line { start: (0, 0), end: (1, 1), color: Color::red(), width: 2 });
    st.select_tool(Tool::Eraser);
    st.set_color(Color::yellow());
    st.set_stroke_width(StrokeWidth::Thin);
    assert_eq!(st.active_tool, Tool::Eraser);
    assert_eq!(st.active_color, Color::yellow());
    assert_eq!(st.stroke_width, StrokeWidth::Thin);
    assert_eq!(st.strokes.len(), 1);
    assert!(st.toggle_draw_mode());
    assert!(st.draw_mode);
    assert!(!st.toggle_draw_mode());
    assert!(!st.draw_mode);
}

#[test]
fn exactly_the_selected_tool_is_highlighted() {
    let tools = vec![
        Tool::Pen,
        Tool::Highlighter,
        Tool::Line,
        Tool::Rectangle,
        Tool::Ellipse,
        Tool::Text,
        Tool::Laser,
        Tool::Eraser,
    ];
    assert_eq!(
        tool_button_states(&tools, Tool::Pen),
        vec![true, false, false, false, false, false, false, false]
    );
    assert_eq!(
        tool_button_states(&tools, Tool::Eraser),
        vec![false, false, false, false, false, false, false, true]
    );
}

#[test]
fn ctrl_h_toggles_the_toolbar() {
    let h = KeyPress { name: KeyName::H, unicode: Some('h'), ctrl: true, shift: false };
    assert_eq!(toolbar_key(&h, true), Some(false));
    assert_eq!(toolbar_key(&h, false), Some(true));
    let plain = KeyPress { name: KeyName::H, unicode: Some('h'), ctrl: false, shift: false };
    assert_eq!(toolbar_key(&plain, true), None);
    let d = KeyPress { name: KeyName::D, unicode: Some('d'), ctrl: true, shift: false };
    assert_eq!(toolbar_key(&d, true), None);
    let shifted = KeyPress { name: KeyName::H, unicode: Some('H'), ctrl: true, shift: true };
    assert_eq!(toolbar_key(&shifted, true), None);
}

#[test]
fn input_regions() {
    assert_eq!(SCREEN_EXTENT, 32767);
    assert_eq!(input_region(true, Some((1, 2, 3, 4))), InputRegion::Empty);
    assert_eq!(
        input_region(false, None),
        InputRegion::Covering { full: (0, 0, 32767, 32767), hole: None }
    );
    assert_eq!(draw_mode_input_region(false, Some((1, 2, 3, 4))), InputRegion::Empty);
    assert_eq!(
        draw_mode_input_region(true, Some((40, 40, 480, 48))),
        InputRegion::Covering { full: (0, 0, 32767, 32767), hole: Some((40, 40, 480, 48)) }
    );
}

#[test]
fn paints() {
    let red = Color::red();
    let short = Stroke::Path { points: vec![(0, 0)], color: red, width: 5, tool: PathTool::Pen };
    assert_eq!(stroke_paint(&short), None);
    let pen = Stroke::Path { points: vec![(0, 0), (1, 1)], color: red, width: 5, tool: PathTool::Pen };
    assert_eq!(stroke_paint(&pen), Some(Paint { color: red, size: 5 }));
    let hl = Stroke::Path { points: vec![(0, 0), (1, 1)], color: red, width: 12, tool: PathTool::Highlighter };
    assert_eq!(HIGHLIGHTER_ALPHA, 500);
    assert_eq!(stroke_paint(&hl), Some(Paint { color: Color::new(900, 100, 100, 500), size: 12 }));
    let flat = Stroke::Ellipse { center: (0, 0), radii: (0, 4), color: red, width: 2 };
    assert_eq!(stroke_paint(&flat), None);
    let round = Stroke::Ellipse { center: (0, 0), radii: (1, 4), color: red, width: 2 };
    assert_eq!(stroke_paint(&round), Some(Paint { color: red, size: 2 }));
    let text = Stroke::Text { position: (0, 0), content: String::new(), color: red, size: 24 };
    assert_eq!(stroke_paint(&text), Some(Paint { color: red, size: 24 }));
    let rect = Stroke::Rect { origin: (0, 0), size: (0, 0), color: red, width: 3 };
    assert_eq!(stroke_paint(&rect), Some(Paint { color: red, size: 3 }));
    assert_eq!(laser_paint(&vec![(0, 0)], 900), None);
    assert_eq!(
        laser_paint(&vec![(0, 0), (1, 1)], 900),
        Some(Paint { color: Color::new(1000, 100, 100, 900), size: LASER_WIDTH })
    );
    assert_eq!(LASER_WIDTH, 4);
}

#[test]
fn net_wm_state_messages() {
    let m = above_state_messages(11, 22, 33);
    assert_eq!(NET_WM_STATE_ADD, 1);
    assert_eq!(m, vec![[1, 11, 0, 0, 0], [1, 22, 33, 0, 0]]);
}

#[test]
fn paint_order_is_strokes_then_pending_then_laser() {
    let mut st = AppState::new();
    assert!(st.layers().is_empty());
    st.strokes.push(Stroke::Line { start: (0, 0), end: (1, 1), color: Color::red(), width: 2 });
    st.strokes.push(Stroke::Line { start: (2, 2), end: (3, 3), color: Color::red(), width: 2 });
    assert_eq!(st.layers(), vec![Layer::Finished(0), Layer::Finished(1)]);
    st.current_stroke = Some(Stroke::Line { start: (4, 4), end: (5, 5), color: Color::red(), width: 2 });
    st.laser_points.push((9, 9));
    assert_eq!(
        st.layers(),
        vec![Layer::Finished(0), Layer::Finished(1), Layer::InProgress, Layer::Laser]
    );
    st.current_stroke = None;
    assert_eq!(st.layers(), vec![Layer::Finished(0), Layer::Finished(1), Layer::Laser]);
}
