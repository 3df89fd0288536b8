use annotations::config::{Config, DrawingConfig, ToolbarConfig};
use annotations::state::{AppState, Color, PathTool, Stroke, StrokeWidth, Tool};

fn line(x: i16) -> Stroke {
    Stroke::Line { start: (x, 0), end: (x, 10), color: Color::black(), width: 5 }
}

#[test]
fn new_state_starts_with_pen_red_medium_and_draw_mode_off() {
    let st = AppState::new();
    assert!(st.strokes.is_empty());
    assert_eq!(st.active_tool, Tool::Pen);
    assert_eq!(st.active_color, Color::red());
    assert_eq!(st.stroke_width, StrokeWidth::Medium);
    assert!(!st.draw_mode);
    assert!(st.toolbar_visible);
    assert!(st.current_stroke.is_none());
    assert!(st.laser_points.is_empty());
    let d = AppState::default();
    assert_eq!(d.active_tool, Tool::Pen);
    assert!(!d.draw_mode);
}

#[test]
fn color_presets_in_thousandths() {
    assert_eq!(Color::red(), Color::new(900, 100, 100, 1000));
    assert_eq!(Color::green(), Color::new(100, 800, 100, 1000));
    assert_eq!(Color::blue(), Color::new(100, 400, 900, 1000));
    assert_eq!(Color::yellow(), Color::new(1000, 900, 0, 1000));
    assert_eq!(Color::white(), Color::new(1000, 1000, 1000, 1000));
    assert_eq!(Color::black(), Color::new(0, 0, 0, 1000));
    let c = Color::new(1, 2, 3, 4);
    assert_eq!((c.r, c.g, c.b, c.a), (1, 2, 3, 4));
}

#[test]
fn stroke_width_pixels() {
    assert_eq!(StrokeWidth::Thin.pixels(), 2);
    assert_eq!(StrokeWidth::Medium.pixels(), 5);
    assert_eq!(StrokeWidth::Thick.pixels(), 12);
}

#[test]
fn undo_removes_only_the_last_stroke() {
    let mut st = AppState::new();
    st.strokes.push(line(1));
    st.strokes.push(line(2));
    st.undo();
    assert_eq!(st.strokes.len(), 1);
    match &st.strokes[0] {
        Stroke::Line { start, .. } => assert_eq!(*start, (1, 0)),
        _ => panic!("expected the first line"),
    }
    st.undo();
    assert!(st.strokes.is_empty());
    st.undo();
    assert!(st.strokes.is_empty());
}

#[test]
fn clear_keeps_settings() {
    let mut st = AppState::new();
    st.strokes.push(line(1));
    st.current_stroke = Some(line(2));
    st.laser_points.push((3, 4));
    st.active_tool = Tool::Ellipse;
    st.active_color = Color::blue();
    st.stroke_width = StrokeWidth::Thick;
    st.draw_mode = true;
    st.toolbar_visible = false;
    st.clear();
    assert!(st.strokes.is_empty());
    assert!(st.current_stroke.is_none());
    assert!(st.laser_points.is_empty());
    assert_eq!(st.active_tool, Tool::Ellipse);
    assert_eq!(st.active_color, Color::blue());
    assert_eq!(st.stroke_width, StrokeWidth::Thick);
    assert!(st.draw_mode);
    assert!(!st.toolbar_visible);
}

#[test]
fn path_tool_is_plain_data() {
    let s = Stroke::Path { points: vec![(0, 0)], color: Color::red(), width: 2, tool: PathTool::Pen };
    match s {
        Stroke::Path { tool, .. } => assert_eq!(tool, PathTool::Pen),
        _ => unreachable!(),
    }
}

#[test]
fn config_defaults() {
    let c = Config::default();
    assert_eq!(c.drawing.stroke_persistence, "permanent");
    assert_eq!(c.toolbar.position, [40, 40]);
    assert_eq!(DrawingConfig::default().stroke_persistence, "permanent");
    assert_eq!(ToolbarConfig::default().position, [40, 40]);
}
