use annotations::input::{
    is_control, stroke_hit_test, KeyName, KeyOutcome, KeyPress, HIT_RADIUS, TEXT_SIZE,
};
use annotations::state::{AppState, Color, PathTool, Stroke, StrokeWidth, Tool};

fn drawing(tool: Tool) -> AppState {
    let mut st = AppState::new();
    st.draw_mode = true;
    st.active_tool = tool;
    st
}

fn key(name: KeyName, unicode: Option<char>, ctrl: bool, shift: bool) -> KeyPress {
    KeyPress { name, unicode, ctrl, shift }
}

fn typed(c: char) -> KeyPress {
    key(KeyName::Other, Some(c), false, false)
}

const CONSUMED: KeyOutcome = KeyOutcome { handled: true, redraw: true, draw_mode_toggled: false };
const PASSED: KeyOutcome = KeyOutcome { handled: false, redraw: false, draw_mode_toggled: false };

fn text_of(s: &Stroke) -> String {
    match s {
        Stroke::Text { content, .. } => content.clone(),
        _ => panic!("not a text stroke"),
    }
}

#[test]
fn pen_drag_commits_every_point() {
    let mut st = drawing(Tool::Pen);
    st.stroke_width = StrokeWidth::Thin;
    assert!(st.drag_begin((10, 10)));
    assert!(st.drag_update((12, 11)));
    assert!(st.drag_update((15, 13)));
    assert!(st.drag_end((10, 10), (15, 13)));
    assert!(st.current_stroke.is_none());
    assert_eq!(st.strokes.len(), 1);
    match &st.strokes[0] {
        Stroke::Path { points, color, width, tool } => {
            assert_eq!(points, &vec![(10, 10), (12, 11), (15, 13)]);
            assert_eq!(*color, Color::red());
            assert_eq!(*width, 2);
            assert_eq!(*tool, PathTool::Pen);
        }
        _ => panic!("expected a path"),
    }
    st.undo();
    assert!(st.strokes.is_empty());
}

#[test]
fn highlighter_is_always_thick() {
    let mut st = drawing(Tool::Highlighter);
    st.stroke_width = StrokeWidth::Thin;
    st.drag_begin((0, 0));
    match &st.current_stroke {
        Some(Stroke::Path { width, tool, .. }) => {
            assert_eq!(*width, 12);
            assert_eq!(*tool, PathTool::Highlighter);
        }
        _ => panic!("expected a path"),
    }
}

#[test]
fn line_rect_and_ellipse_follow_the_pointer() {
    let mut st = drawing(Tool::Line);
    st.drag_begin((5, 5));
    st.drag_update((9, 1));
    match &st.current_stroke {
        Some(Stroke::Line { start, end, .. }) => {
            assert_eq!(*start, (5, 5));
            assert_eq!(*end, (9, 1));
        }
        _ => panic!("expected a line"),
    }

    let mut st = drawing(Tool::Rectangle);
    st.drag_begin((100, 50));
    st.drag_update((40, 80));
    match &st.current_stroke {
        Some(Stroke::Rect { origin, size, .. }) => {
            assert_eq!(*origin, (100, 50));
            assert_eq!(*size, (-60, 30));
        }
        _ => panic!("expected a rectangle"),
    }

    let mut st = drawing(Tool::Ellipse);
    st.drag_begin((-32768, 32767));
    st.drag_update((32767, -32768));
    match &st.current_stroke {
        Some(Stroke::Ellipse { center, radii, .. }) => {
            assert_eq!(*center, (-32768, 32767));
            assert_eq!(*radii, (65535, 65535));
        }
        _ => panic!("expected an ellipse"),
    }
    st.drag_end((-32768, 32767), (32767, -32768));
    assert_eq!(st.strokes.len(), 1);
}

#[test]
fn laser_trail_is_never_stored() {
    let mut st = drawing(Tool::Laser);
    assert!(st.drag_begin((1, 1)));
    st.drag_update((2, 2));
    st.drag_update((3, 3));
    assert_eq!(st.laser_points, vec![(1, 1), (2, 2), (3, 3)]);
    assert!(st.drag_end((1, 1), (3, 3)));
    assert!(st.laser_points.is_empty());
    assert!(st.strokes.is_empty());
    assert!(st.current_stroke.is_none());
}

#[test]
fn pointer_is_ignored_outside_draw_mode() {
    let mut st = AppState::new();
    assert!(!st.drag_begin((1, 1)));
    assert!(!st.drag_update((2, 2)));
    assert!(!st.drag_end((1, 1), (2, 2)));
    st.active_tool = Tool::Text;
    st.click((4, 4));
    assert!(st.strokes.is_empty());
    assert!(st.current_stroke.is_none());
    assert!(st.laser_points.is_empty());
}

#[test]
fn eraser_and_text_press_do_not_redraw() {
    let mut st = drawing(Tool::Eraser);
    assert!(!st.drag_begin((1, 1)));
    let mut st = drawing(Tool::Text);
    assert!(!st.drag_begin((1, 1)));
}

#[test]
fn eraser_removes_only_what_it_touches() {
    let mut st = drawing(Tool::Eraser);
    let c = Color::black();
    st.strokes.push(Stroke::Path { points: vec![(0, 0), (100, 0)], color: c, width: 5, tool: PathTool::Pen });
    st.strokes.push(Stroke::Line { start: (500, 500), end: (600, 600), color: c, width: 5 });
    st.strokes.push(Stroke::Rect { origin: (200, 200), size: (-50, -50), color: c, width: 5 });
    st.strokes.push(Stroke::Text { position: (1000, 1000), content: String::from("hi"), color: c, size: 24 });
    // Midpoint (170, 170) lies inside the rectangle spanning 150..200.
    assert!(st.drag_end((160, 160), (180, 180)));
    assert_eq!(st.strokes.len(), 3);
    match &st.strokes[2] {
        Stroke::Text { .. } => {}
        _ => panic!("the text must stay, in order"),
    }
    // Midpoint (100, 19) is 19 pixels from the path point (100, 0).
    st.drag_end((100, 19), (100, 19));
    assert_eq!(st.strokes.len(), 2);
    // Text boxes take twice the radius: 39 pixels away still counts.
    st.drag_end((1039, 1000), (1039, 1000));
    assert_eq!(st.strokes.len(), 1);
    match &st.strokes[0] {
        Stroke::Line { .. } => {}
        _ => panic!("only the line stays"),
    }
}

#[test]
fn hit_test_distances() {
    let c = Color::black();
    let path = Stroke::Path { points: vec![(0, 0)], color: c, width: 1, tool: PathTool::Pen };
    assert_eq!(HIT_RADIUS, 20);
    assert!(stroke_hit_test(&path, (19, 0), (19, 0)));
    assert!(!stroke_hit_test(&path, (20, 0), (20, 0)));
    // The midpoint of (0, 0) and (39, 0) is 19.5 pixels away.
    assert!(stroke_hit_test(&path, (0, 0), (39, 0)));
    assert!(!stroke_hit_test(&path, (0, 0), (40, 0)));
    assert!(stroke_hit_test(&path, (12, 15), (12, 15)));
    assert!(!stroke_hit_test(&path, (12, 16), (12, 16)));

    let line = Stroke::Line { start: (0, 0), end: (100, 0), color: c, width: 1 };
    assert!(stroke_hit_test(&line, (95, 5), (95, 5)));
    // Anywhere along the line counts, not only its ends.
    assert!(stroke_hit_test(&line, (50, 0), (50, 0)));
    assert!(stroke_hit_test(&line, (50, 19), (50, 19)));
    assert!(!stroke_hit_test(&line, (50, 20), (50, 20)));
    assert!(stroke_hit_test(&line, (50, -10), (50, 28)));
    assert!(stroke_hit_test(&line, (119, 0), (119, 0)));
    assert!(!stroke_hit_test(&line, (120, 0), (120, 0)));
    assert!(!stroke_hit_test(&line, (-12, -16), (-12, -16)));
    assert!(stroke_hit_test(&line, (-12, -15), (-12, -15)));
    let diagonal = Stroke::Line { start: (0, 0), end: (30, 40), color: c, width: 1 };
    // (20, 0) is 16 pixels from the line through (0, 0) and (30, 40).
    assert!(stroke_hit_test(&diagonal, (20, 0), (20, 0)));
    // (40, -5) is 35 pixels from it.
    assert!(!stroke_hit_test(&diagonal, (40, -5), (40, -5)));
    let dot = Stroke::Line { start: (5, 5), end: (5, 5), color: c, width: 1 };
    assert!(stroke_hit_test(&dot, (5, 24), (5, 24)));
    assert!(!stroke_hit_test(&dot, (5, 25), (5, 25)));

    let zigzag = Stroke::Path { points: vec![(0, 0), (100, 0), (100, 100)], color: c, width: 1, tool: PathTool::Pen };
    assert!(stroke_hit_test(&zigzag, (50, 10), (50, 10)));
    assert!(stroke_hit_test(&zigzag, (110, 50), (110, 50)));
    assert!(!stroke_hit_test(&zigzag, (50, 50), (50, 50)));

    let ellipse = Stroke::Ellipse { center: (0, 0), radii: (10, 0), color: c, width: 1 };
    // Semi-axes grow by the radius: 30 across, 20 down.
    assert!(stroke_hit_test(&ellipse, (30, 0), (30, 0)));
    assert!(!stroke_hit_test(&ellipse, (31, 0), (31, 0)));
    assert!(stroke_hit_test(&ellipse, (0, 20), (0, 20)));
    assert!(!stroke_hit_test(&ellipse, (0, 21), (0, 21)));
    let degenerate = Stroke::Ellipse { center: (0, 0), radii: (-20, 5), color: c, width: 1 };
    assert!(!stroke_hit_test(&degenerate, (0, 0), (0, 0)));

    let rect = Stroke::Rect { origin: (10, 10), size: (5, -5), color: c, width: 1 };
    assert!(stroke_hit_test(&rect, (15, 5), (15, 5)));
    assert!(stroke_hit_test(&rect, (12, 7), (13, 8)));
    assert!(!stroke_hit_test(&rect, (16, 5), (16, 5)));
}

#[test]
fn click_type_and_enter_commit_a_text() {
    let mut st = drawing(Tool::Text);
    st.active_color = Color::green();
    st.click((30, 40));
    // The click's own press and release must not discard the new text.
    st.drag_begin((30, 40));
    st.drag_end((30, 40), (30, 40));
    assert_eq!(st.key_pressed(&typed('h')), CONSUMED);
    assert_eq!(st.key_pressed(&typed('é')), CONSUMED);
    assert_eq!(st.key_pressed(&typed('y')), CONSUMED);
    assert_eq!(st.key_pressed(&key(KeyName::BackSpace, Some('\u{8}'), false, false)), CONSUMED);
    assert_eq!(text_of(st.current_stroke.as_ref().unwrap()), "hé");
    assert_eq!(st.key_pressed(&key(KeyName::Return, Some('\r'), false, false)), CONSUMED);
    assert!(st.current_stroke.is_none());
    assert_eq!(st.strokes.len(), 1);
    match &st.strokes[0] {
        Stroke::Text { position, content, color, size } => {
            assert_eq!(*position, (30, 40));
            assert_eq!(content, "hé");
            assert_eq!(*color, Color::green());
            assert_eq!(*size, TEXT_SIZE);
            assert_eq!(*size, 24);
        }
        _ => panic!("expected text"),
    }
}

#[test]
fn a_new_click_commits_only_non_empty_text() {
    let mut st = drawing(Tool::Text);
    st.click((1, 1));
    st.click((2, 2));
    assert!(st.strokes.is_empty());
    st.key_pressed(&typed('a'));
    st.click((3, 3));
    assert_eq!(st.strokes.len(), 1);
    assert_eq!(text_of(&st.strokes[0]), "a");
    match &st.current_stroke {
        Some(Stroke::Text { position, content, .. }) => {
            assert_eq!(*position, (3, 3));
            assert!(content.is_empty());
        }
        _ => panic!("expected an open text"),
    }
    st.active_tool = Tool::Pen;
    st.click((9, 9));
    assert_eq!(st.strokes.len(), 1);
}

#[test]
fn backspace_on_empty_text_is_harmless_and_enter_on_kp_works() {
    let mut st = drawing(Tool::Text);
    st.click((0, 0));
    assert_eq!(st.key_pressed(&key(KeyName::BackSpace, None, false, false)), CONSUMED);
    assert_eq!(text_of(st.current_stroke.as_ref().unwrap()), "");
    st.key_pressed(&typed('x'));
    assert_eq!(st.key_pressed(&key(KeyName::KpEnter, Some('\r'), false, false)), CONSUMED);
    assert_eq!(st.strokes.len(), 1);
}

#[test]
fn shortcuts() {
    let mut st = drawing(Tool::Pen);
    st.drag_begin((0, 0));
    st.drag_end((0, 0), (0, 0));
    st.drag_begin((5, 5));
    st.drag_end((5, 5), (5, 5));
    assert_eq!(st.strokes.len(), 2);
    assert_eq!(st.key_pressed(&key(KeyName::Z, Some('z'), true, false)), CONSUMED);
    assert_eq!(st.strokes.len(), 1);
    // Ctrl+Shift+Z is not undo.
    assert_eq!(st.key_pressed(&key(KeyName::Z, Some('Z'), true, true)), PASSED);
    assert_eq!(st.strokes.len(), 1);
    assert_eq!(st.key_pressed(&key(KeyName::C, Some('c'), true, true)), CONSUMED);
    assert!(st.strokes.is_empty());
    st.drag_begin((5, 5));
    st.drag_end((5, 5), (5, 5));
    assert_eq!(st.key_pressed(&key(KeyName::Escape, Some('\u{1b}'), false, false)), CONSUMED);
    assert!(st.strokes.is_empty());
    assert_eq!(
        st.key_pressed(&key(KeyName::D, Some('d'), true, false)),
        KeyOutcome { handled: true, redraw: true, draw_mode_toggled: true }
    );
    assert!(!st.draw_mode);
    st.key_pressed(&key(KeyName::D, Some('d'), true, false));
    assert!(st.draw_mode);
    assert_eq!(st.key_pressed(&key(KeyName::H, Some('h'), true, false)), PASSED);
    // Ctrl+Shift+D is not the draw-mode shortcut.
    assert_eq!(st.key_pressed(&key(KeyName::D, Some('D'), true, true)), PASSED);
    assert!(st.draw_mode);
    assert_eq!(st.key_pressed(&key(KeyName::Z, Some('z'), false, false)), PASSED);
    assert_eq!(st.key_pressed(&key(KeyName::Other, Some('q'), false, false)), PASSED);
}

#[test]
fn typing_takes_every_printable_key() {
    let mut st = drawing(Tool::Text);
    st.strokes.push(Stroke::Line { start: (0, 0), end: (1, 1), color: Color::red(), width: 2 });
    st.click((10, 10));
    st.key_pressed(&typed('a'));
    // With a text open, Ctrl+Z types its character like any other key.
    assert_eq!(st.key_pressed(&key(KeyName::Z, Some('z'), true, false)), CONSUMED);
    assert_eq!(st.strokes.len(), 1);
    assert_eq!(text_of(st.current_stroke.as_ref().unwrap()), "az");
    assert_eq!(st.key_pressed(&key(KeyName::Other, Some('B'), false, true)), CONSUMED);
    assert_eq!(text_of(st.current_stroke.as_ref().unwrap()), "azB");
    // A key with no character still reaches the shortcuts.
    assert_eq!(
        st.key_pressed(&key(KeyName::D, None, true, false)),
        KeyOutcome { handled: true, redraw: true, draw_mode_toggled: true }
    );
    assert!(!st.draw_mode);
    st.draw_mode = true;
    assert_eq!(st.key_pressed(&key(KeyName::Escape, Some('\u{1b}'), false, false)), CONSUMED);
    assert!(st.current_stroke.is_none());
    assert!(st.strokes.is_empty());
}

#[test]
fn control_characters() {
    assert!(is_control('\u{0}'));
    assert!(is_control('\u{1f}'));
    assert!(is_control('\u{7f}'));
    assert!(is_control('\u{9f}'));
    assert!(!is_control(' '));
    assert!(!is_control('~'));
    assert!(!is_control('\u{a0}'));
    assert!(!is_control('é'));
    for c in ['\u{0}', '\n', '\u{1b}', 'a', '\u{85}', '\u{a0}', '\u{2028}', '中'] {
        assert_eq!(is_control(c), c.is_control());
    }
}

#[test]
fn shape_spans_press_to_release_whatever_the_path() {
    let mut st = drawing(Tool::Rectangle);
    st.stroke_width = StrokeWidth::Thick;
    st.active_color = Color::blue();
    st.drag_begin((10, 20));
    st.drag_update((500, 500));
    st.drag_update((-3, 7));
    st.drag_update((30, 5));
    st.drag_end((10, 20), (30, 5));
    assert_eq!(st.strokes.len(), 1);
    match &st.strokes[0] {
        Stroke::Rect { origin, size, color, width } => {
            assert_eq!(*origin, (10, 20));
            assert_eq!(*size, (20, -15));
            assert_eq!(*color, Color::blue());
            assert_eq!(*width, 12);
        }
        _ => panic!("expected a rectangle"),
    }
    // A press and release without moving gives a point-sized shape.
    let mut st = drawing(Tool::Ellipse);
    st.drag_begin((7, 7));
    st.drag_end((7, 7), (7, 7));
    match &st.strokes[0] {
        Stroke::Ellipse { center, radii, .. } => {
            assert_eq!(*center, (7, 7));
            assert_eq!(*radii, (0, 0));
        }
        _ => panic!("expected an ellipse"),
    }
}
