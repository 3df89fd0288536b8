//! Properties of whole interactions: a drag from press to release, typing a
//! text, and the keyboard shortcuts, stated over the model transitions that
//! the event handlers implement.
use vstd::prelude::*;

use crate::input::{
    consumed, erased, is_control_char, near_segment, path_near_at, spec_hit, survives, toggled,
    types_char, within, KeyName, KeyOutcome,
    coord_distance, KeyPress, HIT_RADIUS, TEXT_SIZE,
};
use crate::overlay::{spec_input_region, spec_layers, InputRegion, Layer, RectInt};
use crate::state::{AppModel, Color, PathTool, Point, StrokeModel, StrokeWidth, Tool};
use crate::stroke::{spec_paint, Paint};

verus! {

/// State after the pointer, already pressed, moved through `moves` in order.
pub open spec fn after_moves(m: AppModel, moves: Seq<Point>) -> AppModel
    decreases moves.len(),
{
    if moves.len() == 0 {
        m
    } else {
        after_moves(m, moves.drop_last()).after_drag_update(moves.last())
    }
}

/// Where a drag from `start` through `moves` is released.
pub open spec fn release_point(start: Point, moves: Seq<Point>) -> Point {
    if moves.len() == 0 {
        start
    } else {
        moves.last()
    }
}

/// State after a whole drag: pressed at `start`, moved through `moves`, and
/// released where the last move ended (at `start` when there was none).
pub open spec fn after_drag(m: AppModel, start: Point, moves: Seq<Point>) -> AppModel {
    after_moves(m.after_drag_begin(start), moves).after_drag_end(start, release_point(start, moves))
}

/// The key press that types `c` with no modifier held.
pub open spec fn char_key(c: char) -> KeyPress {
    KeyPress { name: KeyName::Other, unicode: Some(c), ctrl: false, shift: false }
}

/// State after typing the characters of `text` in order.
pub open spec fn after_typing(m: AppModel, text: Seq<char>) -> AppModel
    decreases text.len(),
{
    if text.len() == 0 {
        m
    } else {
        after_typing(m, text.drop_last()).after_key(char_key(text.last())).0
    }
}

/// The tools that draw a stroke by dragging.
pub open spec fn is_drawing_tool(t: Tool) -> bool {
    t == Tool::Pen || t == Tool::Highlighter || t == Tool::Line || t == Tool::Rectangle || t
        == Tool::Ellipse
}

/// Outside draw mode the overlay ignores the pointer: presses, moves,
/// releases and clicks leave the state as it was.
pub proof fn pointer_ignored_outside_draw_mode(m: AppModel, p: Point, q: Point)
    requires
        !m.draw_mode,
    ensures
        m.after_drag_begin(p) == m,
        m.after_drag_update(p) == m,
        m.after_drag_end(p, q) == m,
        m.after_click(p) == m,
{
}

proof fn lemma_freehand_moves(m: AppModel, moves: Seq<Point>, p: Point)
    requires
        m.draw_mode,
        m.active_tool == Tool::Pen || m.active_tool == Tool::Highlighter,
    ensures
        after_moves(m.after_drag_begin(p), moves) == (AppModel {
            current_stroke: Some(
                StrokeModel::Path {
                    points: seq![p] + moves,
                    color: m.active_color,
                    width: if m.active_tool == Tool::Highlighter {
                        StrokeWidth::Thick.spec_pixels()
                    } else {
                        m.stroke_width.spec_pixels()
                    },
                    tool: if m.active_tool == Tool::Highlighter {
                        PathTool::Highlighter
                    } else {
                        PathTool::Pen
                    },
                },
            ),
            ..m
        }),
    decreases moves.len(),
{
    if moves.len() == 0 {
        assert(seq![p] + moves =~= seq![p]);
    } else {
        lemma_freehand_moves(m, moves.drop_last(), p);
        assert((seq![p] + moves.drop_last()).push(moves.last()) =~= seq![p] + moves);
    }
}

/// A freehand drag (pen or highlighter) adds exactly one stroke: a path
/// through the press point and every point the pointer moved to, in the
/// chosen colour; the pen uses the chosen width, the highlighter is always
/// thick. Nothing else changes.
pub proof fn freehand_drag_records_path(m: AppModel, p: Point, moves: Seq<Point>)
    requires
        m.draw_mode,
        m.active_tool == Tool::Pen || m.active_tool == Tool::Highlighter,
    ensures
        after_drag(m, p, moves) == (AppModel {
            strokes: m.strokes.push(
                StrokeModel::Path {
                    points: seq![p] + moves,
                    color: m.active_color,
                    width: if m.active_tool == Tool::Highlighter {
                        StrokeWidth::Thick.spec_pixels()
                    } else {
                        m.stroke_width.spec_pixels()
                    },
                    tool: if m.active_tool == Tool::Highlighter {
                        PathTool::Highlighter
                    } else {
                        PathTool::Pen
                    },
                },
            ),
            current_stroke: None,
            ..m
        }),
{
    lemma_freehand_moves(m, moves, p);
}

proof fn lemma_laser_moves(m: AppModel, moves: Seq<Point>, p: Point)
    requires
        m.draw_mode,
        m.active_tool == Tool::Laser,
    ensures
        after_moves(m.after_drag_begin(p), moves) == (AppModel {
            laser_points: seq![p] + moves,
            ..m
        }),
    decreases moves.len(),
{
    if moves.len() == 0 {
        assert(seq![p] + moves =~= seq![p]);
    } else {
        lemma_laser_moves(m, moves.drop_last(), p);
        assert((seq![p] + moves.drop_last()).push(moves.last()) =~= seq![p] + moves);
    }
}

/// The laser trail follows the pointer while the button is held and is
/// never stored: during the drag it holds the press point and every move;
/// after release the strokes are as before and the trail is gone.
pub proof fn laser_trail_is_never_stored(m: AppModel, p: Point, moves: Seq<Point>)
    requires
        m.draw_mode,
        m.active_tool == Tool::Laser,
    ensures
        after_moves(m.after_drag_begin(p), moves).laser_points == seq![p] + moves,
        after_drag(m, p, moves) == (AppModel {
            laser_points: Seq::empty(),
            current_stroke: None,
            ..m
        }),
{
    lemma_laser_moves(m, moves, p);
}

proof fn lemma_shape_moves(m: AppModel, moves: Seq<Point>)
    requires
        m.draw_mode,
        m.active_tool != Tool::Laser,
        m.current_stroke is Some,
    ensures
        after_moves(m, moves).current_stroke is Some,
        after_moves(m, moves) == (AppModel {
            current_stroke: after_moves(m, moves).current_stroke,
            ..m
        }),
    decreases moves.len(),
{
    if moves.len() > 0 {
        lemma_shape_moves(m, moves.drop_last());
    }
}

/// The line, rectangle or ellipse spanned from `p` to `q` with the current settings.
pub open spec fn shape_between(m: AppModel, p: Point, q: Point) -> StrokeModel {
    let color = m.active_color;
    let width = m.stroke_width.spec_pixels();
    if m.active_tool == Tool::Line {
        StrokeModel::Line { start: p, end: q, color, width }
    } else if m.active_tool == Tool::Rectangle {
        StrokeModel::Rect {
            origin: p,
            size: ((q.0 - p.0) as i32, (q.1 - p.1) as i32),
            color,
            width,
        }
    } else {
        StrokeModel::Ellipse {
            center: p,
            radii: (coord_distance(q.0, p.0), coord_distance(q.1, p.1)),
            color,
            width,
        }
    }
}

proof fn lemma_shape_geometry(m: AppModel, p: Point, moves: Seq<Point>)
    requires
        m.draw_mode,
        m.active_tool == Tool::Line || m.active_tool == Tool::Rectangle || m.active_tool
            == Tool::Ellipse,
    ensures
        after_moves(m.after_drag_begin(p), moves) == (AppModel {
            current_stroke: Some(shape_between(m, p, release_point(p, moves))),
            ..m
        }),
    decreases moves.len(),
{
    if moves.len() > 0 {
        lemma_shape_geometry(m, p, moves.drop_last());
    }
}

/// A line, rectangle or ellipse drag adds exactly one stroke, spanned from
/// the press point to the release point whatever path the pointer took, in
/// the chosen colour and width.
pub proof fn shape_drag_spans_press_to_release(m: AppModel, p: Point, moves: Seq<Point>)
    requires
        m.draw_mode,
        m.active_tool == Tool::Line || m.active_tool == Tool::Rectangle || m.active_tool
            == Tool::Ellipse,
    ensures
        after_drag(m, p, moves) == (AppModel {
            strokes: m.strokes.push(shape_between(m, p, release_point(p, moves))),
            current_stroke: None,
            ..m
        }),
{
    lemma_shape_geometry(m, p, moves);
}

/// Undo right after a drag with a drawing tool takes back exactly the
/// stroke that the drag drew: the finished strokes are as before the drag.
pub proof fn undo_takes_back_a_drawn_stroke(m: AppModel, p: Point, moves: Seq<Point>)
    requires
        m.draw_mode,
        is_drawing_tool(m.active_tool),
    ensures
        after_drag(m, p, moves).strokes.len() == m.strokes.len() + 1,
        after_drag(m, p, moves).undone() == (AppModel { current_stroke: None, ..m }),
{
    let begun = m.after_drag_begin(p);
    lemma_shape_moves(begun, moves);
    let moved = after_moves(begun, moves);
    assert(moved.strokes == m.strokes);
    assert(moved.strokes.push(moved.current_stroke.unwrap()).drop_last() =~= m.strokes);
}

/// Switching draw mode twice (Ctrl+D or the toolbar button) gives back the
/// state it started from. Ctrl+D is a shortcut unless it would type into an
/// open text, so for the key the state holds no open text or the key types
/// nothing.
pub proof fn draw_mode_toggle_is_an_involution(m: AppModel, key: KeyPress)
    requires
        key.name == KeyName::D,
        key.ctrl,
        !key.shift,
        !types_char(key) || !(m.active_tool == Tool::Text && m.current_stroke matches Some(
            StrokeModel::Text { .. },
        )),
    ensures
        m.with_draw_mode_toggled().with_draw_mode_toggled() == m,
        m.after_key(key).0.after_key(key).0 == m,
        m.after_key(key).1 == toggled(),
{
}

/// The shortcuts work in every state where the key does not type into an
/// open text (no text is open, or the key types no character): Ctrl+Z
/// undoes the last stroke, Ctrl+Shift+C and Escape clear everything, Ctrl+D
/// switches draw mode.
pub proof fn shortcuts_work_outside_typing(m: AppModel, key: KeyPress)
    requires
        !m.is_typing() || !types_char(key),
    ensures
        key.name == KeyName::Z && key.ctrl && !key.shift ==> m.after_key(key) == (
        m.undone(),
        consumed(),
        ),
        key.name == KeyName::C && key.ctrl && key.shift ==> m.after_key(key) == (
        m.cleared(),
        consumed(),
        ),
        key.name == KeyName::D && key.ctrl && !key.shift ==> m.after_key(key) == (
        m.with_draw_mode_toggled(),
        toggled(),
        ),
        key.name == KeyName::Escape ==> m.after_key(key) == (m.cleared(), consumed()),
{
}

/// While a text is open, every key that types a printable character adds it
/// to the text, Control held or not, and nothing else changes.
pub proof fn typing_appends_every_printable_char(m: AppModel, key: KeyPress)
    requires
        m.is_typing(),
        types_char(key),
        key.name != KeyName::Return,
        key.name != KeyName::KpEnter,
        key.name != KeyName::BackSpace,
    ensures
        m.after_key(key) == (m.with_typed(m.typed().push(key.unicode.unwrap())), consumed()),
{
}

/// Backspace takes back the character just typed into a text.
pub proof fn backspace_takes_back_a_typed_char(m: AppModel, key: KeyPress, back: KeyPress)
    requires
        m.is_typing(),
        types_char(key),
        key.name != KeyName::Return,
        key.name != KeyName::KpEnter,
        key.name != KeyName::BackSpace,
        back.name == KeyName::BackSpace,
    ensures
        m.after_key(key).1 == consumed(),
        m.after_key(key).0.after_key(back).0 == m,
{
    let typed = m.typed();
    assert(typed.push(key.unicode.unwrap()).drop_last() =~= typed);
}

proof fn lemma_typing(m: AppModel, text: Seq<char>)
    requires
        m.is_typing(),
        forall|i: int| 0 <= i < text.len() ==> !is_control_char(#[trigger] text[i]),
    ensures
        after_typing(m, text) == m.with_typed(m.typed() + text),
    decreases text.len(),
{
    if text.len() == 0 {
        assert(m.typed() + text =~= m.typed());
    } else {
        lemma_typing(m, text.drop_last());
        assert(!is_control_char(text[text.len() - 1]));
        assert((m.typed() + text.drop_last()).push(text.last()) =~= m.typed() + text);
    }
}

/// With the text tool, a click places an empty text that survives the
/// button's release; the characters typed then, followed by Enter, become
/// one text stroke at the click point in the chosen colour.
pub proof fn click_type_enter_commits_text(
    m: AppModel,
    p: Point,
    text: Seq<char>,
    enter: KeyPress,
)
    requires
        m.draw_mode,
        m.active_tool == Tool::Text,
        !m.has_pending_text(),
        forall|i: int| 0 <= i < text.len() ==> !is_control_char(#[trigger] text[i]),
        enter.name == KeyName::Return || enter.name == KeyName::KpEnter,
    ensures
        after_typing(m.after_click(p).after_drag_begin(p).after_drag_end(p, p), text).after_key(
            enter,
        ).0 == (AppModel {
            strokes: m.strokes.push(
                StrokeModel::Text {
                    position: p,
                    content: text,
                    color: m.active_color,
                    size: TEXT_SIZE,
                },
            ),
            current_stroke: None,
            ..m
        }),
{
    let placed = m.after_click(p).after_drag_begin(p).after_drag_end(p, p);
    assert(placed.typed() + text =~= text);
    lemma_typing(placed, text);
}

/// The eraser never adds strokes and keeps the order of those it spares:
/// it leaves at most as many strokes, none of them touched by the drag, and
/// every stroke the drag did not touch is still there.
pub proof fn eraser_removes_only_touched_strokes(
    strokes: Seq<StrokeModel>,
    start: Point,
    end: Point,
)
    ensures
        erased(strokes, start, end).len() <= strokes.len(),
        forall|i: int|
            0 <= i < erased(strokes, start, end).len() ==> !spec_hit(
                #[trigger] erased(strokes, start, end)[i],
                start,
                end,
            ),
        forall|i: int|
            0 <= i < strokes.len() && !spec_hit(strokes[i], start, end) ==> erased(
                strokes,
                start,
                end,
            ).contains(#[trigger] strokes[i]),
{
    strokes.lemma_filter_len(survives(start, end));
    assert forall|i: int|
        0 <= i < erased(strokes, start, end).len() implies !spec_hit(
        #[trigger] erased(strokes, start, end)[i],
        start,
        end,
    ) by {
        strokes.lemma_filter_pred(survives(start, end), i);
    }
    assert forall|i: int|
        0 <= i < strokes.len() && !spec_hit(strokes[i], start, end) implies erased(
        strokes,
        start,
        end,
    ).contains(#[trigger] strokes[i]) by {
        strokes.lemma_filter_contains(survives(start, end), i);
    }
}

proof fn lemma_within_itself(p: Point, r: int)
    requires
        r > 0,
    ensures
        within(p, p.0 + p.0, p.1 + p.1, r),
{
    let dx = 2 * p.0 - (p.0 + p.0);
    let dy = 2 * p.1 - (p.1 + p.1);
    assert(dx * dx + dy * dy < (2 * r) * (2 * r)) by (nonlinear_arith)
        requires
            dx == 0,
            dy == 0,
            r > 0,
    ;
}

/// `q` lies on the segment from `s` to `e` (is `s` when they coincide).
pub open spec fn on_segment(q: Point, s: Point, e: Point) -> bool {
    if s == e {
        q == s
    } else {
        let ux = e.0 - s.0;
        let uy = e.1 - s.1;
        let vx = q.0 - s.0;
        let vy = q.1 - s.1;
        vx * uy - vy * ux == 0 && 0 <= vx * ux + vy * uy <= ux * ux + uy * uy
    }
}

/// A vector both parallel and perpendicular to a non-zero vector is zero.
proof fn lemma_parallel_and_perpendicular(vx: int, vy: int, ux: int, uy: int)
    requires
        vx * uy - vy * ux == 0,
        vx * ux + vy * uy == 0,
        ux != 0 || uy != 0,
    ensures
        vx == 0,
        vy == 0,
{
    let len = ux * ux + uy * uy;
    assert(len > 0) by (nonlinear_arith)
        requires
            ux != 0 || uy != 0,
            len == ux * ux + uy * uy,
    ;
    assert(vx * len == ux * (vx * ux + vy * uy) + uy * (vx * uy - vy * ux)) by (nonlinear_arith)
        requires
            len == ux * ux + uy * uy,
    ;
    assert(vy * len == uy * (vx * ux + vy * uy) - ux * (vx * uy - vy * ux)) by (nonlinear_arith)
        requires
            len == ux * ux + uy * uy,
    ;
    assert(vx * len == 0 && vy * len == 0) by (nonlinear_arith)
        requires
            vx * len == ux * (vx * ux + vy * uy) + uy * (vx * uy - vy * ux),
            vy * len == uy * (vx * ux + vy * uy) - ux * (vx * uy - vy * ux),
            vx * uy - vy * ux == 0,
            vx * ux + vy * uy == 0,
    ;
    assert(vx == 0 && vy == 0) by (nonlinear_arith)
        requires
            vx * len == 0,
            vy * len == 0,
            len > 0,
    ;
}

/// Every point of a segment is within the eraser's reach of it.
proof fn lemma_near_own_segment(q: Point, s: Point, e: Point)
    requires
        on_segment(q, s, e),
    ensures
        near_segment(s, e, q.0 + q.0, q.1 + q.1, HIT_RADIUS as int),
{
    let ux = e.0 - s.0;
    let uy = e.1 - s.1;
    let vx = q.0 - s.0;
    let vy = q.1 - s.1;
    let dx = 2 * (e.0 - s.0);
    let dy = 2 * (e.1 - s.1);
    let wx = (q.0 + q.0) - 2 * s.0;
    let wy = (q.1 + q.1) - 2 * s.1;
    let dot = wx * dx + wy * dy;
    let len2 = dx * dx + dy * dy;
    let rr = (2 * (HIT_RADIUS as int)) * (2 * (HIT_RADIUS as int));
    assert(rr == 1600) by (nonlinear_arith)
        requires
            rr == (2 * (HIT_RADIUS as int)) * (2 * (HIT_RADIUS as int)),
            HIT_RADIUS == 20,
    ;
    assert(dx == 2 * ux && dy == 2 * uy && wx == 2 * vx && wy == 2 * vy);
    let dot0 = vx * ux + vy * uy;
    let len0 = ux * ux + uy * uy;
    let cross0 = vx * uy - vy * ux;
    assert(dot == 4 * dot0 && len2 == 4 * len0 && wx * dy - wy * dx == 4 * cross0)
        by (nonlinear_arith)
        requires
            dx == 2 * ux,
            dy == 2 * uy,
            wx == 2 * vx,
            wy == 2 * vy,
            dot == wx * dx + wy * dy,
            len2 == dx * dx + dy * dy,
            dot0 == vx * ux + vy * uy,
            len0 == ux * ux + uy * uy,
            cross0 == vx * uy - vy * ux,
    ;
    if s == e {
        assert(wx == 0 && wy == 0);
        assert(dx == 0 && dy == 0);
        assert(dot == 0) by (nonlinear_arith)
            requires
                dot == wx * dx + wy * dy,
                wx == 0,
                wy == 0,
        ;
        assert(wx * wx + wy * wy == 0) by (nonlinear_arith)
            requires
                wx == 0,
                wy == 0,
        ;
    } else {
        assert(ux != 0 || uy != 0);
        assert(cross0 == 0 && 0 <= dot0 <= len0);
        if dot <= 0 {
            lemma_parallel_and_perpendicular(vx, vy, ux, uy);
            assert(wx * wx + wy * wy == 0) by (nonlinear_arith)
                requires
                    wx == 2 * vx,
                    wy == 2 * vy,
                    vx == 0,
                    vy == 0,
            ;
        } else if dot >= len2 {
            let px = vx - ux;
            let py = vy - uy;
            assert(px * uy - py * ux == cross0 && px * ux + py * uy == dot0 - len0)
                by (nonlinear_arith)
                requires
                    px == vx - ux,
                    py == vy - uy,
                    cross0 == vx * uy - vy * ux,
                    dot0 == vx * ux + vy * uy,
                    len0 == ux * ux + uy * uy,
            ;
            lemma_parallel_and_perpendicular(px, py, ux, uy);
            assert((wx - dx) * (wx - dx) + (wy - dy) * (wy - dy) == 0) by (nonlinear_arith)
                requires
                    wx - dx == 2 * px,
                    wy - dy == 2 * py,
                    px == 0,
                    py == 0,
            ;
        } else {
            assert((wx * dy - wy * dx) * (wx * dy - wy * dx) < rr * len2) by (nonlinear_arith)
                requires
                    wx * dy - wy * dx == 4 * cross0,
                    cross0 == 0,
                    rr == 1600,
                    len2 > 0,
            ;
        }
    }
}

/// A point of a stroke that the eraser can always aim at: any point along a
/// path or a line, the corner of a rectangle, the centre of an ellipse, the
/// anchor of a text.
pub open spec fn is_anchor(stroke: StrokeModel, q: Point) -> bool {
    match stroke {
        StrokeModel::Path { points, .. } => exists|i: int|
            #![trigger points[i]]
            0 <= i < points.len() && (points[i] == q || (i + 1 < points.len() && on_segment(
                q,
                points[i],
                points[i + 1],
            ))),
        StrokeModel::Line { start, end, .. } => on_segment(q, start, end),
        StrokeModel::Rect { origin, .. } => q == origin,
        StrokeModel::Ellipse { center, radii, .. } => q == center && radii.0 >= 0 && radii.1 >= 0,
        StrokeModel::Text { position, .. } => q == position,
    }
}

/// Rubbing the eraser over an anchor of a stroke (a click there, or any drag
/// whose midpoint is there) removes that stroke.
pub proof fn eraser_removes_a_stroke_it_touches(
    strokes: Seq<StrokeModel>,
    stroke: StrokeModel,
    q: Point,
)
    requires
        is_anchor(stroke, q),
    ensures
        spec_hit(stroke, q, q),
        !erased(strokes, q, q).contains(stroke),
{
    let mx2 = q.0 + q.0;
    let my2 = q.1 + q.1;
    match stroke {
        StrokeModel::Path { points, .. } => {
            let i = choose|i: int|
                #![trigger points[i]]
                0 <= i < points.len() && (points[i] == q || (i + 1 < points.len() && on_segment(
                    q,
                    points[i],
                    points[i + 1],
                )));
            if points[i] == q {
                lemma_within_itself(q, HIT_RADIUS as int);
            } else {
                lemma_near_own_segment(q, points[i], points[i + 1]);
            }
            assert(path_near_at(points, i, mx2, my2));
        },
        StrokeModel::Line { start, end, .. } => {
            lemma_near_own_segment(q, start, end);
        },
        StrokeModel::Rect { .. } => {},
        StrokeModel::Ellipse { center, radii, .. } => {
            let bx = radii.0 + HIT_RADIUS;
            let by = radii.1 + HIT_RADIUS;
            let ax = mx2 - 2 * center.0;
            let ay = my2 - 2 * center.1;
            assert(ax == 0 && ay == 0);
            assert(ax * ax * (by * by) + ay * ay * (bx * bx) <= 4 * ((bx * bx) * (by * by)))
                by (nonlinear_arith)
                requires
                    ax == 0,
                    ay == 0,
            ;
        },
        StrokeModel::Text { .. } => {
            lemma_within_itself(q, 2 * HIT_RADIUS);
        },
    }
    if erased(strokes, q, q).contains(stroke) {
        let i = choose|i: int|
            0 <= i < erased(strokes, q, q).len() && erased(strokes, q, q)[i] == stroke;
        strokes.lemma_filter_pred(survives(q, q), i);
    }
}

/// `v` lies between `a` and `b` (in either order).
pub open spec fn between(v: int, a: int, b: int) -> bool {
    (a <= v && v <= b) || (b <= v && v <= a)
}

/// The eraser hits a rectangle exactly when the drag's midpoint lies in the
/// box spanned by the rectangle's two corners, `origin` and `origin + size`,
/// edges included; a midpoint outside that box never hits it.
pub proof fn eraser_hits_a_rectangle_inside_its_corners(
    origin: Point,
    size: (i32, i32),
    color: Color,
    width: u32,
    start: Point,
    end: Point,
)
    ensures
        spec_hit(StrokeModel::Rect { origin, size, color, width }, start, end) <==> (between(
            start.0 + end.0,
            2 * origin.0,
            2 * (origin.0 + size.0),
        ) && between(start.1 + end.1, 2 * origin.1, 2 * (origin.1 + size.1))),
{
}

/// The eraser hits a text exactly when the drag's midpoint is closer than
/// twice the hit radius to the text's anchor.
pub proof fn eraser_hits_a_text_near_its_anchor(
    position: Point,
    content: Seq<char>,
    color: Color,
    size: u32,
    start: Point,
    end: Point,
)
    ensures
        spec_hit(StrokeModel::Text { position, content, color, size }, start, end) <==> ({
            let ex = start.0 + end.0 - 2 * position.0;
            let ey = start.1 + end.1 - 2 * position.1;
            ex * ex + ey * ey < 6400
        }),
{
    let ex = start.0 + end.0 - 2 * position.0;
    let ey = start.1 + end.1 - 2 * position.1;
    let dx = 2 * position.0 - (start.0 + end.0);
    let dy = 2 * position.1 - (start.1 + end.1);
    let r = 2 * HIT_RADIUS;
    assert(dx * dx + dy * dy == ex * ex + ey * ey) by (nonlinear_arith)
        requires
            dx == -ex,
            dy == -ey,
    ;
    assert((2 * r) * (2 * r) == 6400) by (nonlinear_arith)
        requires
            r == 40,
    ;
}

/// A key that is no shortcut, pressed while it cannot type into an open
/// text, changes nothing and is passed on. Among such keys: Ctrl+C without
/// Shift, Ctrl+Shift+Z, Ctrl+Shift+D, Ctrl+H and plain letters.
pub proof fn other_keys_are_passed_on(m: AppModel, key: KeyPress)
    requires
        !(m.draw_mode && m.active_tool == Tool::Text && m.current_stroke matches Some(
            StrokeModel::Text { .. },
        )) || (key.unicode is None || is_control_char(key.unicode.unwrap())) && key.name
            != KeyName::Return && key.name != KeyName::KpEnter && key.name != KeyName::BackSpace,
        !(key.name == KeyName::Z && key.ctrl && !key.shift),
        !(key.name == KeyName::C && key.ctrl && key.shift),
        !(key.name == KeyName::D && key.ctrl && !key.shift),
        key.name != KeyName::Escape,
    ensures
        m.after_key(key) == (m, KeyOutcome { handled: false, redraw: false, draw_mode_toggled: false }),
{
}

/// Only Ctrl+Shift+C and Escape clear: outside an open text they empty the
/// drawing, the stroke in progress and the laser trail, keep every setting,
/// and the key is consumed.
pub proof fn clear_keys_empty_the_drawing(m: AppModel, key: KeyPress)
    requires
        !(m.draw_mode && m.active_tool == Tool::Text && m.current_stroke matches Some(
            StrokeModel::Text { .. },
        )),
        (key.name == KeyName::C && key.ctrl && key.shift) || key.name == KeyName::Escape,
    ensures
        m.after_key(key).0.strokes.len() == 0,
        m.after_key(key).0.current_stroke is None,
        m.after_key(key).0.laser_points.len() == 0,
        m.after_key(key).0.active_tool == m.active_tool,
        m.after_key(key).0.active_color == m.active_color,
        m.after_key(key).0.stroke_width == m.stroke_width,
        m.after_key(key).0.draw_mode == m.draw_mode,
        m.after_key(key).0.toolbar_visible == m.toolbar_visible,
        m.after_key(key).1 == (KeyOutcome { handled: true, redraw: true, draw_mode_toggled: false }),
{
}

/// Undo drops the last finished stroke and nothing else: the strokes before
/// it keep their order, every other part of the state is kept, and with no
/// strokes undo changes nothing.
pub proof fn undo_drops_only_the_last_stroke(m: AppModel)
    ensures
        m.strokes.len() == 0 ==> m.undone() == m,
        m.strokes.len() > 0 ==> m.undone().strokes.len() == m.strokes.len() - 1,
        forall|i: int| 0 <= i < m.undone().strokes.len() ==> m.undone().strokes[i] == m.strokes[i],
        m.undone().current_stroke == m.current_stroke,
        m.undone().laser_points == m.laser_points,
        m.undone().active_tool == m.active_tool,
        m.undone().active_color == m.active_color,
        m.undone().stroke_width == m.stroke_width,
        m.undone().draw_mode == m.draw_mode,
        m.undone().toolbar_visible == m.toolbar_visible,
{
}

/// A click with the text tool in draw mode commits a pending text exactly as
/// it was typed and placed (position, characters, colour and size kept),
/// drops a pending text with nothing typed, and opens an empty text at the
/// click point in the chosen colour; nothing else changes.
pub proof fn click_commits_the_pending_text_unchanged(m: AppModel, p: Point)
    requires
        m.draw_mode,
        m.active_tool == Tool::Text,
    ensures
        (m.current_stroke matches Some(StrokeModel::Text { content, .. }) && content.len() > 0)
            ==> m.after_click(p).strokes == m.strokes.push(m.current_stroke.unwrap()),
        !(m.current_stroke matches Some(StrokeModel::Text { content, .. }) && content.len() > 0)
            ==> m.after_click(p).strokes == m.strokes,
        m.after_click(p).current_stroke == Some(
            StrokeModel::Text {
                position: p,
                content: Seq::empty(),
                color: m.active_color,
                size: TEXT_SIZE,
            },
        ),
        m.after_click(p).laser_points == m.laser_points,
        m.after_click(p).active_tool == m.active_tool,
        m.after_click(p).active_color == m.active_color,
        m.after_click(p).stroke_width == m.stroke_width,
        m.after_click(p).draw_mode == m.draw_mode,
{
}

/// Every stroke is painted in its own colour and at its own width (font size
/// for text), except that a highlighter path is painted at half opacity.
/// Nothing is painted only for a path of fewer than two points or an
/// ellipse with a radius below one pixel.
pub proof fn strokes_paint_in_their_own_colour(s: StrokeModel)
    ensures
        match s {
            StrokeModel::Path { points, color, width, tool } => if points.len() < 2 {
                spec_paint(s) is None
            } else if tool == PathTool::Pen {
                spec_paint(s) == Some(Paint { color, size: width })
            } else {
                spec_paint(s) == Some(
                    Paint {
                        color: Color { r: color.r, g: color.g, b: color.b, a: 500 },
                        size: width,
                    },
                )
            },
            StrokeModel::Line { color, width, .. } => spec_paint(s) == Some(
                Paint { color, size: width },
            ),
            StrokeModel::Rect { color, width, .. } => spec_paint(s) == Some(
                Paint { color, size: width },
            ),
            StrokeModel::Ellipse { radii, color, width, .. } => if radii.0 >= 1 && radii.1 >= 1 {
                spec_paint(s) == Some(Paint { color, size: width })
            } else {
                spec_paint(s) is None
            },
            StrokeModel::Text { color, size, .. } => spec_paint(s) == Some(Paint { color, size }),
        },
{
}

/// The overlay paints every finished stroke once, oldest first, then the
/// stroke in progress exactly when there is one (of any kind, a text being
/// typed too), then the laser trail exactly when it has points.
pub proof fn paint_order_covers_everything_once(m: AppModel)
    ensures
        spec_layers(m).len() == m.strokes.len() + (if m.current_stroke is Some {
            1int
        } else {
            0int
        }) + (if m.laser_points.len() > 0 {
            1int
        } else {
            0int
        }),
        forall|i: int|
            0 <= i < m.strokes.len() ==> spec_layers(m)[i] == Layer::Finished(i as usize),
        m.current_stroke is Some ==> spec_layers(m)[m.strokes.len() as int] == Layer::InProgress,
        m.laser_points.len() > 0 ==> spec_layers(m)[spec_layers(m).len() - 1] == Layer::Laser,
        m.laser_points.len() == 0 ==> !spec_layers(m).contains(Layer::Laser),
        m.current_stroke is None ==> !spec_layers(m).contains(Layer::InProgress),
{
    let l = spec_layers(m);
    if m.laser_points.len() == 0 && l.contains(Layer::Laser) {
        let i = choose|i: int| 0 <= i < l.len() && l[i] == Layer::Laser;
    }
    if m.current_stroke is None && l.contains(Layer::InProgress) {
        let i = choose|i: int| 0 <= i < l.len() && l[i] == Layer::InProgress;
    }
}

/// Control characters are exactly the C0 range, DEL and the C1 range: every
/// printable ASCII character and every character from U+00A0 on is typed.
pub proof fn control_chars_are_c0_del_and_c1(c: char)
    ensures
        (c as u32) < 0x20 ==> is_control_char(c),
        0x20 <= (c as u32) < 0x7f ==> !is_control_char(c),
        0x7f <= (c as u32) <= 0x9f ==> is_control_char(c),
        0xa0 <= (c as u32) ==> !is_control_char(c),
{
}

/// The three widths are 2, 5 and 12 pixels.
pub proof fn widths_in_pixels()
    ensures
        StrokeWidth::Thin.spec_pixels() == 2,
        StrokeWidth::Medium.spec_pixels() == 5,
        StrokeWidth::Thick.spec_pixels() == 12,
{
}

/// A session starts with nothing drawn, the pen, red, medium width, draw
/// mode off and the toolbar shown.
pub proof fn initial_state_is_empty_pen_red_medium()
    ensures
        AppModel::initial().strokes.len() == 0,
        AppModel::initial().current_stroke is None,
        AppModel::initial().laser_points.len() == 0,
        AppModel::initial().active_tool == Tool::Pen,
        AppModel::initial().active_color == (Color { r: 900, g: 100, b: 100, a: 1000 }),
        AppModel::initial().stroke_width == StrokeWidth::Medium,
        !AppModel::initial().draw_mode,
        AppModel::initial().toolbar_visible,
{
}

/// Each toolbar setting changes that one setting and nothing else; the
/// draw-mode button flips draw mode and nothing else.
pub proof fn toolbar_settings_change_one_field(m: AppModel, t: Tool, c: Color, w: StrokeWidth)
    ensures
        m.with_tool(t) == (AppModel { active_tool: t, ..m }),
        m.with_color(c) == (AppModel { active_color: c, ..m }),
        m.with_stroke_width(w) == (AppModel { stroke_width: w, ..m }),
        m.with_draw_mode_toggled() == (AppModel { draw_mode: !m.draw_mode, ..m }),
{
}

/// Clear leaves no strokes, no stroke in progress and no laser trail, and
/// keeps every setting.
pub proof fn clear_keeps_settings(m: AppModel)
    ensures
        m.cleared() == (AppModel {
            strokes: Seq::empty(),
            current_stroke: None,
            laser_points: Seq::empty(),
            ..m
        }),
{
}

/// With the eraser or the text tool a press changes nothing and does not
/// repaint; with any other tool in draw mode it repaints; outside draw mode
/// it never repaints.
pub proof fn press_effects_per_tool(m: AppModel, p: Point)
    ensures
        (m.active_tool == Tool::Eraser || m.active_tool == Tool::Text) ==> m.after_drag_begin(p)
            == m && !m.drag_begin_redraws(),
        m.draw_mode && m.active_tool != Tool::Eraser && m.active_tool != Tool::Text
            ==> m.drag_begin_redraws(),
        !m.draw_mode ==> !m.drag_begin_redraws(),
{
}

/// A pointer move never touches the finished strokes or the settings; with
/// the eraser or the text tool it changes nothing at all, and with any tool
/// but the laser it leaves the laser trail alone.
pub proof fn moves_touch_only_the_stroke_in_progress(m: AppModel, p: Point)
    ensures
        (m.active_tool == Tool::Eraser || m.active_tool == Tool::Text) ==> m.after_drag_update(p)
            == m,
        m.after_drag_update(p).strokes == m.strokes,
        m.after_drag_update(p).active_tool == m.active_tool,
        m.after_drag_update(p).active_color == m.active_color,
        m.after_drag_update(p).stroke_width == m.stroke_width,
        m.after_drag_update(p).draw_mode == m.draw_mode,
        m.active_tool != Tool::Laser ==> m.after_drag_update(p).laser_points == m.laser_points,
        m.active_tool == Tool::Laser ==> m.after_drag_update(p).current_stroke
            == m.current_stroke,
{
}

/// A release with the text tool keeps the open text and everything else; a
/// release with a drawing tool in draw mode appends the stroke in progress,
/// unchanged, to the finished strokes and closes it, and changes nothing
/// when there is none.
pub proof fn release_commits_the_stroke_in_progress(m: AppModel, a: Point, b: Point)
    ensures
        m.active_tool == Tool::Text ==> m.after_drag_end(a, b) == m,
        is_drawing_tool(m.active_tool) && m.current_stroke is None ==> m.after_drag_end(a, b)
            == m,
        m.draw_mode && is_drawing_tool(m.active_tool) && m.current_stroke is Some
            ==> m.after_drag_end(a, b) == (AppModel {
            strokes: m.strokes.push(m.current_stroke.unwrap()),
            current_stroke: None,
            ..m
        }),
{
}

/// A move whose tool does not match the kind of the stroke in progress
/// (the tool was switched during the drag) leaves that stroke alone.
pub proof fn moves_leave_a_stroke_of_another_kind(m: AppModel, p: Point)
    requires
        m.active_tool != Tool::Laser,
        !(m.current_stroke matches Some(StrokeModel::Path { .. }) && (m.active_tool == Tool::Pen
            || m.active_tool == Tool::Highlighter)),
        !(m.current_stroke matches Some(StrokeModel::Line { .. }) && m.active_tool == Tool::Line),
        !(m.current_stroke matches Some(StrokeModel::Rect { .. }) && m.active_tool
            == Tool::Rectangle),
        !(m.current_stroke matches Some(StrokeModel::Ellipse { .. }) && m.active_tool
            == Tool::Ellipse),
    ensures
        m.after_drag_update(p) == m,
{
}

/// An eraser release in draw mode keeps, in their order, exactly the strokes
/// that the drag does not touch: none that it touches remains and every
/// stroke it misses stays; the stroke in progress is dropped and settings
/// are kept.
pub proof fn eraser_release_keeps_exactly_the_untouched(m: AppModel, a: Point, b: Point)
    requires
        m.draw_mode,
        m.active_tool == Tool::Eraser,
    ensures
        m.after_drag_end(a, b).strokes.len() <= m.strokes.len(),
        forall|i: int|
            0 <= i < m.after_drag_end(a, b).strokes.len() ==> !spec_hit(
                #[trigger] m.after_drag_end(a, b).strokes[i],
                a,
                b,
            ),
        forall|i: int|
            0 <= i < m.strokes.len() && !spec_hit(m.strokes[i], a, b) ==> m.after_drag_end(
                a,
                b,
            ).strokes.contains(#[trigger] m.strokes[i]),
        m.after_drag_end(a, b).current_stroke is None,
        m.after_drag_end(a, b).laser_points == m.laser_points,
        m.after_drag_end(a, b).active_tool == m.active_tool,
        m.after_drag_end(a, b).active_color == m.active_color,
        m.after_drag_end(a, b).stroke_width == m.stroke_width,
        m.after_drag_end(a, b).draw_mode == m.draw_mode,
{
    eraser_removes_only_touched_strokes(m.strokes, a, b);
}

/// A click with any tool but the text tool changes nothing.
pub proof fn clicks_only_matter_for_text(m: AppModel, p: Point)
    requires
        m.active_tool != Tool::Text,
    ensures
        m.after_click(p) == m,
{
}

/// While a text is open, Enter (or keypad Enter) commits it unchanged and
/// closes it; Backspace removes its last character, if any, and nothing
/// else; both are consumed.
pub proof fn enter_commits_and_backspace_deletes(m: AppModel, key: KeyPress)
    requires
        m.draw_mode,
        m.active_tool == Tool::Text,
        m.current_stroke matches Some(StrokeModel::Text { .. }),
    ensures
        (key.name == KeyName::Return || key.name == KeyName::KpEnter) ==> m.after_key(key) == (
        AppModel { strokes: m.strokes.push(m.current_stroke.unwrap()), current_stroke: None, ..m },
        KeyOutcome { handled: true, redraw: true, draw_mode_toggled: false },
        ),
        key.name == KeyName::BackSpace ==> (match m.current_stroke.unwrap() {
            StrokeModel::Text { position, content, color, size } => m.after_key(key) == (
                AppModel {
                    current_stroke: Some(
                        StrokeModel::Text {
                            position,
                            content: if content.len() > 0 {
                                content.subrange(0, content.len() - 1)
                            } else {
                                content
                            },
                            color,
                            size,
                        },
                    ),
                    ..m
                },
                KeyOutcome { handled: true, redraw: true, draw_mode_toggled: false },
            ),
            _ => true,
        }),
        (key.name != KeyName::Return && key.name != KeyName::KpEnter && key.name
            != KeyName::BackSpace && key.unicode is Some && (key.unicode.unwrap() as u32) >= 0xa0)
            ==> (match m.current_stroke.unwrap() {
            StrokeModel::Text { position, content, color, size } => m.after_key(key) == (
                AppModel {
                    current_stroke: Some(
                        StrokeModel::Text {
                            position,
                            content: content.push(key.unicode.unwrap()),
                            color,
                            size,
                        },
                    ),
                    ..m
                },
                KeyOutcome { handled: true, redraw: true, draw_mode_toggled: false },
            ),
            _ => true,
        }),
{
    match m.current_stroke.unwrap() {
        StrokeModel::Text { content, .. } => {
            if content.len() > 0 {
                assert(content.drop_last() =~= content.subrange(0, content.len() - 1));
            }
        },
        _ => {},
    }
}

/// The eraser hits an ellipse exactly when the drag's midpoint lies inside
/// the ellipse around the centre whose semi-axes are the radii grown by the
/// hit radius (never when a grown semi-axis is zero).
pub proof fn eraser_hits_an_ellipse_grown_by_the_radius(
    center: Point,
    radii: (i32, i32),
    color: Color,
    width: u32,
    start: Point,
    end: Point,
)
    ensures
        spec_hit(StrokeModel::Ellipse { center, radii, color, width }, start, end) <==> ({
            let sx = radii.0 + 20;
            let sy = radii.1 + 20;
            let ux = start.0 + end.0 - 2 * center.0;
            let uy = start.1 + end.1 - 2 * center.1;
            sx != 0 && sy != 0 && ux * ux * (sy * sy) + uy * uy * (sx * sx) <= 4 * (sx * sx) * (sy
                * sy)
        }),
{
    let sx = radii.0 + 20;
    let sy = radii.1 + 20;
    assert(4 * (sx * sx) * (sy * sy) == 4 * ((sx * sx) * (sy * sy))) by (nonlinear_arith);
}

/// With draw mode off the overlay takes no input; with it on it takes the
/// whole screen except the toolbar, when the toolbar's rectangle is known.
pub proof fn input_region_follows_pass_through(pass_through: bool, toolbar: Option<RectInt>)
    ensures
        pass_through ==> spec_input_region(pass_through, toolbar) == InputRegion::Empty,
        !pass_through ==> spec_input_region(pass_through, toolbar) == (InputRegion::Covering {
            full: (0, 0, 32767, 32767),
            hole: toolbar,
        }),
{
}

/// The distance between two coordinates is the absolute difference.
pub proof fn coordinate_distance_is_absolute_difference(a: i16, b: i16)
    ensures
        coord_distance(a, b) == if a >= b {
            a - b
        } else {
            b - a
        },
        coord_distance(a, b) == coord_distance(b, a),
{
}

/// The point `num / den` of the way from `a` to `b` lies strictly within
/// distance `r` of the point whose doubled coordinates are `(mx2, my2)`.
pub open spec fn close_at(a: Point, b: Point, num: int, den: int, mx2: int, my2: int, r: int) -> bool {
    let ex = den * mx2 - (den * (2 * a.0) + num * (2 * (b.0 - a.0)));
    let ey = den * my2 - (den * (2 * a.1) + num * (2 * (b.1 - a.1)));
    &&& 0 < den
    &&& 0 <= num <= den
    &&& ex * ex + ey * ey < (2 * r) * (2 * r) * (den * den)
}

/// Some point of the segment from `a` to `b` (at a rational position) lies
/// strictly within distance `r` of the point whose doubled coordinates are
/// `(mx2, my2)`.
pub open spec fn segment_within(a: Point, b: Point, mx2: int, my2: int, r: int) -> bool {
    exists|num: int, den: int| #[trigger] close_at(a, b, num, den, mx2, my2, r)
}

proof fn lemma_cancel_square(k: int, x: int, y: int)
    requires
        k != 0,
        (k * k) * x < y * (k * k),
    ensures
        x < y,
{
    assert(k * k > 0) by (nonlinear_arith)
        requires
            k != 0,
    ;
    assert(x < y) by (nonlinear_arith)
        requires
            k * k > 0,
            (k * k) * x < y * (k * k),
    ;
}

proof fn lemma_square_of_sum(a: int, b: int)
    ensures
        (a + b) * (a + b) == a * a + 2 * (a * b) + b * b,
        (a - b) * (a - b) == a * a - 2 * (a * b) + b * b,
{
    assert((a + b) * (a + b) == a * a + 2 * (a * b) + b * b) by (nonlinear_arith);
    assert((a - b) * (a - b) == a * a - 2 * (a * b) + b * b) by (nonlinear_arith);
}

proof fn lemma_regroup(a: int, b: int, c: int, d: int)
    ensures
        (a * b) * (c * d) == (a * c) * (b * d),
{
    assert((a * b) * (c * d) == (a * c) * (b * d)) by (nonlinear_arith);
}

proof fn lemma_distribute(k: int, x: int, y: int)
    ensures
        k * x + k * y == k * (x + y),
        k * x - k * y == k * (x - y),
{
    assert(k * x + k * y == k * (x + y)) by (nonlinear_arith);
    assert(k * x - k * y == k * (x - y)) by (nonlinear_arith);
}

proof fn lemma_square_of_combination(p: int, vx: int, vy: int, q: int, dx: int, dy: int)
    ensures
        (p * vx + q * dx) * (p * vx + q * dx) + (p * vy + q * dy) * (p * vy + q * dy) == (p * p) * (
        vx * vx + vy * vy) + 2 * ((p * q) * (vx * dx + vy * dy)) + (q * q) * (dx * dx + dy * dy),
{
    lemma_square_of_sum(p * vx, q * dx);
    lemma_square_of_sum(p * vy, q * dy);
    lemma_regroup(p, vx, p, vx);
    lemma_regroup(p, vy, p, vy);
    lemma_regroup(q, dx, q, dx);
    lemma_regroup(q, dy, q, dy);
    lemma_regroup(p, vx, q, dx);
    lemma_regroup(p, vy, q, dy);
    lemma_distribute(p * p, vx * vx, vy * vy);
    lemma_distribute(q * q, dx * dx, dy * dy);
    lemma_distribute(p * q, vx * dx, vy * dy);
}

proof fn lemma_lagrange(x: int, y: int, dx: int, dy: int)
    ensures
        (x * x + y * y) * (dx * dx + dy * dy) == (x * dx + y * dy) * (x * dx + y * dy) + (x * dy - y
            * dx) * (x * dy - y * dx),
{
    lemma_square_of_sum(x * dx, y * dy);
    lemma_square_of_sum(x * dy, y * dx);
    lemma_regroup(x, dx, x, dx);
    lemma_regroup(y, dy, y, dy);
    lemma_regroup(x, dy, x, dy);
    lemma_regroup(y, dx, y, dx);
    lemma_regroup(x, dx, y, dy);
    lemma_regroup(x, dy, y, dx);
    assert((x * dy) * (y * dx) == (x * dx) * (y * dy)) by (nonlinear_arith);
    assert((x * x + y * y) * (dx * dx + dy * dy) == (x * x) * (dx * dx) + (x * x) * (dy * dy) + (y
        * y) * (dx * dx) + (y * y) * (dy * dy)) by (nonlinear_arith);
}

proof fn lemma_foot_of_perpendicular(wx: int, wy: int, dx: int, dy: int)
    ensures
        (dx * dx + dy * dy) * wx - (wx * dx + wy * dy) * dx == dy * (wx * dy - wy * dx),
        (dx * dx + dy * dy) * wy - (wx * dx + wy * dy) * dy == -dx * (wx * dy - wy * dx),
{
    assert((dx * dx + dy * dy) * wx - (wx * dx + wy * dy) * dx == dy * (wx * dy - wy * dx))
        by (nonlinear_arith);
    assert((dx * dx + dy * dy) * wy - (wx * dx + wy * dy) * dy == -dx * (wx * dy - wy * dx))
        by (nonlinear_arith);
}

proof fn lemma_cross_scaled(den: int, num: int, wx: int, wy: int, dx: int, dy: int)
    ensures
        (den * wx + (-num) * dx) * dy - (den * wy + (-num) * dy) * dx == den * (wx * dy - wy * dx),
{
    assert((den * wx + (-num) * dx) * dy == den * (wx * dy) - num * (dx * dy)) by (nonlinear_arith);
    assert((den * wy + (-num) * dy) * dx == den * (wy * dx) - num * (dy * dx)) by (nonlinear_arith);
    assert(dx * dy == dy * dx) by (nonlinear_arith);
    lemma_distribute(den, wx * dy, wy * dx);
}

#[verifier::spinoff_prover]
#[verifier::rlimit(40)]
proof fn lemma_near_segment_iff_some_point(a: Point, b: Point, mx2: int, my2: int, r: int)
    requires
        r > 0,
    ensures
        near_segment(a, b, mx2, my2, r) <==> segment_within(a, b, mx2, my2, r),
{
    let dx = 2 * (b.0 - a.0);
    let dy = 2 * (b.1 - a.1);
    let wx = mx2 - 2 * a.0;
    let wy = my2 - 2 * a.1;
    let dot = wx * dx + wy * dy;
    let len2 = dx * dx + dy * dy;
    let rr = (2 * r) * (2 * r);
    let cross = wx * dy - wy * dx;
    assert(len2 >= 0) by (nonlinear_arith)
        requires
            len2 == dx * dx + dy * dy,
    ;
    // From the nearest point of the segment to a witness.
    if near_segment(a, b, mx2, my2, r) {
        if dot <= 0 {
            let ex = 1 * mx2 - (1 * (2 * a.0) + 0 * (2 * (b.0 - a.0)));
            let ey = 1 * my2 - (1 * (2 * a.1) + 0 * (2 * (b.1 - a.1)));
            assert(ex == wx && ey == wy);
            assert(ex * ex + ey * ey < rr * (1 * 1)) by (nonlinear_arith)
                requires
                    ex == wx,
                    ey == wy,
                    wx * wx + wy * wy < rr,
            ;
            assert(close_at(a, b, 0, 1, mx2, my2, r));
        } else if dot >= len2 {
            let ex = 1 * mx2 - (1 * (2 * a.0) + 1 * (2 * (b.0 - a.0)));
            let ey = 1 * my2 - (1 * (2 * a.1) + 1 * (2 * (b.1 - a.1)));
            assert(ex == wx - dx && ey == wy - dy);
            assert(ex * ex + ey * ey < rr * (1 * 1)) by (nonlinear_arith)
                requires
                    ex == wx - dx,
                    ey == wy - dy,
                    (wx - dx) * (wx - dx) + (wy - dy) * (wy - dy) < rr,
            ;
            assert(close_at(a, b, 1, 1, mx2, my2, r));
        } else {
            let ex = len2 * mx2 - (len2 * (2 * a.0) + dot * (2 * (b.0 - a.0)));
            let ey = len2 * my2 - (len2 * (2 * a.1) + dot * (2 * (b.1 - a.1)));
            assert(ex == len2 * wx - dot * dx) by (nonlinear_arith)
                requires
                    ex == len2 * mx2 - (len2 * (2 * a.0) + dot * (2 * (b.0 - a.0))),
                    dx == 2 * (b.0 - a.0),
                    wx == mx2 - 2 * a.0,
            ;
            assert(ey == len2 * wy - dot * dy) by (nonlinear_arith)
                requires
                    ey == len2 * my2 - (len2 * (2 * a.1) + dot * (2 * (b.1 - a.1))),
                    dy == 2 * (b.1 - a.1),
                    wy == my2 - 2 * a.1,
            ;
            lemma_foot_of_perpendicular(wx, wy, dx, dy);
            lemma_lagrange(dy, -dx, dx, dy);
            assert(ex * ex + ey * ey == len2 * (cross * cross)) by (nonlinear_arith)
                requires
                    ex == dy * cross,
                    ey == -dx * cross,
                    len2 == dx * dx + dy * dy,
            ;
            assert(len2 * (cross * cross) < rr * (len2 * len2)) by (nonlinear_arith)
                requires
                    cross * cross < rr * len2,
                    len2 > 0,
            ;
            assert(close_at(a, b, dot, len2, mx2, my2, r));
        }
    }
    // From a witness to the nearest point of the segment.
    if segment_within(a, b, mx2, my2, r) {
        let (num, den) = choose|num: int, den: int| #[trigger]
            close_at(a, b, num, den, mx2, my2, r);
        let ex = den * mx2 - (den * (2 * a.0) + num * (2 * (b.0 - a.0)));
        let ey = den * my2 - (den * (2 * a.1) + num * (2 * (b.1 - a.1)));
        assert(ex == den * wx + (-num) * dx) by (nonlinear_arith)
            requires
                ex == den * mx2 - (den * (2 * a.0) + num * (2 * (b.0 - a.0))),
                dx == 2 * (b.0 - a.0),
                wx == mx2 - 2 * a.0,
        ;
        assert(ey == den * wy + (-num) * dy) by (nonlinear_arith)
            requires
                ey == den * my2 - (den * (2 * a.1) + num * (2 * (b.1 - a.1))),
                dy == 2 * (b.1 - a.1),
                wy == my2 - 2 * a.1,
        ;
        assert(ex * ex + ey * ey < rr * (den * den));
        if dot <= 0 {
            lemma_square_of_combination(den, wx, wy, -num, dx, dy);
            assert(2 * ((den * (-num)) * dot) >= 0) by (nonlinear_arith)
                requires
                    den > 0,
                    num >= 0,
                    dot <= 0,
            ;
            assert(((-num) * (-num)) * len2 >= 0) by (nonlinear_arith)
                requires
                    len2 >= 0,
            ;
            assert((den * den) * (wx * wx + wy * wy) < rr * (den * den));
            assert((den * den) * (wx * wx + wy * wy) < rr * (den * den) ==> (den * den) * (wx
                * wx + wy * wy) < rr * (den * den));
            lemma_cancel_square(den, wx * wx + wy * wy, rr);
        } else if dot >= len2 {
            let vx = wx - dx;
            let vy = wy - dy;
            assert(ex == den * vx + (den - num) * dx) by (nonlinear_arith)
                requires
                    ex == den * wx + (-num) * dx,
                    vx == wx - dx,
            ;
            assert(ey == den * vy + (den - num) * dy) by (nonlinear_arith)
                requires
                    ey == den * wy + (-num) * dy,
                    vy == wy - dy,
            ;
            lemma_square_of_combination(den, vx, vy, den - num, dx, dy);
            assert(vx * dx + vy * dy == dot - len2) by (nonlinear_arith)
                requires
                    vx == wx - dx,
                    vy == wy - dy,
                    dot == wx * dx + wy * dy,
                    len2 == dx * dx + dy * dy,
            ;
            assert(2 * ((den * (den - num)) * (vx * dx + vy * dy)) >= 0) by (nonlinear_arith)
                requires
                    den > 0,
                    num <= den,
                    vx * dx + vy * dy >= 0,
            ;
            assert(((den - num) * (den - num)) * len2 >= 0) by (nonlinear_arith)
                requires
                    len2 >= 0,
            ;
            assert((den * den) * (vx * vx + vy * vy) < rr * (den * den));
            lemma_cancel_square(den, vx * vx + vy * vy, rr);
            assert((wx - dx) * (wx - dx) + (wy - dy) * (wy - dy) < rr);
        } else {
            lemma_lagrange(ex, ey, dx, dy);
            lemma_cross_scaled(den, num, wx, wy, dx, dy);
            assert(ex * dy - ey * dx == den * cross);
            let s2 = ex * ex + ey * ey;
            let t = ex * dx + ey * dy;
            assert(s2 * len2 >= (den * cross) * (den * cross)) by (nonlinear_arith)
                requires
                    s2 * len2 == t * t + (den * cross) * (den * cross),
            ;
            assert(s2 * len2 < (rr * (den * den)) * len2) by (nonlinear_arith)
                requires
                    s2 < rr * (den * den),
                    len2 > 0,
            ;
            assert((den * den) * (cross * cross) < (rr * len2) * (den * den)) by (nonlinear_arith)
                requires
                    (den * cross) * (den * cross) <= s2 * len2,
                    s2 * len2 < (rr * (den * den)) * len2,
            ;
            lemma_cancel_square(den, cross * cross, rr * len2);
        }
    }
}

/// The eraser hits a line exactly when some point of the segment from its
/// start to its end lies within the hit radius of the drag's midpoint.
pub proof fn eraser_hits_a_line_near_any_of_its_points(
    s: Point,
    e: Point,
    color: Color,
    width: u32,
    start: Point,
    end: Point,
)
    ensures
        spec_hit(StrokeModel::Line { start: s, end: e, color, width }, start, end)
            <==> segment_within(s, e, start.0 + end.0, start.1 + end.1, 20),
{
    lemma_near_segment_iff_some_point(s, e, start.0 + end.0, start.1 + end.1, 20);
}

/// The eraser hits a freehand path exactly when one of its points, or some
/// point of a segment between consecutive points, lies within the hit
/// radius of the drag's midpoint.
pub proof fn eraser_hits_a_path_near_any_of_its_points(
    points: Seq<Point>,
    color: Color,
    width: u32,
    tool: PathTool,
    start: Point,
    end: Point,
)
    ensures
        spec_hit(StrokeModel::Path { points, color, width, tool }, start, end) <==> exists|i: int|
            #![trigger points[i]]
            0 <= i < points.len() && ({
                let ex = 2 * points[i].0 - (start.0 + end.0);
                let ey = 2 * points[i].1 - (start.1 + end.1);
                ex * ex + ey * ey < 1600
            } || (i + 1 < points.len() && segment_within(
                points[i],
                points[i + 1],
                start.0 + end.0,
                start.1 + end.1,
                20,
            ))),
{
    let mx2 = start.0 + end.0;
    let my2 = start.1 + end.1;
    assert((2 * (HIT_RADIUS as int)) * (2 * (HIT_RADIUS as int)) == 1600) by (nonlinear_arith)
        requires
            HIT_RADIUS == 20,
    ;
    assert forall|i: int| 0 <= i < points.len() implies (path_near_at(points, i, mx2, my2) <==> ({
        let ex = 2 * points[i].0 - (start.0 + end.0);
        let ey = 2 * points[i].1 - (start.1 + end.1);
        ex * ex + ey * ey < 1600
    } || (i + 1 < points.len() && segment_within(points[i], points[i + 1], mx2, my2, 20)))) by {
        if i + 1 < points.len() {
            lemma_near_segment_iff_some_point(points[i], points[i + 1], mx2, my2, 20);
        }
    }
    if spec_hit(StrokeModel::Path { points, color, width, tool }, start, end) {
        let i = choose|i: int|
            #![trigger points[i]]
            0 <= i < points.len() && path_near_at(points, i, mx2, my2);
        assert(path_near_at(points, i, mx2, my2));
        assert({
            let ex = 2 * points[i].0 - (start.0 + end.0);
            let ey = 2 * points[i].1 - (start.1 + end.1);
            ex * ex + ey * ey < 1600
        } || (i + 1 < points.len() && segment_within(points[i], points[i + 1], mx2, my2, 20)));
    }
    if exists|i: int|
        #![trigger points[i]]
        0 <= i < points.len() && ({
            let ex = 2 * points[i].0 - (start.0 + end.0);
            let ey = 2 * points[i].1 - (start.1 + end.1);
            ex * ex + ey * ey < 1600
        } || (i + 1 < points.len() && segment_within(points[i], points[i + 1], mx2, my2, 20))) {
        let i = choose|i: int|
            #![trigger points[i]]
            0 <= i < points.len() && ({
                let ex = 2 * points[i].0 - (start.0 + end.0);
                let ey = 2 * points[i].1 - (start.1 + end.1);
                ex * ex + ey * ey < 1600
            } || (i + 1 < points.len() && segment_within(points[i], points[i + 1], mx2, my2, 20)));
        assert(path_near_at(points, i, mx2, my2));
        let st = StrokeModel::Path { points, color, width, tool };
        let witness = st->Path_points[i];
        assert(spec_hit(StrokeModel::Path { points, color, width, tool }, start, end));
    }
}

} // verus!
