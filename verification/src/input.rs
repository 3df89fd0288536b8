use vstd::prelude::*;

use crate::state::{
    lemma_strokes_view_push, strokes_view, AppModel, AppState, PathTool, Point, Stroke,
    StrokeModel, StrokeWidth, Tool,
};

verus! {

/// How close (in pixels) the eraser's midpoint must come to a stroke's
/// reference points to remove it; text boxes use twice this distance.
pub const HIT_RADIUS: i64 = 20;

/// Font size, in pixels, of a newly placed text stroke.
pub const TEXT_SIZE: u32 = 24;

// ---------------------------------------------------------------------------
// Eraser hit test
// ---------------------------------------------------------------------------

/// `p` lies strictly within distance `r` of the point whose doubled
/// coordinates are `(mx2, my2)`.
pub open spec fn within(p: Point, mx2: int, my2: int, r: int) -> bool {
    let dx = 2 * p.0 - mx2;
    let dy = 2 * p.1 - my2;
    dx * dx + dy * dy < (2 * r) * (2 * r)
}

/// The point whose doubled coordinates are `(mx2, my2)` lies strictly within
/// distance `r` of the segment from `a` to `b` (of `a` when they coincide).
/// Everything is doubled: `d` runs along the segment, `w` from `a` to the
/// point; the nearest point of the segment is `a` when `w·d <= 0`, `b` when
/// `w·d >= d·d`, and otherwise the foot of the perpendicular, whose squared
/// distance is `(w×d)² / d·d`.
pub open spec fn near_segment(a: Point, b: Point, mx2: int, my2: int, r: int) -> bool {
    let dx = 2 * (b.0 - a.0);
    let dy = 2 * (b.1 - a.1);
    let wx = mx2 - 2 * a.0;
    let wy = my2 - 2 * a.1;
    let dot = wx * dx + wy * dy;
    let len2 = dx * dx + dy * dy;
    let rr = (2 * r) * (2 * r);
    if dot <= 0 {
        wx * wx + wy * wy < rr
    } else if dot >= len2 {
        (wx - dx) * (wx - dx) + (wy - dy) * (wy - dy) < rr
    } else {
        (wx * dy - wy * dx) * (wx * dy - wy * dx) < rr * len2
    }
}

/// The eraser's midpoint is near the `i`-th point of a path or near the
/// segment from it to the next point.
pub open spec fn path_near_at(points: Seq<Point>, i: int, mx2: int, my2: int) -> bool {
    ||| within(points[i], mx2, my2, HIT_RADIUS as int)
    ||| i + 1 < points.len() && near_segment(points[i], points[i + 1], mx2, my2, HIT_RADIUS as int)
}

/// Whether an eraser drag from `start` to `end` removes `stroke`: the
/// midpoint of the drag is tested against the stroke's shape (a path or a
/// line is hit anywhere along its segments).
pub open spec fn spec_hit(stroke: StrokeModel, start: Point, end: Point) -> bool {
    let mx2 = start.0 + end.0;
    let my2 = start.1 + end.1;
    match stroke {
        StrokeModel::Path { points, .. } => exists|i: int|
            #![trigger points[i]]
            0 <= i < points.len() && path_near_at(points, i, mx2, my2),
        StrokeModel::Line { start: s, end: e, .. } => near_segment(
            s,
            e,
            mx2,
            my2,
            HIT_RADIUS as int,
        ),
        StrokeModel::Rect { origin, size, .. } => {
            let x0: int = if size.0 >= 0 { origin.0 as int } else { origin.0 + size.0 };
            let x1: int = if size.0 >= 0 { origin.0 + size.0 } else { origin.0 as int };
            let y0: int = if size.1 >= 0 { origin.1 as int } else { origin.1 + size.1 };
            let y1: int = if size.1 >= 0 { origin.1 + size.1 } else { origin.1 as int };
            2 * x0 <= mx2 <= 2 * x1 && 2 * y0 <= my2 <= 2 * y1
        },
        StrokeModel::Ellipse { center, radii, .. } => {
            let bx = radii.0 + HIT_RADIUS;
            let by = radii.1 + HIT_RADIUS;
            let ax = mx2 - 2 * center.0;
            let ay = my2 - 2 * center.1;
            bx != 0 && by != 0 && ax * ax * (by * by) + ay * ay * (bx * bx) <= 4 * ((bx * bx) * (
            by * by))
        },
        StrokeModel::Text { position, .. } => within(position, mx2, my2, 2 * HIT_RADIUS),
    }
}

/// The predicate that keeps the strokes an eraser drag does not touch.
pub open spec fn survives(start: Point, end: Point) -> spec_fn(StrokeModel) -> bool {
    |s: StrokeModel| !spec_hit(s, start, end)
}

/// The strokes left after an eraser drag from `start` to `end`, in order.
pub open spec fn erased(strokes: Seq<StrokeModel>, start: Point, end: Point) -> Seq<StrokeModel> {
    strokes.filter(survives(start, end))
}

fn within_exec(p: Point, mx2: i64, my2: i64, r: i64) -> (b: bool)
    requires
        -65536 <= mx2 <= 65534,
        -65536 <= my2 <= 65534,
        0 <= r <= 2 * HIT_RADIUS,
    ensures
        b == within(p, mx2 as int, my2 as int, r as int),
{
    let dx: i64 = 2 * (p.0 as i64) - mx2;
    let dy: i64 = 2 * (p.1 as i64) - my2;
    assert(dx * dx <= 0x10_0000_0000) by (nonlinear_arith)
        requires
            -131072 <= dx <= 131072,
    ;
    assert(dy * dy <= 0x10_0000_0000) by (nonlinear_arith)
        requires
            -131072 <= dy <= 131072,
    ;
    assert(0 <= dx * dx && 0 <= dy * dy) by (nonlinear_arith);
    let d: i64 = 2 * r;
    assert(d * d <= 6400) by (nonlinear_arith)
        requires
            0 <= d <= 80,
    ;
    dx * dx + dy * dy < d * d
}

proof fn lemma_mul_bound(x: int, y: int, k: int)
    requires
        -k <= x <= k,
        -k <= y <= k,
    ensures
        -(k * k) <= x * y <= k * k,
{
    assert(-(k * k) <= x * y <= k * k) by (nonlinear_arith)
        requires
            -k <= x <= k,
            -k <= y <= k,
    ;
}

fn near_segment_exec(a: Point, b: Point, mx2: i64, my2: i64, r: i64) -> (near: bool)
    requires
        -65536 <= mx2 <= 65534,
        -65536 <= my2 <= 65534,
        0 <= r <= 2 * HIT_RADIUS,
    ensures
        near == near_segment(a, b, mx2 as int, my2 as int, r as int),
{
    let dx: i128 = 2 * (b.0 as i128 - a.0 as i128);
    let dy: i128 = 2 * (b.1 as i128 - a.1 as i128);
    let wx: i128 = mx2 as i128 - 2 * (a.0 as i128);
    let wy: i128 = my2 as i128 - 2 * (a.1 as i128);
    let k: i128 = 0x4_0000;
    proof {
        lemma_mul_bound(wx as int, dx as int, k as int);
        lemma_mul_bound(wy as int, dy as int, k as int);
        lemma_mul_bound(dx as int, dx as int, k as int);
        lemma_mul_bound(dy as int, dy as int, k as int);
        lemma_mul_bound(wx as int, wx as int, k as int);
        lemma_mul_bound(wy as int, wy as int, k as int);
        lemma_mul_bound(wx as int, dy as int, k as int);
        lemma_mul_bound(wy as int, dx as int, k as int);
        lemma_mul_bound((wx - dx) as int, (wx - dx) as int, k as int);
        lemma_mul_bound((wy - dy) as int, (wy - dy) as int, k as int);
    }
    let dot: i128 = wx * dx + wy * dy;
    let len2: i128 = dx * dx + dy * dy;
    let d: i128 = 2 * (r as i128);
    assert(0 <= d * d <= 6400) by (nonlinear_arith)
        requires
            0 <= d <= 80,
    ;
    let rr: i128 = d * d;
    if dot <= 0 {
        wx * wx + wy * wy < rr
    } else if dot >= len2 {
        let ex: i128 = wx - dx;
        let ey: i128 = wy - dy;
        ex * ex + ey * ey < rr
    } else {
        let cross: i128 = wx * dy - wy * dx;
        let big: i128 = 0x40_0000_0000;
        proof {
            lemma_mul_bound(cross as int, cross as int, big as int);
            lemma_mul_bound(rr as int, len2 as int, big as int);
        }
        cross * cross < rr * len2
    }
}

fn ellipse_hit(center: Point, radii: (i32, i32), mx2: i64, my2: i64) -> (b: bool)
    requires
        -65536 <= mx2 <= 65534,
        -65536 <= my2 <= 65534,
    ensures
        b == ({
            let bx = radii.0 + HIT_RADIUS;
            let by = radii.1 + HIT_RADIUS;
            let ax = mx2 - 2 * center.0;
            let ay = my2 - 2 * center.1;
            bx != 0 && by != 0 && ax * ax * (by * by) + ay * ay * (bx * bx) <= 4 * ((bx * bx) * (
            by * by))
        }),
{
    let bx: i128 = radii.0 as i128 + HIT_RADIUS as i128;
    let by: i128 = radii.1 as i128 + HIT_RADIUS as i128;
    if bx == 0 || by == 0 {
        return false;
    }
    let ax: i128 = mx2 as i128 - 2 * (center.0 as i128);
    let ay: i128 = my2 as i128 - 2 * (center.1 as i128);
    let lim_b: i128 = 0x8000_0014;
    let lim_a: i128 = 0x2_0000;
    assert(0 <= ax * ax <= lim_a * lim_a) by (nonlinear_arith)
        requires
            -lim_a <= ax <= lim_a,
    ;
    assert(0 <= ay * ay <= lim_a * lim_a) by (nonlinear_arith)
        requires
            -lim_a <= ay <= lim_a,
    ;
    assert(0 <= bx * bx <= lim_b * lim_b) by (nonlinear_arith)
        requires
            -lim_b <= bx <= lim_b,
    ;
    assert(0 <= by * by <= lim_b * lim_b) by (nonlinear_arith)
        requires
            -lim_b <= by <= lim_b,
    ;
    let ax2: i128 = ax * ax;
    let ay2: i128 = ay * ay;
    let bx2: i128 = bx * bx;
    let by2: i128 = by * by;
    assert(0 <= ax2 * by2 <= (lim_a * lim_a) * (lim_b * lim_b)) by (nonlinear_arith)
        requires
            0 <= ax2 <= lim_a * lim_a,
            0 <= by2 <= lim_b * lim_b,
    ;
    assert(0 <= ay2 * bx2 <= (lim_a * lim_a) * (lim_b * lim_b)) by (nonlinear_arith)
        requires
            0 <= ay2 <= lim_a * lim_a,
            0 <= bx2 <= lim_b * lim_b,
    ;
    assert(0 <= bx2 * by2 <= (lim_b * lim_b) * (lim_b * lim_b)) by (nonlinear_arith)
        requires
            0 <= bx2 <= lim_b * lim_b,
            0 <= by2 <= lim_b * lim_b,
    ;
    let lhs: i128 = ax2 * by2 + ay2 * bx2;
    let rhs: i128 = 4 * (bx2 * by2);
    lhs <= rhs
}

/// Whether an eraser drag from `start` to `end` removes `stroke`.
pub fn stroke_hit_test(stroke: &Stroke, start: Point, end: Point) -> (hit: bool)
    ensures
        hit == spec_hit(stroke@, start, end),
{
    let mx2: i64 = start.0 as i64 + end.0 as i64;
    let my2: i64 = start.1 as i64 + end.1 as i64;
    match stroke {
        Stroke::Path { points, .. } => {
            let n = points.len();
            let mut i: usize = 0;
            while i < n
                invariant
                    n == points@.len(),
                    0 <= i <= n,
                    stroke@ is Path,
                    stroke@->Path_points == points@,
                    mx2 == start.0 + end.0,
                    my2 == start.1 + end.1,
                    -65536 <= mx2 <= 65534,
                    -65536 <= my2 <= 65534,
                    forall|j: int|
                        0 <= j < i ==> !path_near_at(points@, j, mx2 as int, my2 as int),
                decreases n - i,
            {
                let near_point = within_exec(points[i], mx2, my2, HIT_RADIUS);
                let near_next = i + 1 < n && near_segment_exec(
                    points[i],
                    points[i + 1],
                    mx2,
                    my2,
                    HIT_RADIUS,
                );
                if near_point || near_next {
                    assert(path_near_at(points@, i as int, mx2 as int, my2 as int));
                    return true;
                }
                i += 1;
            }
            false
        },
        Stroke::Line { start: s, end: e, .. } => near_segment_exec(*s, *e, mx2, my2, HIT_RADIUS),
        Stroke::Rect { origin, size, .. } => {
            let ox: i64 = origin.0 as i64;
            let oy: i64 = origin.1 as i64;
            let sx: i64 = size.0 as i64;
            let sy: i64 = size.1 as i64;
            let (x0, x1) = if sx >= 0 {
                (ox, ox + sx)
            } else {
                (ox + sx, ox)
            };
            let (y0, y1) = if sy >= 0 {
                (oy, oy + sy)
            } else {
                (oy + sy, oy)
            };
            2 * x0 <= mx2 && mx2 <= 2 * x1 && 2 * y0 <= my2 && my2 <= 2 * y1
        },
        Stroke::Ellipse { center, radii, .. } => ellipse_hit(*center, *radii, mx2, my2),
        Stroke::Text { position, .. } => within_exec(*position, mx2, my2, 2 * HIT_RADIUS),
    }
}

// ---------------------------------------------------------------------------
// Pointer events
// ---------------------------------------------------------------------------

/// Distance between two coordinates.
pub open spec fn coord_distance(a: i16, b: i16) -> i32 {
    if a >= b {
        (a - b) as i32
    } else {
        (b - a) as i32
    }
}

fn coord_distance_exec(a: i16, b: i16) -> (d: i32)
    ensures
        d == coord_distance(a, b),
{
    if a >= b {
        a as i32 - b as i32
    } else {
        b as i32 - a as i32
    }
}

impl AppModel {
    /// The stroke that a drag started at `p` begins with, for the tools that draw one.
    pub open spec fn new_stroke_at(self, p: Point) -> Option<StrokeModel> {
        let color = self.active_color;
        let width = self.stroke_width.spec_pixels();
        match self.active_tool {
            Tool::Pen => Some(
                StrokeModel::Path { points: seq![p], color, width, tool: PathTool::Pen },
            ),
            Tool::Highlighter => Some(
                StrokeModel::Path {
                    points: seq![p],
                    color,
                    width: StrokeWidth::Thick.spec_pixels(),
                    tool: PathTool::Highlighter,
                },
            ),
            Tool::Line => Some(StrokeModel::Line { start: p, end: p, color, width }),
            Tool::Rectangle => Some(StrokeModel::Rect { origin: p, size: (0, 0), color, width }),
            Tool::Ellipse => Some(StrokeModel::Ellipse { center: p, radii: (0, 0), color, width }),
            _ => None,
        }
    }

    /// State after the pointer is pressed at `p` and a drag begins.
    pub open spec fn after_drag_begin(self, p: Point) -> AppModel {
        if !self.draw_mode {
            self
        } else if self.active_tool == Tool::Laser {
            AppModel { laser_points: seq![p], ..self }
        } else if self.active_tool == Tool::Eraser || self.active_tool == Tool::Text {
            self
        } else {
            AppModel { current_stroke: self.new_stroke_at(p), ..self }
        }
    }

    /// Whether the overlay repaints after a drag begins.
    pub open spec fn drag_begin_redraws(self) -> bool {
        self.draw_mode && self.active_tool != Tool::Eraser && self.active_tool != Tool::Text
    }

    /// The in-progress stroke after the pointer moved to `p` during a drag.
    pub open spec fn updated_stroke(self, p: Point) -> Option<StrokeModel> {
        match (self.active_tool, self.current_stroke) {
            (Tool::Pen, Some(StrokeModel::Path { points, color, width, tool })) => Some(
                StrokeModel::Path { points: points.push(p), color, width, tool },
            ),
            (Tool::Highlighter, Some(StrokeModel::Path { points, color, width, tool })) => Some(
                StrokeModel::Path { points: points.push(p), color, width, tool },
            ),
            (Tool::Line, Some(StrokeModel::Line { start, end, color, width })) => Some(
                StrokeModel::Line { start, end: p, color, width },
            ),
            (Tool::Rectangle, Some(StrokeModel::Rect { origin, size, color, width })) => Some(
                StrokeModel::Rect {
                    origin,
                    size: ((p.0 - origin.0) as i32, (p.1 - origin.1) as i32),
                    color,
                    width,
                },
            ),
            (Tool::Ellipse, Some(StrokeModel::Ellipse { center, radii, color, width })) => Some(
                StrokeModel::Ellipse {
                    center,
                    radii: (coord_distance(p.0, center.0), coord_distance(p.1, center.1)),
                    color,
                    width,
                },
            ),
            _ => self.current_stroke,
        }
    }

    /// State after the pointer moved to `p` during a drag.
    pub open spec fn after_drag_update(self, p: Point) -> AppModel {
        if !self.draw_mode {
            self
        } else if self.active_tool == Tool::Laser {
            AppModel { laser_points: self.laser_points.push(p), ..self }
        } else {
            AppModel { current_stroke: self.updated_stroke(p), ..self }
        }
    }

    /// State after a drag from `start` ends at `end`: the laser trail vanishes,
    /// the eraser removes the strokes it hits, a text in progress stays open
    /// for typing, and any other stroke in progress is committed.
    pub open spec fn after_drag_end(self, start: Point, end: Point) -> AppModel {
        if !self.draw_mode {
            self
        } else if self.active_tool == Tool::Laser {
            AppModel { laser_points: Seq::empty(), current_stroke: None, ..self }
        } else if self.active_tool == Tool::Eraser {
            AppModel { strokes: erased(self.strokes, start, end), current_stroke: None, ..self }
        } else if self.active_tool == Tool::Text {
            self
        } else {
            match self.current_stroke {
                Some(s) => AppModel { strokes: self.strokes.push(s), current_stroke: None, ..self },
                None => self,
            }
        }
    }

    /// Whether a pending text has something typed in it.
    pub open spec fn has_pending_text(self) -> bool {
        match self.current_stroke {
            Some(StrokeModel::Text { content, .. }) => content.len() > 0,
            _ => false,
        }
    }

    /// State after a click at `p`: with the text tool, a non-empty pending text
    /// is committed and an empty text is opened at `p`.
    pub open spec fn after_click(self, p: Point) -> AppModel {
        if !self.draw_mode || self.active_tool != Tool::Text {
            self
        } else {
            let strokes = if self.has_pending_text() {
                self.strokes.push(self.current_stroke.unwrap())
            } else {
                self.strokes
            };
            AppModel {
                strokes,
                current_stroke: Some(
                    StrokeModel::Text {
                        position: p,
                        content: Seq::empty(),
                        color: self.active_color,
                        size: TEXT_SIZE,
                    },
                ),
                ..self
            }
        }
    }
}

impl AppState {
    /// The pointer was pressed at `p` and a drag begins. Returns whether the
    /// overlay needs repainting.
    pub fn drag_begin(&mut self, p: Point) -> (redraw: bool)
        ensures
            final(self)@ == old(self)@.after_drag_begin(p),
            redraw == old(self)@.drag_begin_redraws(),
    {
        if !self.draw_mode {
            return false;
        }
        let color = self.active_color;
        let width = self.stroke_width.pixels();
        let mut first: Vec<Point> = Vec::new();
        first.push(p);
        let stroke = match self.active_tool {
            Tool::Pen => Stroke::Path { points: first, color, width, tool: PathTool::Pen },
            Tool::Highlighter => Stroke::Path {
                points: first,
                color,
                width: StrokeWidth::Thick.pixels(),
                tool: PathTool::Highlighter,
            },
            Tool::Line => Stroke::Line { start: p, end: p, color, width },
            Tool::Rectangle => Stroke::Rect { origin: p, size: (0, 0), color, width },
            Tool::Ellipse => Stroke::Ellipse { center: p, radii: (0, 0), color, width },
            Tool::Laser => {
                self.laser_points = first;
                return true;
            },
            Tool::Eraser | Tool::Text => {
                return false;
            },
        };
        self.current_stroke = Some(stroke);
        true
    }

    /// The pointer moved to `p` during a drag. Returns whether the overlay
    /// needs repainting.
    pub fn drag_update(&mut self, p: Point) -> (redraw: bool)
        ensures
            final(self)@ == old(self)@.after_drag_update(p),
            redraw == old(self).draw_mode,
    {
        if !self.draw_mode {
            return false;
        }
        let tool = self.active_tool;
        if tool == Tool::Laser {
            self.laser_points.push(p);
            return true;
        }
        let current = self.current_stroke.take();
        let next = match current {
            Some(Stroke::Path { mut points, color, width, tool: kind }) => {
                if tool == Tool::Pen || tool == Tool::Highlighter {
                    points.push(p);
                }
                Some(Stroke::Path { points, color, width, tool: kind })
            },
            Some(Stroke::Line { start, end, color, width }) => {
                if tool == Tool::Line {
                    Some(Stroke::Line { start, end: p, color, width })
                } else {
                    Some(Stroke::Line { start, end, color, width })
                }
            },
            Some(Stroke::Rect { origin, size, color, width }) => {
                if tool == Tool::Rectangle {
                    let sized = (p.0 as i32 - origin.0 as i32, p.1 as i32 - origin.1 as i32);
                    Some(Stroke::Rect { origin, size: sized, color, width })
                } else {
                    Some(Stroke::Rect { origin, size, color, width })
                }
            },
            Some(Stroke::Ellipse { center, radii, color, width }) => {
                if tool == Tool::Ellipse {
                    let r = (coord_distance_exec(p.0, center.0), coord_distance_exec(p.1, center.1));
                    Some(Stroke::Ellipse { center, radii: r, color, width })
                } else {
                    Some(Stroke::Ellipse { center, radii, color, width })
                }
            },
            other => other,
        };
        self.current_stroke = next;
        true
    }

    /// Removes every finished stroke that an eraser drag from `start` to
    /// `end` hits, keeping the others in order.
    fn erase(&mut self, start: Point, end: Point)
        ensures
            final(self)@ == (AppModel {
                strokes: erased(old(self)@.strokes, start, end),
                ..old(self)@
            }),
    {
        let mut rest: Vec<Stroke> = Vec::new();
        std::mem::swap(&mut rest, &mut self.strokes);
        let ghost orig = rest@;
        let n = rest.len();
        let mut kept: Vec<Stroke> = Vec::new();
        let mut i: usize = 0;
        assert(strokes_view(orig.take(0)) =~= Seq::<StrokeModel>::empty());
        while i < n
            invariant
                n == orig.len(),
                0 <= i <= n,
                rest@ == orig.subrange(i as int, n as int),
                strokes_view(kept@) == erased(strokes_view(orig.take(i as int)), start, end),
            decreases n - i,
        {
            let s = rest.remove(0);
            assert(rest@ =~= orig.subrange(i + 1, n as int));
            let ghost before = kept@;
            let hit = stroke_hit_test(&s, start, end);
            if !hit {
                kept.push(s);
                proof {
                    lemma_strokes_view_push(before, s);
                }
            }
            proof {
                let t = strokes_view(orig.take(i + 1));
                assert(t.drop_last() =~= strokes_view(orig.take(i as int)));
                assert(t.last() == s@);
                reveal_with_fuel(Seq::filter, 1);
                assert(erased(t, start, end) == if survives(start, end)(t.last()) {
                    erased(t.drop_last(), start, end).push(t.last())
                } else {
                    erased(t.drop_last(), start, end)
                });
            }
            i += 1;
        }
        assert(orig.take(n as int) =~= orig);
        self.strokes = kept;
    }

    /// A drag from `start` ended at `end`. Returns whether the overlay needs
    /// repainting.
    pub fn drag_end(&mut self, start: Point, end: Point) -> (redraw: bool)
        ensures
            final(self)@ == old(self)@.after_drag_end(start, end),
            redraw == old(self).draw_mode,
    {
        if !self.draw_mode {
            return false;
        }
        match self.active_tool {
            Tool::Laser => {
                self.laser_points.clear();
                self.current_stroke = None;
            },
            Tool::Eraser => {
                self.erase(start, end);
                self.current_stroke = None;
            },
            Tool::Text => {},
            _ => {
                let current = self.current_stroke.take();
                match current {
                    Some(s) => {
                        proof {
                            lemma_strokes_view_push(self.strokes@, s);
                        }
                        self.strokes.push(s);
                    },
                    None => {},
                }
            },
        }
        true
    }

    /// A click at `p`: with the text tool in draw mode, commits a non-empty
    /// pending text and opens a new empty text at `p`.
    pub fn click(&mut self, p: Point)
        ensures
            final(self)@ == old(self)@.after_click(p),
    {
        if !self.draw_mode || self.active_tool != Tool::Text {
            return;
        }
        let current = self.current_stroke.take();
        match current {
            Some(Stroke::Text { position, content, color, size }) => {
                if !content.as_str().is_empty() {
                    let s = Stroke::Text { position, content, color, size };
                    proof {
                        lemma_strokes_view_push(self.strokes@, s);
                    }
                    self.strokes.push(s);
                }
            },
            _ => {},
        }
        let color = self.active_color;
        self.current_stroke = Some(
            Stroke::Text { position: p, content: String::new(), color, size: TEXT_SIZE },
        );
    }
}

// ---------------------------------------------------------------------------
// Keyboard
// ---------------------------------------------------------------------------

/// The keys that the overlay's keyboard handling tells apart. The letters
/// stand for the letter keys `z`, `c`, `d`, `h`, with or without Shift.
#[derive(Debug, Clone, Copy, PartialEq, Eq, Structural)]
pub enum KeyName {
    Return,
    KpEnter,
    BackSpace,
    Escape,
    Z,
    C,
    D,
    H,
    Other,
}

/// A key press as the overlay sees it: the key, the character it types (if
/// any), and the Control and Shift modifiers.
#[derive(Debug)]
pub struct KeyPress {
    pub name: KeyName,
    pub unicode: Option<char>,
    pub ctrl: bool,
    pub shift: bool,
}

/// What the window does after a key press: whether the press is consumed
/// (not passed on to other handlers), whether the overlay repaints, and
/// whether draw mode was switched (so the input region and toolbar border
/// must follow).
#[derive(Debug, Clone, Copy, PartialEq, Eq, Structural)]
pub struct KeyOutcome {
    pub handled: bool,
    pub redraw: bool,
    pub draw_mode_toggled: bool,
}

/// A consumed key press that repaints the overlay.
pub open spec fn consumed() -> KeyOutcome {
    KeyOutcome { handled: true, redraw: true, draw_mode_toggled: false }
}

/// A key press left to other handlers.
pub open spec fn passed_on() -> KeyOutcome {
    KeyOutcome { handled: false, redraw: false, draw_mode_toggled: false }
}

/// A consumed key press that switched draw mode.
pub open spec fn toggled() -> KeyOutcome {
    KeyOutcome { handled: true, redraw: true, draw_mode_toggled: true }
}

/// Unicode control characters (general category Cc).
pub open spec fn is_control_char(c: char) -> bool {
    (c as u32) < 0x20 || (0x7f <= (c as u32) && (c as u32) < 0xa0)
}

/// Whether `c` is a control character (general category Cc), as
/// `char::is_control` decides.
pub fn is_control(c: char) -> (b: bool)
    ensures
        b == is_control_char(c),
{
    let v = c as u32;
    v < 0x20 || (0x7f <= v && v < 0xa0)
}

/// Appends `c` to `s` (`String::push`).
#[verifier::external_body]
fn push_char(s: &mut String, c: char)
    ensures
        final(s)@ == old(s)@.push(c),
{
    s.push(c);
}

/// Removes the last character of `s` (`String::pop`): `None` and no change
/// when `s` is empty, else the last character.
#[verifier::external_body]
fn pop_char(s: &mut String) -> (c: Option<char>)
    ensures
        old(s)@.len() == 0 ==> c is None && final(s)@ == old(s)@,
        old(s)@.len() > 0 ==> c == Some(old(s)@.last()) && final(s)@ == old(s)@.drop_last(),
{
    s.pop()
}

/// The key types a printable (non-control) character, modifiers or not.
pub open spec fn types_char(key: KeyPress) -> bool {
    &&& key.unicode is Some
    &&& !is_control_char(key.unicode.unwrap())
}

impl AppModel {
    /// State with draw mode switched.
    pub open spec fn with_draw_mode_toggled(self) -> AppModel {
        AppModel { draw_mode: !self.draw_mode, ..self }
    }

    /// A text is being typed: draw mode, text tool, and an open text.
    pub open spec fn is_typing(self) -> bool {
        &&& self.draw_mode
        &&& self.active_tool == Tool::Text
        &&& self.current_stroke matches Some(StrokeModel::Text { .. })
    }

    /// The characters of the open text.
    pub open spec fn typed(self) -> Seq<char> {
        self.current_stroke.unwrap()->Text_content
    }

    /// State with the open text's characters replaced by `content`.
    pub open spec fn with_typed(self, content: Seq<char>) -> AppModel {
        match self.current_stroke {
            Some(StrokeModel::Text { position, color, size, .. }) => AppModel {
                current_stroke: Some(StrokeModel::Text { position, content, color, size }),
                ..self
            },
            _ => self,
        }
    }

    /// Global shortcuts: Ctrl+Z undoes, Ctrl+Shift+C and Escape clear,
    /// Ctrl+D switches draw mode (Ctrl+Z and Ctrl+D only without Shift);
    /// any other key is passed on.
    pub open spec fn after_shortcut(self, key: KeyPress) -> (AppModel, KeyOutcome) {
        if key.name == KeyName::Z && key.ctrl && !key.shift {
            (self.undone(), consumed())
        } else if key.name == KeyName::C && key.ctrl && key.shift {
            (self.cleared(), consumed())
        } else if key.name == KeyName::Escape {
            (self.cleared(), consumed())
        } else if key.name == KeyName::D && key.ctrl && !key.shift {
            (self.with_draw_mode_toggled(), toggled())
        } else {
            (self, passed_on())
        }
    }

    /// State and outcome after a key press. While a text is being typed,
    /// Enter commits it, Backspace deletes its last character and a
    /// key that types a printable character appends it (also with Control
    /// held); every other key goes to the global shortcuts.
    pub open spec fn after_key(self, key: KeyPress) -> (AppModel, KeyOutcome) {
        if self.is_typing() {
            if key.name == KeyName::Return || key.name == KeyName::KpEnter {
                (
                    AppModel {
                        strokes: self.strokes.push(self.current_stroke.unwrap()),
                        current_stroke: None,
                        ..self
                    },
                    consumed(),
                )
            } else if key.name == KeyName::BackSpace {
                let typed = self.typed();
                (
                    self.with_typed(
                        if typed.len() > 0 {
                            typed.drop_last()
                        } else {
                            typed
                        },
                    ),
                    consumed(),
                )
            } else if types_char(key) {
                (self.with_typed(self.typed().push(key.unicode.unwrap())), consumed())
            } else {
                self.after_shortcut(key)
            }
        } else {
            self.after_shortcut(key)
        }
    }
}

impl AppState {
    fn shortcut(&mut self, key: &KeyPress) -> (out: KeyOutcome)
        ensures
            final(self)@ == old(self)@.after_shortcut(*key).0,
            out == old(self)@.after_shortcut(*key).1,
    {
        if key.name == KeyName::Z && key.ctrl && !key.shift {
            self.undo();
            KeyOutcome { handled: true, redraw: true, draw_mode_toggled: false }
        } else if key.name == KeyName::C && key.ctrl && key.shift {
            self.clear();
            KeyOutcome { handled: true, redraw: true, draw_mode_toggled: false }
        } else if key.name == KeyName::Escape {
            self.clear();
            KeyOutcome { handled: true, redraw: true, draw_mode_toggled: false }
        } else if key.name == KeyName::D && key.ctrl && !key.shift {
            self.draw_mode = !self.draw_mode;
            KeyOutcome { handled: true, redraw: true, draw_mode_toggled: true }
        } else {
            KeyOutcome { handled: false, redraw: false, draw_mode_toggled: false }
        }
    }

    /// A key press reaching the overlay. Returns whether it was consumed,
    /// whether the overlay repaints and whether draw mode changed.
    pub fn key_pressed(&mut self, key: &KeyPress) -> (out: KeyOutcome)
        ensures
            final(self)@ == old(self)@.after_key(*key).0,
            out == old(self)@.after_key(*key).1,
    {
        if self.draw_mode && self.active_tool == Tool::Text {
            let current = self.current_stroke.take();
            match current {
                Some(Stroke::Text { position, mut content, color, size }) => {
                    if key.name == KeyName::Return || key.name == KeyName::KpEnter {
                        let s = Stroke::Text { position, content, color, size };
                        proof {
                            lemma_strokes_view_push(self.strokes@, s);
                        }
                        self.strokes.push(s);
                        return KeyOutcome { handled: true, redraw: true, draw_mode_toggled: false };
                    }
                    if key.name == KeyName::BackSpace {
                        let _ = pop_char(&mut content);
                        self.current_stroke = Some(Stroke::Text { position, content, color, size });
                        return KeyOutcome { handled: true, redraw: true, draw_mode_toggled: false };
                    }
                    match key.unicode {
                        Some(ch) => {
                            if !is_control(ch) {
                                push_char(&mut content, ch);
                                self.current_stroke = Some(
                                    Stroke::Text { position, content, color, size },
                                );
                                return KeyOutcome {
                                    handled: true,
                                    redraw: true,
                                    draw_mode_toggled: false,
                                };
                            }
                        },
                        None => {},
                    }
                    self.current_stroke = Some(Stroke::Text { position, content, color, size });
                },
                other => {
                    self.current_stroke = other;
                },
            }
        }
        self.shortcut(key)
    }
}

} // verus!
