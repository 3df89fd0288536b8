use vstd::prelude::*;

verus! {

/// A point on the screen, in logical pixels (the X11 coordinate range).
pub type Point = (i16, i16);

/// Full intensity of a colour channel; channels count thousandths of it.
pub const CHANNEL_MAX: u16 = 1000;

/// A colour with straight alpha, each channel in thousandths (0 ..= 1000).
#[derive(Debug, Clone, Copy, PartialEq, Eq, Structural)]
pub struct Color {
    pub r: u16,
    pub g: u16,
    pub b: u16,
    pub a: u16,
}

impl Color {
    pub fn new(r: u16, g: u16, b: u16, a: u16) -> (c: Color)
        ensures
            c == (Color { r, g, b, a }),
    {
        Color { r, g, b, a }
    }

    pub fn red() -> (c: Color)
        ensures
            c == (Color { r: 900, g: 100, b: 100, a: 1000 }),
    {
        Self::new(900, 100, 100, 1000)
    }

    pub fn green() -> (c: Color)
        ensures
            c == (Color { r: 100, g: 800, b: 100, a: 1000 }),
    {
        Self::new(100, 800, 100, 1000)
    }

    pub fn blue() -> (c: Color)
        ensures
            c == (Color { r: 100, g: 400, b: 900, a: 1000 }),
    {
        Self::new(100, 400, 900, 1000)
    }

    pub fn yellow() -> (c: Color)
        ensures
            c == (Color { r: 1000, g: 900, b: 0, a: 1000 }),
    {
        Self::new(1000, 900, 0, 1000)
    }

    pub fn white() -> (c: Color)
        ensures
            c == (Color { r: 1000, g: 1000, b: 1000, a: 1000 }),
    {
        Self::new(1000, 1000, 1000, 1000)
    }

    pub fn black() -> (c: Color)
        ensures
            c == (Color { r: 0, g: 0, b: 0, a: 1000 }),
    {
        Self::new(0, 0, 0, 1000)
    }
}

/// The red that a new drawing session starts with.
pub open spec fn default_color() -> Color {
    Color { r: 900, g: 100, b: 100, a: 1000 }
}

/// Which kind of freehand path a stroke is.
#[derive(Debug, Clone, Copy, PartialEq, Eq, Structural)]
pub enum PathTool {
    Pen,
    Highlighter,
}

/// The tools of the toolbar.
#[derive(Debug, Clone, Copy, PartialEq, Eq, Structural)]
pub enum Tool {
    Pen,
    Highlighter,
    Line,
    Rectangle,
    Ellipse,
    Text,
    Laser,
    Eraser,
}

/// The three selectable line widths.
#[derive(Debug, Clone, Copy, PartialEq, Eq, Structural)]
pub enum StrokeWidth {
    Thin,
    Medium,
    Thick,
}

impl StrokeWidth {
    /// Line width in pixels that this setting stands for.
    pub open spec fn spec_pixels(self) -> u32 {
        match self {
            StrokeWidth::Thin => 2,
            StrokeWidth::Medium => 5,
            StrokeWidth::Thick => 12,
        }
    }

    pub fn pixels(&self) -> (px: u32)
        ensures
            px == self.spec_pixels(),
    {
        match self {
            StrokeWidth::Thin => 2,
            StrokeWidth::Medium => 5,
            StrokeWidth::Thick => 12,
        }
    }
}

/// One finished or in-progress annotation.
#[derive(Debug)]
#[allow(inconsistent_fields)]
pub enum Stroke {
    Path { points: Vec<Point>, color: Color, width: u32, tool: PathTool },
    Line { start: Point, end: Point, color: Color, width: u32 },
    Rect { origin: Point, size: (i32, i32), color: Color, width: u32 },
    Ellipse { center: Point, radii: (i32, i32), color: Color, width: u32 },
    Text { position: Point, content: String, color: Color, size: u32 },
}

/// The mathematical content of a [`Stroke`].
#[verifier::ext_equal]
#[allow(inconsistent_fields)]
pub enum StrokeModel {
    Path { points: Seq<Point>, color: Color, width: u32, tool: PathTool },
    Line { start: Point, end: Point, color: Color, width: u32 },
    Rect { origin: Point, size: (i32, i32), color: Color, width: u32 },
    Ellipse { center: Point, radii: (i32, i32), color: Color, width: u32 },
    Text { position: Point, content: Seq<char>, color: Color, size: u32 },
}

impl View for Stroke {
    type V = StrokeModel;

    open spec fn view(&self) -> StrokeModel {
        match self {
            Stroke::Path { points, color, width, tool } => StrokeModel::Path {
                points: points@,
                color: *color,
                width: *width,
                tool: *tool,
            },
            Stroke::Line { start, end, color, width } => StrokeModel::Line {
                start: *start,
                end: *end,
                color: *color,
                width: *width,
            },
            Stroke::Rect { origin, size, color, width } => StrokeModel::Rect {
                origin: *origin,
                size: *size,
                color: *color,
                width: *width,
            },
            Stroke::Ellipse { center, radii, color, width } => StrokeModel::Ellipse {
                center: *center,
                radii: *radii,
                color: *color,
                width: *width,
            },
            Stroke::Text { position, content, color, size } => StrokeModel::Text {
                position: *position,
                content: content@,
                color: *color,
                size: *size,
            },
        }
    }
}

/// The views of a sequence of strokes, in order.
pub open spec fn strokes_view(strokes: Seq<Stroke>) -> Seq<StrokeModel> {
    strokes.map_values(|s: Stroke| s@)
}

/// The view of an optional stroke.
pub open spec fn stroke_option_view(stroke: Option<Stroke>) -> Option<StrokeModel> {
    match stroke {
        Some(s) => Some(s@),
        None => None,
    }
}

/// Everything the overlay shows and the settings that shape the next stroke.
pub struct AppState {
    pub strokes: Vec<Stroke>,
    pub active_tool: Tool,
    pub active_color: Color,
    pub stroke_width: StrokeWidth,
    pub draw_mode: bool,
    pub toolbar_visible: bool,
    /// The stroke being drawn while the pointer is held down (or text being typed).
    pub current_stroke: Option<Stroke>,
    /// Laser pointer trail; shown while dragging, never stored as a stroke.
    pub laser_points: Vec<Point>,
}

/// The mathematical content of an [`AppState`].
#[verifier::ext_equal]
pub struct AppModel {
    pub strokes: Seq<StrokeModel>,
    pub active_tool: Tool,
    pub active_color: Color,
    pub stroke_width: StrokeWidth,
    pub draw_mode: bool,
    pub toolbar_visible: bool,
    pub current_stroke: Option<StrokeModel>,
    pub laser_points: Seq<Point>,
}

impl View for AppState {
    type V = AppModel;

    open spec fn view(&self) -> AppModel {
        AppModel {
            strokes: strokes_view(self.strokes@),
            active_tool: self.active_tool,
            active_color: self.active_color,
            stroke_width: self.stroke_width,
            draw_mode: self.draw_mode,
            toolbar_visible: self.toolbar_visible,
            current_stroke: stroke_option_view(self.current_stroke),
            laser_points: self.laser_points@,
        }
    }
}

impl AppModel {
    /// The state a session starts in: nothing drawn, pen, red, medium width,
    /// draw mode off, toolbar shown.
    pub open spec fn initial() -> AppModel {
        AppModel {
            strokes: Seq::empty(),
            active_tool: Tool::Pen,
            active_color: default_color(),
            stroke_width: StrokeWidth::Medium,
            draw_mode: false,
            toolbar_visible: true,
            current_stroke: None,
            laser_points: Seq::empty(),
        }
    }

    /// The state after undo: the last finished stroke is gone, if there was one.
    pub open spec fn undone(self) -> AppModel {
        AppModel {
            strokes: if self.strokes.len() > 0 {
                self.strokes.drop_last()
            } else {
                self.strokes
            },
            ..self
        }
    }

    /// The state after clear: no strokes, no stroke in progress, no laser
    /// trail; tool, colour, width and modes untouched.
    pub open spec fn cleared(self) -> AppModel {
        AppModel { strokes: Seq::empty(), current_stroke: None, laser_points: Seq::empty(), ..self }
    }
}

pub proof fn lemma_strokes_view_push(strokes: Seq<Stroke>, s: Stroke)
    ensures
        strokes_view(strokes.push(s)) == strokes_view(strokes).push(s@),
{
    assert(strokes_view(strokes.push(s)) =~= strokes_view(strokes).push(s@));
}

pub proof fn lemma_strokes_view_drop_last(strokes: Seq<Stroke>)
    requires
        strokes.len() > 0,
    ensures
        strokes_view(strokes.drop_last()) == strokes_view(strokes).drop_last(),
{
    assert(strokes_view(strokes.drop_last()) =~= strokes_view(strokes).drop_last());
}

impl AppState {
    pub fn new() -> (st: AppState)
        ensures
            st@ == AppModel::initial(),
    {
        let st = AppState {
            strokes: Vec::new(),
            active_tool: Tool::Pen,
            active_color: Color::red(),
            stroke_width: StrokeWidth::Medium,
            draw_mode: false,
            toolbar_visible: true,
            current_stroke: None,
            laser_points: Vec::new(),
        };
        assert(strokes_view(st.strokes@) =~= Seq::<StrokeModel>::empty());
        st
    }

    /// Removes the last finished stroke; does nothing when there is none.
    pub fn undo(&mut self)
        ensures
            final(self)@ == old(self)@.undone(),
    {
        proof {
            if self.strokes@.len() > 0 {
                lemma_strokes_view_drop_last(self.strokes@);
            }
        }
        let _ = self.strokes.pop();
    }

    /// Clears all drawn content (strokes, in-progress stroke, laser trail).
    /// Tool, color, width, and mode settings are preserved.
    pub fn clear(&mut self)
        ensures
            final(self)@ == old(self)@.cleared(),
    {
        self.strokes.clear();
        self.current_stroke = None;
        self.laser_points.clear();
        assert(strokes_view(self.strokes@) =~= Seq::<StrokeModel>::empty());
    }
}

impl Default for AppState {
    fn default() -> (st: AppState)
        ensures
            st@ == AppModel::initial(),
    {
        AppState::new()
    }
}

} // verus!
