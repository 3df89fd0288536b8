use vstd::prelude::*;

use crate::state::{AppModel, AppState};

verus! {

/// A rectangle in screen coordinates: x, y, width, height.
pub type RectInt = (i32, i32, i32, i32);

/// Side of the square that stands for "the whole screen" in the overlay's
/// input region (the largest X11 coordinate).
pub const SCREEN_EXTENT: i32 = 32767;

/// Where the overlay takes pointer input.
#[derive(Debug, PartialEq, Eq)]
pub enum InputRegion {
    /// Nowhere: every click falls through to the windows below.
    Empty,
    /// All of `full` except `hole` (the toolbar, which must stay clickable).
    Covering { full: RectInt, hole: Option<RectInt> },
}

/// The region that `input_region` yields.
pub open spec fn spec_input_region(pass_through: bool, toolbar_rect: Option<RectInt>) -> InputRegion {
    if pass_through {
        InputRegion::Empty
    } else {
        InputRegion::Covering { full: (0, 0, SCREEN_EXTENT, SCREEN_EXTENT), hole: toolbar_rect }
    }
}

/// The overlay's input region: empty when clicks pass through, otherwise the
/// whole screen minus the toolbar rectangle (when one is given).
pub fn input_region(pass_through: bool, toolbar_rect: Option<RectInt>) -> (r: InputRegion)
    ensures
        r == spec_input_region(pass_through, toolbar_rect),
{
    if pass_through {
        InputRegion::Empty
    } else {
        InputRegion::Covering { full: (0, 0, SCREEN_EXTENT, SCREEN_EXTENT), hole: toolbar_rect }
    }
}

/// The input region that follows a change of draw mode: with draw mode off
/// every click passes through; with it on the overlay takes the whole
/// screen except the toolbar (whose rectangle is only used then).
pub fn draw_mode_input_region(draw_mode: bool, toolbar_rect: Option<RectInt>) -> (r: InputRegion)
    ensures
        !draw_mode ==> r == InputRegion::Empty,
        draw_mode ==> r == (InputRegion::Covering {
            full: (0, 0, SCREEN_EXTENT, SCREEN_EXTENT),
            hole: toolbar_rect,
        }),
{
    let hole = if draw_mode {
        toolbar_rect
    } else {
        None
    };
    input_region(!draw_mode, hole)
}

/// One thing the overlay paints, bottom to top.
#[derive(Debug, Clone, Copy, PartialEq, Eq, Structural)]
pub enum Layer {
    /// The finished stroke at this index.
    Finished(usize),
    /// The stroke being drawn or the text being typed.
    InProgress,
    /// The laser trail.
    Laser,
}

/// The paint order of the overlay: the finished strokes oldest first, then
/// the stroke in progress (if any), then the laser trail (if it has points).
pub open spec fn spec_layers(m: AppModel) -> Seq<Layer> {
    Seq::new(m.strokes.len(), |i: int| Layer::Finished(i as usize)) + (if m.current_stroke is Some {
        seq![Layer::InProgress]
    } else {
        Seq::empty()
    }) + (if m.laser_points.len() > 0 {
        seq![Layer::Laser]
    } else {
        Seq::empty()
    })
}

impl AppState {
    /// What the overlay paints, in order from bottom to top.
    pub fn layers(&self) -> (layers: Vec<Layer>)
        ensures
            layers@ == spec_layers(self@),
    {
        let mut layers: Vec<Layer> = Vec::new();
        let n = self.strokes.len();
        let mut i: usize = 0;
        while i < n
            invariant
                n == self.strokes@.len(),
                0 <= i <= n,
                layers@ == Seq::new(i as nat, |j: int| Layer::Finished(j as usize)),
            decreases n - i,
        {
            layers.push(Layer::Finished(i));
            assert(layers@ =~= Seq::new((i + 1) as nat, |j: int| Layer::Finished(j as usize)));
            i += 1;
        }
        if self.current_stroke.is_some() {
            layers.push(Layer::InProgress);
        }
        if self.laser_points.len() > 0 {
            layers.push(Layer::Laser);
        }
        assert(layers@ =~= spec_layers(self@));
        layers
    }
}

} // verus!
