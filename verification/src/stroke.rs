use vstd::prelude::*;

use crate::state::{Color, PathTool, Point, Stroke, StrokeModel};

verus! {

/// Opacity (in thousandths) of highlighter strokes, whatever the colour's own alpha.
pub const HIGHLIGHTER_ALPHA: u16 = 500;

/// Line width, in pixels, of the laser trail.
pub const LASER_WIDTH: u32 = 4;

/// How a stroke is painted: the source colour and the line width (the font
/// size for text).
#[derive(Debug, Clone, Copy, PartialEq, Eq, Structural)]
pub struct Paint {
    pub color: Color,
    pub size: u32,
}

/// How `stroke` is painted, or `None` when it draws nothing: a path of fewer
/// than two points, or an ellipse with a radius below one pixel. Highlighter
/// paths are translucent.
pub open spec fn spec_paint(stroke: StrokeModel) -> Option<Paint> {
    match stroke {
        StrokeModel::Path { points, color, width, tool } => if points.len() < 2 {
            None
        } else if tool == PathTool::Highlighter {
            Some(Paint { color: Color { a: HIGHLIGHTER_ALPHA, ..color }, size: width })
        } else {
            Some(Paint { color, size: width })
        },
        StrokeModel::Line { color, width, .. } => Some(Paint { color, size: width }),
        StrokeModel::Rect { color, width, .. } => Some(Paint { color, size: width }),
        StrokeModel::Ellipse { radii, color, width, .. } => if radii.0 < 1 || radii.1 < 1 {
            None
        } else {
            Some(Paint { color, size: width })
        },
        StrokeModel::Text { color, size, .. } => Some(Paint { color, size }),
    }
}

/// How `stroke` is painted, or `None` when there is nothing to paint.
pub fn stroke_paint(stroke: &Stroke) -> (p: Option<Paint>)
    ensures
        p == spec_paint(stroke@),
{
    match stroke {
        Stroke::Path { points, color, width, tool } => {
            if points.len() < 2 {
                None
            } else if *tool == PathTool::Highlighter {
                Some(
                    Paint {
                        color: Color { r: color.r, g: color.g, b: color.b, a: HIGHLIGHTER_ALPHA },
                        size: *width,
                    },
                )
            } else {
                Some(Paint { color: *color, size: *width })
            }
        },
        Stroke::Line { color, width, .. } => Some(Paint { color: *color, size: *width }),
        Stroke::Rect { color, width, .. } => Some(Paint { color: *color, size: *width }),
        Stroke::Ellipse { radii, color, width, .. } => {
            if radii.0 < 1 || radii.1 < 1 {
                None
            } else {
                Some(Paint { color: *color, size: *width })
            }
        },
        Stroke::Text { color, size, .. } => Some(Paint { color: *color, size: *size }),
    }
}

/// How the laser trail is painted at opacity `alpha`: bright red, fixed
/// width; `None` while the trail has fewer than two points.
pub fn laser_paint(points: &Vec<Point>, alpha: u16) -> (p: Option<Paint>)
    ensures
        points@.len() < 2 ==> p is None,
        points@.len() >= 2 ==> p == Some(
            Paint { color: Color { r: 1000, g: 100, b: 100, a: alpha }, size: LASER_WIDTH },
        ),
{
    if points.len() < 2 {
        None
    } else {
        Some(Paint { color: Color { r: 1000, g: 100, b: 100, a: alpha }, size: LASER_WIDTH })
    }
}

} // verus!
