//! Choosing the native call for a shape: circles, rectangles and rounded
//! rectangles go to the surface's own primitives, any other shape becomes a
//! geometry built from its path. Filling and stroking share this choice and
//! differ only in the final call.

use crate::path::{tessellate, tessellation, PathEl, Point, SinkOp, TessError};
use vstd::prelude::*;

verus! {

/// An axis-aligned rectangle by its top-left corner and size.
#[derive(Clone, Copy, Debug, PartialEq)]
pub struct Rect<S> {
    pub x: S,
    pub y: S,
    pub width: S,
    pub height: S,
}

/// A rectangle with rounded corners.
#[derive(Clone, Copy, Debug, PartialEq)]
pub struct RoundedRect<S> {
    pub rect: Rect<S>,
    pub radius_x: S,
    pub radius_y: S,
}

/// An ellipse by its centre and radii.
#[derive(Clone, Copy, Debug, PartialEq)]
pub struct Ellipse<S> {
    pub x: S,
    pub y: S,
    pub radius_x: S,
    pub radius_y: S,
}

/// A shape as the caller recognised it: one of the primitives, or a path
/// flattened from it.
#[derive(Debug)]
pub enum Shape<S> {
    Circle { center: Point<S>, radius: S },
    Rect(Rect<S>),
    RoundedRect { rect: Rect<S>, radius: S },
    Path(Vec<PathEl<S>>),
}

/// Whether a shape is filled or stroked, and the stroke's width.
#[derive(Clone, Copy, Debug, PartialEq)]
pub enum DrawMode<S> {
    Fill,
    Stroke { width: S },
}

/// The native call that draws a shape.
#[derive(Debug, PartialEq)]
pub enum DrawOp<S> {
    FillEllipse(Ellipse<S>),
    FillRectangle(Rect<S>),
    FillRoundedRectangle(RoundedRect<S>),
    DrawRoundedRectangle(RoundedRect<S>, S),
    /// Fill the geometry that these sink calls build.
    FillGeometry(Vec<SinkOp<S>>),
    /// Stroke, with the given width, the geometry that these sink calls build.
    DrawGeometry(Vec<SinkOp<S>>, S),
}

/// A request that this backend does not carry out.
#[derive(Clone, Copy, Debug, PartialEq, Eq, Structural)]
pub enum Unsupported {
    StrokeCircle,
    StrokeRect,
    StrokeStyle,
    Clip,
    Transform,
}

/// Why a shape cannot be drawn.
#[derive(Clone, Copy, Debug, PartialEq, Eq, Structural)]
pub enum DrawError {
    Tessellation(TessError),
    Unsupported(Unsupported),
}

/// The geometry call for the sink calls `ops` in the given mode.
pub open spec fn geometry_op<S>(mode: DrawMode<S>, ops: Seq<SinkOp<S>>, op: DrawOp<S>) -> bool {
    match mode {
        DrawMode::Fill => op matches DrawOp::FillGeometry(v) && v@ == ops,
        DrawMode::Stroke { width } => op matches DrawOp::DrawGeometry(v, w) && v@ == ops && w
            == width,
    }
}

/// Picks the native call that fills or strokes `shape`.
pub fn plan<S: Copy>(shape: &Shape<S>, mode: DrawMode<S>) -> (r: Result<DrawOp<S>, DrawError>)
    ensures
        match *shape {
            Shape::Circle { center, radius } => match mode {
                DrawMode::Fill => r == Ok::<DrawOp<S>, DrawError>(
                    DrawOp::FillEllipse(
                        (Ellipse { x: center.x, y: center.y, radius_x: radius, radius_y: radius }),
                    ),
                ),
                DrawMode::Stroke { .. } => r == Err::<DrawOp<S>, DrawError>(
                    DrawError::Unsupported(Unsupported::StrokeCircle),
                ),
            },
            Shape::Rect(rect) => match mode {
                DrawMode::Fill => r == Ok::<DrawOp<S>, DrawError>(DrawOp::FillRectangle(rect)),
                DrawMode::Stroke { .. } => r == Err::<DrawOp<S>, DrawError>(
                    DrawError::Unsupported(Unsupported::StrokeRect),
                ),
            },
            Shape::RoundedRect { rect, radius } => {
                let rounded = (RoundedRect { rect, radius_x: radius, radius_y: radius });
                match mode {
                    DrawMode::Fill => r == Ok::<DrawOp<S>, DrawError>(
                        DrawOp::FillRoundedRectangle(rounded),
                    ),
                    DrawMode::Stroke { width } => r == Ok::<DrawOp<S>, DrawError>(
                        DrawOp::DrawRoundedRectangle(rounded, width),
                    ),
                }
            },
            Shape::Path(els) => match tessellation(els@) {
                Ok(ops) => r matches Ok(op) && geometry_op(mode, ops, op),
                Err(e) => r == Err::<DrawOp<S>, DrawError>(DrawError::Tessellation(e)),
            },
        },
{
    match shape {
        Shape::Circle { center, radius } => match mode {
            DrawMode::Fill => Ok(
                DrawOp::FillEllipse(
                    Ellipse { x: center.x, y: center.y, radius_x: *radius, radius_y: *radius },
                ),
            ),
            DrawMode::Stroke { .. } => Err(DrawError::Unsupported(Unsupported::StrokeCircle)),
        },
        Shape::Rect(rect) => match mode {
            DrawMode::Fill => Ok(DrawOp::FillRectangle(*rect)),
            DrawMode::Stroke { .. } => Err(DrawError::Unsupported(Unsupported::StrokeRect)),
        },
        Shape::RoundedRect { rect, radius } => {
            let rounded = RoundedRect { rect: *rect, radius_x: *radius, radius_y: *radius };
            match mode {
                DrawMode::Fill => Ok(DrawOp::FillRoundedRectangle(rounded)),
                DrawMode::Stroke { width } => Ok(DrawOp::DrawRoundedRectangle(rounded, width)),
            }
        },
        Shape::Path(els) => match tessellate(els) {
            Ok(ops) => match mode {
                DrawMode::Fill => Ok(DrawOp::FillGeometry(ops)),
                DrawMode::Stroke { width } => Ok(DrawOp::DrawGeometry(ops, width)),
            },
            Err(e) => Err(DrawError::Tessellation(e)),
        },
    }
}

} // verus!
