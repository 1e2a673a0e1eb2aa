//! Drawing a point.
use crate::geometry::Coord;
use crate::magic_value::{double_follows, MagicValue, PropValue, PropView};
use crate::paint::{clone_brush, solid_brush, solid_of};
use crate::scene::{op_settles, DrawOp, DrawOpView};
use vstd::prelude::*;

verus! {

/// The bit pattern of 0.1, the radius and the stroke width of a style that
/// names none.
pub const ONE_TENTH: u64 = 0x3fb9_9999_9999_999a;

/// How a point is drawn: a filled circle of a radius in a brush.
#[derive(Debug, PartialEq)]
pub struct PointRenderer {
    pub radius: MagicValue<PropValue>,
    pub brush: MagicValue<peniko::Brush>,
    pub must_show: MagicValue<PropValue>,
}

/// The circle that a point renderer draws round a position.
pub open spec fn circle_of(renderer: PointRenderer, point: Coord) -> DrawOpView {
    DrawOpView::FillCircle {
        center: point,
        radius: renderer.radius.inner@,
        brush: renderer.brush.inner,
    }
}

impl Default for PointRenderer {
    /// A radius of 0.1 in light yellow.
    fn default() -> (r: Self)
        ensures
            r.radius.inner@ == PropView::Float64(ONE_TENTH),
            r.brush.inner == solid_of(255, 255, 224),
            r.must_show.inner@ == PropView::Boolean(false),
            r.radius.kind@ is Fixed,
            r.brush.kind@ is Fixed,
            r.must_show.kind@ is Fixed,
    {
        PointRenderer {
            radius: MagicValue::new(PropValue::Float64(ONE_TENTH)),
            brush: MagicValue::new(solid_brush(255, 255, 224)),
            must_show: MagicValue::new(PropValue::Boolean(false)),
        }
    }
}

impl PointRenderer {
    /// The circle round a position as the style gives it, with the radius
    /// as it stands: it may still have to be settled as a number.
    pub fn circle(&self, point: &Coord) -> (op: DrawOp)
        ensures
            op@ == circle_of(*self, *point),
    {
        DrawOp::FillCircle {
            center: *point,
            radius: self.radius.inner.clone(),
            brush: clone_brush(&self.brush.inner),
        }
    }

    /// The circle round a position, in the brush of the style and with its
    /// radius as a double. It fails where the radius is no number, with the
    /// failure of the radius: the missing value is none, a double is
    /// itself, true and false are one and zero, and every other scalar is
    /// asked of `number`.
    pub fn draw<N: Fn(&PropValue) -> Result<u64, String>>(&self, point: &Coord, number: &N) -> (r:
        Result<DrawOp, String>)
        requires
            forall|value: &PropValue| number.requires((value,)),
        ensures
            match r {
                Ok(op) => op@ matches DrawOpView::FillCircle { center, radius, brush } && center
                    == *point && brush == self.brush.inner && (radius matches PropView::Float64(
                    bits,
                ) && double_follows(self.radius.inner@, *number, Ok(bits))),
                Err(message) => double_follows(self.radius.inner@, *number, Err(message)),
            },
            r matches Ok(op) ==> op_settles(circle_of(*self, *point), *number, op@),
    {
        match self.radius.inner.try_into_f64(number) {
            Err(message) => Err(message),
            Ok(bits) => Ok(
                DrawOp::FillCircle {
                    center: *point,
                    radius: PropValue::Float64(bits),
                    brush: clone_brush(&self.brush.inner),
                },
            ),
        }
    }
}

} // verus!
