//! What a shape is painted with: the brush, which is peniko's and is only ever
//! handed on, and the stroke, held here as plain values.
use vstd::prelude::*;

verus! {

/// peniko's `Brush`: what a shape is painted with. Nothing is known of what
/// is inside.
#[verifier::external_type_specification]
#[verifier::external_body]
#[verifier::reject_recursive_types(I)]
#[verifier::reject_recursive_types(G)]
pub struct ExBrush<I, G>(peniko::Brush<I, G>);

/// peniko's `ImageBrush`, which its `Brush` holds for images.
#[verifier::external_type_specification]
#[verifier::external_body]
#[verifier::reject_recursive_types(D)]
pub struct ExImageBrush<D>(peniko::ImageBrush<D>);

/// peniko's `ImageData`, which its `ImageBrush` holds.
#[verifier::external_type_specification]
#[verifier::external_body]
pub struct ExImageData(peniko::ImageData);

/// peniko's `Gradient`, which its `Brush` holds for gradients.
#[verifier::external_type_specification]
#[verifier::external_body]
pub struct ExGradient(peniko::Gradient);

/// The brush that paints everything in one opaque colour of the given red,
/// green and blue.
pub uninterp spec fn solid_of(red: u8, green: u8, blue: u8) -> peniko::Brush;

/// peniko's `Brush::Solid` of the colour that `AlphaColor::from_rgb8` makes.
/// The result depends on the three numbers alone; which brush it is, is not
/// said here.
#[verifier::external_body]
pub(crate) fn solid_brush(red: u8, green: u8, blue: u8) -> (brush: peniko::Brush)
    ensures
        brush == solid_of(red, green, blue),
{
    peniko::Brush::Solid(peniko::color::AlphaColor::from_rgb8(red, green, blue))
}

/// `Clone::clone` of a `peniko::Brush`: the copy equals what was copied.
#[verifier::external_body]
pub(crate) fn clone_brush(brush: &peniko::Brush) -> (copy: peniko::Brush)
    ensures
        copy == *brush,
{
    brush.clone()
}

/// How two segments of a stroke are joined.
#[derive(Clone, Copy, Debug, PartialEq, Eq, Structural)]
pub enum Join {
    Bevel,
    Miter,
    Round,
}

/// How the end of a stroke is capped.
#[derive(Clone, Copy, Debug, PartialEq, Eq, Structural)]
pub enum Cap {
    Butt,
    Square,
    Round,
}

/// The mathematical content of a [`Stroke`].
pub ghost struct StrokeView {
    pub width: u64,
    pub join: Join,
    pub miter_limit: u64,
    pub start_cap: Cap,
    pub end_cap: Cap,
    pub dash_pattern: Seq<u64>,
    pub dash_offset: u64,
}

/// The style of a stroke. Every length is the bit pattern of a double.
#[derive(Debug, PartialEq, Eq)]
pub struct Stroke {
    pub width: u64,
    pub join: Join,
    pub miter_limit: u64,
    pub start_cap: Cap,
    pub end_cap: Cap,
    pub dash_pattern: Vec<u64>,
    pub dash_offset: u64,
}

/// The bit pattern of 4.0, the customary limit of a miter join.
pub const MITER_LIMIT: u64 = 0x4010_0000_0000_0000;

impl View for Stroke {
    type V = StrokeView;

    open spec fn view(&self) -> StrokeView {
        StrokeView {
            width: self.width,
            join: self.join,
            miter_limit: self.miter_limit,
            start_cap: self.start_cap,
            end_cap: self.end_cap,
            dash_pattern: self.dash_pattern@,
            dash_offset: self.dash_offset,
        }
    }
}

impl Clone for Stroke {
    fn clone(&self) -> (r: Self)
        ensures
            r@ == self@,
    {
        Stroke {
            width: self.width,
            join: self.join,
            miter_limit: self.miter_limit,
            start_cap: self.start_cap,
            end_cap: self.end_cap,
            dash_pattern: self.dash_pattern.clone(),
            dash_offset: self.dash_offset,
        }
    }
}

impl Stroke {
    /// A solid stroke of the given width with round joins and caps.
    pub fn new(width: u64) -> (r: Stroke)
        ensures
            r@ == (StrokeView {
                width,
                join: Join::Round,
                miter_limit: MITER_LIMIT,
                start_cap: Cap::Round,
                end_cap: Cap::Round,
                dash_pattern: Seq::empty(),
                dash_offset: 0,
            }),
    {
        Stroke {
            width,
            join: Join::Round,
            miter_limit: MITER_LIMIT,
            start_cap: Cap::Round,
            end_cap: Cap::Round,
            dash_pattern: Vec::new(),
            dash_offset: 0,
        }
    }
}

} // verus!
