//! The drawing operations that rendering gives, in the order in which they
//! are to be painted.
use crate::geometry::{Coord, LineString};
use crate::magic_value::{double_follows, PropValue, PropView};
use crate::paint::{clone_brush, Stroke, StrokeView};
use crate::renderer::area_renderer::LineKind;
use vstd::prelude::*;

verus! {

/// One element of a path.
#[derive(Clone, Copy, Debug, PartialEq, Eq, Structural)]
pub enum PathEl {
    MoveTo(Coord),
    LineTo(Coord),
    ClosePath,
}

/// The mathematical content of a [`DrawOp`].
pub ghost enum DrawOpView {
    FillCircle { center: Coord, radius: PropView, brush: peniko::Brush },
    StrokePath { path: Seq<PathEl>, stroke: StrokeView, brush: peniko::Brush },
    FillPath { path: Seq<PathEl>, brush: peniko::Brush },
    Nested { kind: LineKind, index: nat, ring: Seq<Coord> },
}

/// One drawing operation.
#[derive(Debug, PartialEq)]
pub enum DrawOp {
    /// A filled circle round a position, with the radius as the style gives
    /// it.
    FillCircle { center: Coord, radius: PropValue, brush: peniko::Brush },
    /// A stroked path.
    StrokePath { path: Vec<PathEl>, stroke: Stroke, brush: peniko::Brush },
    /// A path filled by the non-zero rule.
    FillPath { path: Vec<PathEl>, brush: peniko::Brush },
    /// What the ring renderer at `index` under `kind` draws for `ring`. It
    /// stands for operations that need the centroid or the hull of the ring,
    /// and so cannot be listed before those are known.
    Nested { kind: LineKind, index: usize, ring: LineString },
}

impl View for DrawOp {
    type V = DrawOpView;

    open spec fn view(&self) -> DrawOpView {
        match self {
            DrawOp::FillCircle { center, radius, brush } => DrawOpView::FillCircle {
                center: *center,
                radius: radius@,
                brush: *brush,
            },
            DrawOp::StrokePath { path, stroke, brush } => DrawOpView::StrokePath {
                path: path@,
                stroke: stroke@,
                brush: *brush,
            },
            DrawOp::FillPath { path, brush } => DrawOpView::FillPath { path: path@, brush: *brush },
            DrawOp::Nested { kind, index, ring } => DrawOpView::Nested {
                kind: *kind,
                index: *index as nat,
                ring: ring@,
            },
        }
    }
}

/// The views of a sequence of operations.
pub open spec fn op_views(ops: Seq<DrawOp>) -> Seq<DrawOpView> {
    Seq::new(ops.len(), |i: int| ops[i]@)
}

/// Pushing an operation pushes its view.
pub proof fn lemma_op_views_push(ops: Seq<DrawOp>, op: DrawOp)
    ensures
        op_views(ops.push(op)) == op_views(ops).push(op@),
{
    assert(op_views(ops.push(op)) =~= op_views(ops).push(op@));
}

/// Appending operations appends their views.
pub proof fn lemma_op_views_add(a: Seq<DrawOp>, b: Seq<DrawOp>)
    ensures
        op_views(a + b) == op_views(a) + op_views(b),
{
    assert(op_views(a + b) =~= op_views(a) + op_views(b));
}

/// The path along a chain: a move to its first position, a line to each
/// further one, and a closing element. An empty chain gives an empty path.
pub open spec fn path_of(s: Seq<Coord>) -> Seq<PathEl> {
    if s.len() == 0 {
        Seq::empty()
    } else {
        lines_to(s, s.len()).push(PathEl::ClosePath)
    }
}

/// The path along the first `n` positions of a chain, not closed.
pub open spec fn lines_to(s: Seq<Coord>, n: nat) -> Seq<PathEl>
    decreases n,
{
    if n == 0 || n > s.len() {
        Seq::empty()
    } else if n == 1 {
        seq![PathEl::MoveTo(s[0])]
    } else {
        lines_to(s, (n - 1) as nat).push(PathEl::LineTo(s[n - 1]))
    }
}

/// The paths along the first `n` chains, one after the other.
pub open spec fn paths_upto(rings: Seq<Seq<Coord>>, n: nat) -> Seq<PathEl>
    decreases n,
{
    if n == 0 || n > rings.len() {
        Seq::empty()
    } else {
        paths_upto(rings, (n - 1) as nat) + path_of(rings[n - 1])
    }
}

/// Appends the path along a chain.
pub fn push_path(path: &mut Vec<PathEl>, line: &LineString)
    ensures
        final(path)@ == old(path)@ + path_of(line@),
{
    let n: usize = line.0.len();
    if n == 0 {
        assert(path@ =~= old(path)@ + path_of(line@));
        return ;
    }
    let ghost before = path@;
    let mut i: usize = 0;
    while i < n
        invariant
            i <= n,
            n == line@.len(),
            path@ == before + lines_to(line@, i as nat),
        decreases n - i,
    {
        if i == 0 {
            path.push(PathEl::MoveTo(line.0[0]));
        } else {
            path.push(PathEl::LineTo(line.0[i]));
        }
        assert(path@ =~= before + lines_to(line@, (i + 1) as nat));
        i += 1;
    }
    path.push(PathEl::ClosePath);
    assert(path@ =~= before + path_of(line@));
}

impl Clone for DrawOp {
    fn clone(&self) -> (r: Self)
        ensures
            r@ == self@,
    {
        match self {
            DrawOp::FillCircle { center, radius, brush } => DrawOp::FillCircle {
                center: *center,
                radius: radius.clone(),
                brush: clone_brush(brush),
            },
            DrawOp::StrokePath { path, stroke, brush } => DrawOp::StrokePath {
                path: path.clone(),
                stroke: stroke.clone(),
                brush: clone_brush(brush),
            },
            DrawOp::FillPath { path, brush } => DrawOp::FillPath {
                path: path.clone(),
                brush: clone_brush(brush),
            },
            DrawOp::Nested { kind, index, ring } => DrawOp::Nested {
                kind: *kind,
                index: *index,
                ring: ring.clone(),
            },
        }
    }
}

/// Whether an operation is ready to be painted: it is no nested one, and
/// the radius of a circle is a double.
pub open spec fn settled_op(op: DrawOpView) -> bool {
    match op {
        DrawOpView::Nested { .. } => false,
        DrawOpView::FillCircle { radius, .. } => radius is Float64,
        _ => true,
    }
}

/// Whether `after` is the operation `before` with its radius settled: a
/// circle of the same centre and brush whose radius is the double that the
/// radius before stands for, as `number` gives it where it must be asked;
/// every other operation unchanged.
pub open spec fn op_settles<N: Fn(&PropValue) -> Result<u64, String>>(
    before: DrawOpView,
    number: N,
    after: DrawOpView,
) -> bool {
    match before {
        DrawOpView::FillCircle { center, radius, brush } => {
            &&& after matches DrawOpView::FillCircle { center: c, radius: r, brush: b }
            &&& c == center
            &&& b == brush
            &&& r matches PropView::Float64(bits)
            &&& double_follows(radius, number, Ok(bits))
        },
        _ => after == before,
    }
}

/// Settles the radius of every circle, in order, up to the first radius
/// that is no number.
pub fn settle_radii<N: Fn(&PropValue) -> Result<u64, String>>(ops: &Vec<DrawOp>, number: &N) -> (r:
    Result<Vec<DrawOp>, String>)
    requires
        forall|value: &PropValue| number.requires((value,)),
    ensures
        match r {
            Ok(settled) => {
                &&& settled@.len() == ops@.len()
                &&& forall|i: int|
                    0 <= i < ops@.len() ==> op_settles(ops@[i]@, *number, #[trigger] settled@[i]@)
            },
            Err(message) => exists|i: int|
                0 <= i < ops@.len() && (#[trigger] ops@[i]@ matches DrawOpView::FillCircle {
                    radius,
                    ..
                } && double_follows(radius, *number, Err(message))),
        },
{
    let mut settled: Vec<DrawOp> = Vec::new();
    let mut i: usize = 0;
    while i < ops.len()
        invariant
            i <= ops.len(),
            settled@.len() == i,
            forall|value: &PropValue| number.requires((value,)),
            forall|k: int| 0 <= k < i ==> op_settles(ops@[k]@, *number, #[trigger] settled@[k]@),
        decreases ops.len() - i,
    {
        match &ops[i] {
            DrawOp::FillCircle { center, radius, brush } => {
                match radius.try_into_f64(number) {
                    Err(message) => {
                        assert(ops@[i as int]@ matches DrawOpView::FillCircle { radius: held, .. }
                            && double_follows(held, *number, Err(message)));
                        return Err(message);
                    },
                    Ok(bits) => {
                        settled.push(
                            DrawOp::FillCircle {
                                center: *center,
                                radius: PropValue::Float64(bits),
                                brush: clone_brush(brush),
                            },
                        );
                    },
                }
            },
            other => {
                settled.push(other.clone());
            },
        }
        i += 1;
    }
    Ok(settled)
}

} // verus!
