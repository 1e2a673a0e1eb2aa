//! Filling a polygon and drawing its rings.
use crate::geometry::{polygon_views, Coord, LineString, Polygon, PolygonView};
use crate::magic_value::MagicValue;
use crate::paint::{clone_brush, solid_brush, solid_of};
use crate::renderer::geometry_renderer::GeometryRenderer;
use crate::renderer::line_renderer::line_ops;
use crate::scene::{
    lemma_op_views_add, lemma_op_views_push, op_views, path_of, paths_upto, push_path, DrawOp,
    DrawOpView, PathEl,
};
use vstd::prelude::*;

verus! {

/// The part that a ring plays in its polygon.
#[derive(Clone, Copy, Debug, PartialEq, Eq, Hash, Structural)]
pub enum LineKind {
    All,
    Exterior,
    Interior,
}

/// The renderers that draw the rings of a polygon, by the part that a ring
/// plays. A kind without renderers has an empty list.
#[derive(Debug, PartialEq)]
pub struct RingRenderers {
    pub all: Vec<MagicValue<GeometryRenderer>>,
    pub exterior: Vec<MagicValue<GeometryRenderer>>,
    pub interior: Vec<MagicValue<GeometryRenderer>>,
}

impl RingRenderers {
    /// No renderer for any kind.
    pub fn new() -> (r: RingRenderers)
        ensures
            r.all@.len() == 0,
            r.exterior@.len() == 0,
            r.interior@.len() == 0,
    {
        RingRenderers { all: Vec::new(), exterior: Vec::new(), interior: Vec::new() }
    }

    /// The renderers of a kind.
    pub open spec fn of(self, kind: LineKind) -> Vec<MagicValue<GeometryRenderer>> {
        match kind {
            LineKind::All => self.all,
            LineKind::Exterior => self.exterior,
            LineKind::Interior => self.interior,
        }
    }

    /// The renderers of a kind.
    pub fn get(&self, kind: LineKind) -> (r: &Vec<MagicValue<GeometryRenderer>>)
        ensures
            *r == self.of(kind),
    {
        match kind {
            LineKind::All => &self.all,
            LineKind::Exterior => &self.exterior,
            LineKind::Interior => &self.interior,
        }
    }
}

impl Default for RingRenderers {
    fn default() -> (r: Self)
        ensures
            r.all@.len() == 0,
            r.exterior@.len() == 0,
            r.interior@.len() == 0,
    {
        RingRenderers::new()
    }
}

/// How a polygon is drawn: filled in a brush, with renderers for its rings.
#[derive(Debug, PartialEq)]
pub struct AreaRenderer {
    pub brush: MagicValue<peniko::Brush>,
    pub line_renderers: MagicValue<RingRenderers>,
}

/// The path of a polygon: the path along its outer ring, then those along
/// its inner rings, in order.
pub open spec fn polygon_path(p: PolygonView) -> Seq<PathEl> {
    path_of(p.exterior) + paths_upto(p.interiors, p.interiors.len())
}

/// What one ring renderer draws for one ring. A line renderer draws the
/// ring as a chain. A point or area renderer needs the centroid or the hull
/// of the ring: its drawing is put off and stands in the list as one nested
/// operation.
pub open spec fn ring_ops(kind: LineKind, index: nat, child: GeometryRenderer, ring: Seq<Coord>) -> Seq<
    DrawOpView,
> {
    match child {
        GeometryRenderer::Line(_, renderer) => line_ops(renderer.inner, ring),
        _ => seq![DrawOpView::Nested { kind, index, ring }],
    }
}

/// What one ring renderer draws for the first `n` rings, ring by ring.
pub open spec fn rings_ops_upto(
    kind: LineKind,
    index: nat,
    child: GeometryRenderer,
    rings: Seq<Seq<Coord>>,
    n: nat,
) -> Seq<DrawOpView>
    decreases n,
{
    if n == 0 || n > rings.len() {
        Seq::empty()
    } else {
        rings_ops_upto(kind, index, child, rings, (n - 1) as nat) + ring_ops(
            kind,
            index,
            child,
            rings[n - 1],
        )
    }
}

/// What one ring renderer of a kind draws for a polygon: for the outer ring
/// unless the kind is that of inner rings, then for the inner rings in order
/// unless the kind is that of the outer ring.
pub open spec fn child_ops(kind: LineKind, index: nat, child: GeometryRenderer, p: PolygonView) -> Seq<
    DrawOpView,
> {
    (if kind != LineKind::Interior {
        ring_ops(kind, index, child, p.exterior)
    } else {
        Seq::empty()
    }) + (if kind != LineKind::Exterior {
        rings_ops_upto(kind, index, child, p.interiors, p.interiors.len())
    } else {
        Seq::empty()
    })
}

/// What the first `n` ring renderers of a kind draw for a polygon, renderer
/// by renderer.
pub open spec fn bucket_ops_upto(
    kind: LineKind,
    children: Seq<MagicValue<GeometryRenderer>>,
    p: PolygonView,
    n: nat,
) -> Seq<DrawOpView>
    decreases n,
{
    if n == 0 || n > children.len() {
        Seq::empty()
    } else {
        bucket_ops_upto(kind, children, p, (n - 1) as nat) + child_ops(
            kind,
            (n - 1) as nat,
            children[n - 1].inner,
            p,
        )
    }
}

/// What the ring renderers of a kind draw for a polygon.
pub open spec fn bucket_ops(kind: LineKind, rings: RingRenderers, p: PolygonView) -> Seq<
    DrawOpView,
> {
    bucket_ops_upto(kind, rings.of(kind)@, p, rings.of(kind)@.len())
}

/// What an area renderer draws for a polygon: the filled path of all its
/// rings first, then what the renderers for all rings draw, then those for
/// the outer ring, then those for the inner rings.
pub open spec fn area_ops(renderer: AreaRenderer, p: PolygonView) -> Seq<DrawOpView> {
    seq![DrawOpView::FillPath { path: polygon_path(p), brush: renderer.brush.inner }] + bucket_ops(
        LineKind::All,
        renderer.line_renderers.inner,
        p,
    ) + bucket_ops(LineKind::Exterior, renderer.line_renderers.inner, p) + bucket_ops(
        LineKind::Interior,
        renderer.line_renderers.inner,
        p,
    )
}

/// What an area renderer draws for the first `n` polygons, polygon by
/// polygon.
pub open spec fn areas_ops_upto(renderer: AreaRenderer, ps: Seq<PolygonView>, n: nat) -> Seq<
    DrawOpView,
>
    decreases n,
{
    if n == 0 || n > ps.len() {
        Seq::empty()
    } else {
        areas_ops_upto(renderer, ps, (n - 1) as nat) + area_ops(renderer, ps[n - 1])
    }
}

/// Appends what one ring renderer draws for one ring.
fn push_ring_ops(
    ops: &mut Vec<DrawOp>,
    kind: LineKind,
    index: usize,
    child: &GeometryRenderer,
    ring: &LineString,
)
    ensures
        op_views(final(ops)@) == op_views(old(ops)@) + ring_ops(kind, index as nat, *child, ring@),
{
    match child {
        GeometryRenderer::Line(_, renderer) => {
            let mut part: Vec<DrawOp> = renderer.inner.draw(ring);
            proof {
                lemma_op_views_add(ops@, part@);
            }
            ops.append(&mut part);
        },
        _ => {
            let op = DrawOp::Nested { kind, index, ring: ring.clone() };
            proof {
                lemma_op_views_push(ops@, op);
            }
            ops.push(op);
            assert(op_views(ops@) =~= op_views(old(ops)@) + ring_ops(
                kind,
                index as nat,
                *child,
                ring@,
            ));
        },
    }
}

/// Appends what the ring renderers of a kind draw for a polygon.
fn push_bucket_ops(ops: &mut Vec<DrawOp>, kind: LineKind, rings: &RingRenderers, polygon: &Polygon)
    ensures
        op_views(final(ops)@) == op_views(old(ops)@) + bucket_ops(kind, *rings, polygon@),
{
    let children = rings.get(kind);
    let ghost before = op_views(ops@);
    let mut j: usize = 0;
    assert(op_views(ops@) =~= before + bucket_ops_upto(kind, children@, polygon@, 0));
    while j < children.len()
        invariant
            j <= children.len(),
            op_views(ops@) == before + bucket_ops_upto(kind, children@, polygon@, j as nat),
        decreases children.len() - j,
    {
        let child = &children[j].inner;
        let ghost start = op_views(ops@);
        if kind != LineKind::Interior {
            push_ring_ops(ops, kind, j, child, &polygon.exterior);
        }
        let ghost mid = op_views(ops@);
        if kind != LineKind::Exterior {
            let mut k: usize = 0;
            assert(op_views(ops@) =~= mid + rings_ops_upto(
                kind,
                j as nat,
                *child,
                polygon@.interiors,
                0,
            ));
            while k < polygon.interiors.len()
                invariant
                    k <= polygon.interiors.len(),
                    op_views(ops@) == mid + rings_ops_upto(
                        kind,
                        j as nat,
                        *child,
                        polygon@.interiors,
                        k as nat,
                    ),
                decreases polygon.interiors.len() - k,
            {
                push_ring_ops(ops, kind, j, child, &polygon.interiors[k]);
                assert(polygon@.interiors[k as int] == polygon.interiors[k as int]@);
                assert(op_views(ops@) =~= mid + rings_ops_upto(
                    kind,
                    j as nat,
                    *child,
                    polygon@.interiors,
                    (k + 1) as nat,
                ));
                k += 1;
            }
        }
        assert(op_views(ops@) =~= start + child_ops(kind, j as nat, *child, polygon@));
        assert(op_views(ops@) =~= before + bucket_ops_upto(
            kind,
            children@,
            polygon@,
            (j + 1) as nat,
        ));
        j += 1;
    }
}

impl Default for AreaRenderer {
    /// A fill in sea green, with nothing for the rings.
    fn default() -> (r: Self)
        ensures
            r.brush.inner == solid_of(46, 139, 87),
            r.brush.kind@ is Fixed,
            r.line_renderers.kind@ is Fixed,
            r.line_renderers.inner.all@.len() == 0,
            r.line_renderers.inner.exterior@.len() == 0,
            r.line_renderers.inner.interior@.len() == 0,
    {
        AreaRenderer {
            brush: MagicValue::new(solid_brush(46, 139, 87)),
            line_renderers: MagicValue::new(RingRenderers::new()),
        }
    }
}

impl AreaRenderer {
    /// The path of a polygon: the closed path along its outer ring, then
    /// those along its inner rings, in order.
    pub fn to_shape(polygon: &Polygon) -> (path: Vec<PathEl>)
        ensures
            path@ == polygon_path(polygon@),
    {
        let mut path: Vec<PathEl> = Vec::new();
        push_path(&mut path, &polygon.exterior);
        let ghost first = path@;
        let mut i: usize = 0;
        assert(path@ =~= first + paths_upto(polygon@.interiors, 0));
        while i < polygon.interiors.len()
            invariant
                i <= polygon.interiors.len(),
                path@ == first + paths_upto(polygon@.interiors, i as nat),
            decreases polygon.interiors.len() - i,
        {
            push_path(&mut path, &polygon.interiors[i]);
            assert(polygon@.interiors[i as int] == polygon.interiors[i as int]@);
            assert(path@ =~= first + paths_upto(polygon@.interiors, (i + 1) as nat));
            i += 1;
        }
        assert(first =~= path_of(polygon@.exterior));
        path
    }

    /// What is drawn for a polygon: the fill first, then what the ring
    /// renderers draw, kind by kind.
    pub fn draw(&self, polygon: &Polygon) -> (ops: Vec<DrawOp>)
        ensures
            op_views(ops@) == area_ops(*self, polygon@),
    {
        let mut ops: Vec<DrawOp> = Vec::new();
        let fill = DrawOp::FillPath {
            path: AreaRenderer::to_shape(polygon),
            brush: clone_brush(&self.brush.inner),
        };
        let ghost first = seq![fill@];
        ops.push(fill);
        assert(op_views(ops@) =~= first);
        push_bucket_ops(&mut ops, LineKind::All, &self.line_renderers.inner, polygon);
        push_bucket_ops(&mut ops, LineKind::Exterior, &self.line_renderers.inner, polygon);
        push_bucket_ops(&mut ops, LineKind::Interior, &self.line_renderers.inner, polygon);
        ops
    }

    /// What is drawn for several polygons: what is drawn for each, in order.
    pub fn draw_multi(&self, polygons: &Vec<Polygon>) -> (ops: Vec<DrawOp>)
        ensures
            op_views(ops@) == areas_ops_upto(*self, polygon_views(polygons@), polygons@.len()),
    {
        let mut ops: Vec<DrawOp> = Vec::new();
        let mut i: usize = 0;
        assert(op_views(ops@) =~= areas_ops_upto(*self, polygon_views(polygons@), 0));
        while i < polygons.len()
            invariant
                i <= polygons.len(),
                op_views(ops@) == areas_ops_upto(*self, polygon_views(polygons@), i as nat),
            decreases polygons.len() - i,
        {
            let mut part: Vec<DrawOp> = self.draw(&polygons[i]);
            proof {
                lemma_op_views_add(ops@, part@);
            }
            ops.append(&mut part);
            i += 1;
        }
        ops
    }
}

} // verus!
