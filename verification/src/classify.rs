//! What a geometry gives to draw: its line skeleton and the sources of its
//! areas, as functions of the geometry's mathematical content.
use crate::geometry::{
    closed_seq, rect_corners, rect_of, rect_polygon, triangle_corners, triangle_polygon, Coord,
    GeometryView, PolygonView,
};
use vstd::prelude::*;

verus! {

/// The rings of a polygon: the outer one, then the inner ones in order.
pub open spec fn rings_of(p: PolygonView) -> Seq<Seq<Coord>> {
    seq![p.exterior] + p.interiors
}

/// The rings of the first `n` polygons, polygon by polygon.
pub open spec fn rings_upto(ps: Seq<PolygonView>, n: nat) -> Seq<Seq<Coord>>
    decreases n,
{
    if n == 0 || n > ps.len() {
        Seq::empty()
    } else {
        rings_upto(ps, (n - 1) as nat) + rings_of(ps[n - 1])
    }
}

/// The line skeleton of a geometry.
///
/// A point has none. A segment is a chain of its two ends, a chain is itself,
/// a polygon gives its rings. The points of a multi-point are threaded into
/// one chain in their order. Collections give what their members give, in
/// order. A rectangle and a triangle give their closed boundary.
pub open spec fn lines_of(g: GeometryView) -> Seq<Seq<Coord>>
    decreases g, 0nat,
{
    match g {
        GeometryView::Point(_) => Seq::empty(),
        GeometryView::Line(l) => seq![seq![l.start, l.end]],
        GeometryView::LineString(s) => seq![s],
        GeometryView::Polygon(p) => rings_of(p),
        GeometryView::MultiPoint(ps) => seq![ps],
        GeometryView::MultiLineString(ls) => ls,
        GeometryView::MultiPolygon(ps) => rings_upto(ps, ps.len()),
        GeometryView::GeometryCollection(gs) => lines_upto(gs, gs.len()),
        GeometryView::Rect(r) => seq![closed_seq(rect_corners(r))],
        GeometryView::Triangle(t) => seq![closed_seq(triangle_corners(t))],
    }
}

/// The line skeletons of the first `n` members, member by member.
pub open spec fn lines_upto(gs: Seq<GeometryView>, n: nat) -> Seq<Seq<Coord>>
    decreases gs, n,
{
    if n == 0 || n > gs.len() {
        Seq::empty()
    } else {
        lines_upto(gs, (n - 1) as nat) + lines_of(gs[n - 1])
    }
}

/// Where one area of a geometry comes from.
pub ghost enum AreaSource {
    /// The polygon as it stands.
    Exact(PolygonView),
    /// The convex hull of these positions, to be computed.
    Hull(Seq<Coord>),
}

/// The positions of the first `n` chains, chain after chain.
pub open spec fn coords_upto(ls: Seq<Seq<Coord>>, n: nat) -> Seq<Coord>
    decreases n,
{
    if n == 0 || n > ls.len() {
        Seq::empty()
    } else {
        coords_upto(ls, (n - 1) as nat) + ls[n - 1]
    }
}

/// One exact source for each polygon.
pub open spec fn exact_sources(ps: Seq<PolygonView>) -> Seq<AreaSource> {
    Seq::new(ps.len(), |i: int| AreaSource::Exact(ps[i]))
}

/// The sources of the areas of a geometry.
///
/// A point has none. A segment gives its bounding rectangle as a polygon. A
/// chain, a multi-point and a multi-chain each give one convex hull, the
/// multi-chain that of all its positions together. A polygon is itself, a
/// multi-polygon gives its members, a collection what its members give, in
/// order. A rectangle and a triangle become polygons.
pub open spec fn area_sources(g: GeometryView) -> Seq<AreaSource>
    decreases g, 0nat,
{
    match g {
        GeometryView::Point(_) => Seq::empty(),
        GeometryView::Line(l) => seq![AreaSource::Exact(rect_polygon(rect_of(l.start, l.end)))],
        GeometryView::LineString(s) => seq![AreaSource::Hull(s)],
        GeometryView::Polygon(p) => seq![AreaSource::Exact(p)],
        GeometryView::MultiPoint(ps) => seq![AreaSource::Hull(ps)],
        GeometryView::MultiLineString(ls) => seq![AreaSource::Hull(coords_upto(ls, ls.len()))],
        GeometryView::MultiPolygon(ps) => exact_sources(ps),
        GeometryView::GeometryCollection(gs) => area_sources_upto(gs, gs.len()),
        GeometryView::Rect(r) => seq![AreaSource::Exact(rect_polygon(r))],
        GeometryView::Triangle(t) => seq![AreaSource::Exact(triangle_polygon(t))],
    }
}

/// The area sources of the first `n` members, member by member.
pub open spec fn area_sources_upto(gs: Seq<GeometryView>, n: nat) -> Seq<AreaSource>
    decreases gs, n,
{
    if n == 0 || n > gs.len() {
        Seq::empty()
    } else {
        area_sources_upto(gs, (n - 1) as nat) + area_sources(gs[n - 1])
    }
}

/// Whether a geometry is made of points alone: a point, or a collection all
/// of whose members are.
pub open spec fn only_points(g: GeometryView) -> bool
    decreases g,
{
    match g {
        GeometryView::Point(_) => true,
        GeometryView::GeometryCollection(gs) => forall|i: int|
            0 <= i < gs.len() ==> only_points(#[trigger] gs[i]),
        _ => false,
    }
}

/// Whether no multi-chain or multi-polygon in the geometry is empty.
pub open spec fn populated(g: GeometryView) -> bool
    decreases g,
{
    match g {
        GeometryView::MultiLineString(ls) => ls.len() > 0,
        GeometryView::MultiPolygon(ps) => ps.len() > 0,
        GeometryView::GeometryCollection(gs) => forall|i: int|
            0 <= i < gs.len() ==> populated(#[trigger] gs[i]),
        _ => true,
    }
}

/// The chains of the first `n` polygons of a multi-polygon number as many as
/// the polygons plus all their inner rings, so at least `n`.
pub proof fn lemma_rings_upto_len(ps: Seq<PolygonView>, n: nat)
    requires
        n <= ps.len(),
    ensures
        rings_upto(ps, n).len() >= n,
    decreases n,
{
    if n > 0 {
        lemma_rings_upto_len(ps, (n - 1) as nat);
    }
}

/// The first `n` members of a collection give no line exactly when each of
/// them gives none.
pub proof fn lemma_lines_upto_empty(gs: Seq<GeometryView>, n: nat)
    requires
        n <= gs.len(),
    ensures
        lines_upto(gs, n).len() == 0 <==> forall|i: int|
            0 <= i < n ==> lines_of(#[trigger] gs[i]).len() == 0,
    decreases gs, n,
{
    if n > 0 {
        lemma_lines_upto_empty(gs, (n - 1) as nat);
    }
}

/// A geometry in which no multi-chain and no multi-polygon is empty has no
/// line exactly when it is made of points alone; every other such geometry
/// gives at least one chain.
pub proof fn lemma_lines_none_iff_only_points(g: GeometryView)
    requires
        populated(g),
    ensures
        lines_of(g).len() == 0 <==> only_points(g),
    decreases g,
{
    match g {
        GeometryView::MultiPolygon(ps) => {
            lemma_rings_upto_len(ps, ps.len());
        },
        GeometryView::GeometryCollection(gs) => {
            lemma_lines_upto_empty(gs, gs.len());
            assert forall|i: int| 0 <= i < gs.len() implies (lines_of(#[trigger] gs[i]).len() == 0
                <==> only_points(gs[i])) by {
                lemma_lines_none_iff_only_points(gs[i]);
            }
        },
        _ => {},
    }
}

/// A polygon with `k` inner rings gives `k + 1` chains and one area, which is
/// the polygon itself.
pub proof fn lemma_polygon_counts(p: PolygonView)
    ensures
        lines_of(GeometryView::Polygon(p)).len() == p.interiors.len() + 1,
        area_sources(GeometryView::Polygon(p)) == seq![AreaSource::Exact(p)],
        area_sources(GeometryView::Polygon(p)).len() == 1,
{
}

/// A multi-polygon of `n` members gives `n` areas, its members in order.
pub proof fn lemma_multi_polygon_counts(ps: Seq<PolygonView>)
    ensures
        area_sources(GeometryView::MultiPolygon(ps)).len() == ps.len(),
        forall|i: int|
            0 <= i < ps.len() ==> area_sources(GeometryView::MultiPolygon(ps))[i]
                == AreaSource::Exact(ps[i]),
{
}

} // verus!
