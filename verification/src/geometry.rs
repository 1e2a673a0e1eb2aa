//! Planar geometries whose coordinates are bit patterns of doubles.
//!
//! The shapes are the usual simple-feature ones. A coordinate is a pair of
//! patterns (see [`crate::scalar`]); equality of the derived `==` is equality
//! of patterns, while the functions here that mirror numeric tests (closing a
//! ring, ordering the corners of a rectangle, testing a point against a
//! rectangle) compare the numbers the patterns stand for.
use crate::scalar;
use vstd::prelude::*;

verus! {

/// A position: the bit patterns of its two ordinates.
#[derive(Clone, Copy, Debug, PartialEq, Eq, Hash, Structural)]
pub struct Coord {
    pub x: u64,
    pub y: u64,
}

/// Numeric equality of two positions: both ordinates equal as numbers.
pub open spec fn coord_num_eq(a: Coord, b: Coord) -> bool {
    scalar::num_eq(a.x, b.x) && scalar::num_eq(a.y, b.y)
}

impl Coord {
    /// The position of two ordinates given as bit patterns.
    pub fn new(x: u64, y: u64) -> (c: Coord)
        ensures
            c == (Coord { x, y }),
    {
        Coord { x, y }
    }

    /// Numeric equality: false as soon as an ordinate is a NaN, true for
    /// zeros of either sign.
    pub fn num_eq(&self, other: &Coord) -> (r: bool)
        ensures
            r == coord_num_eq(*self, *other),
    {
        scalar::eq(self.x, other.x) && scalar::eq(self.y, other.y)
    }
}

/// A chain of positions.
#[derive(Debug, PartialEq, Eq)]
pub struct LineString(pub Vec<Coord>);

impl View for LineString {
    type V = Seq<Coord>;

    open spec fn view(&self) -> Seq<Coord> {
        self.0@
    }
}

/// Whether a chain counts as closed: it is empty, or its first and last
/// positions are numerically equal.
pub open spec fn is_closed_seq(s: Seq<Coord>) -> bool {
    s.len() == 0 || coord_num_eq(s[0], s[s.len() - 1])
}

/// The chain closed: unchanged where it already counts as closed, else with
/// its first position repeated at the end.
pub open spec fn closed_seq(s: Seq<Coord>) -> Seq<Coord> {
    if is_closed_seq(s) {
        s
    } else {
        s.push(s[0])
    }
}

impl Clone for LineString {
    fn clone(&self) -> (r: Self)
        ensures
            r@ == self@,
    {
        LineString(self.0.clone())
    }
}

impl LineString {
    /// The chain of the given positions, as they are.
    pub fn new(coords: Vec<Coord>) -> (r: LineString)
        ensures
            r@ == coords@,
    {
        LineString(coords)
    }

    /// The number of positions.
    pub fn len(&self) -> (n: usize)
        ensures
            n == self@.len(),
    {
        self.0.len()
    }

    /// Whether the chain counts as closed: it is empty, or its first and
    /// last positions are numerically equal.
    pub fn is_closed(&self) -> (r: bool)
        ensures
            r == is_closed_seq(self@),
    {
        let n: usize = self.0.len();
        if n == 0 {
            true
        } else {
            self.0[0].num_eq(&self.0[n - 1])
        }
    }

    /// Repeats the first position at the end unless the chain already counts
    /// as closed.
    pub fn close(&mut self)
        ensures
            final(self)@ == closed_seq(old(self)@),
    {
        if !self.is_closed() {
            let first: Coord = self.0[0];
            self.0.push(first);
        }
    }
}

/// The views of a sequence of chains.
pub open spec fn line_views(v: Seq<LineString>) -> Seq<Seq<Coord>> {
    Seq::new(v.len(), |i: int| v[i]@)
}

/// Each chain of a sequence closed.
pub open spec fn closed_seqs(v: Seq<Seq<Coord>>) -> Seq<Seq<Coord>> {
    Seq::new(v.len(), |i: int| closed_seq(v[i]))
}

/// The mathematical content of a [`Polygon`].
pub ghost struct PolygonView {
    pub exterior: Seq<Coord>,
    pub interiors: Seq<Seq<Coord>>,
}

/// An outer ring and any number of inner rings.
#[derive(Debug, PartialEq, Eq)]
pub struct Polygon {
    pub exterior: LineString,
    pub interiors: Vec<LineString>,
}

impl View for Polygon {
    type V = PolygonView;

    open spec fn view(&self) -> PolygonView {
        PolygonView { exterior: self.exterior@, interiors: line_views(self.interiors@) }
    }
}

/// The views of a sequence of polygons.
pub open spec fn polygon_views(v: Seq<Polygon>) -> Seq<PolygonView> {
    Seq::new(v.len(), |i: int| v[i]@)
}

/// A copy of a vector of chains.
pub fn clone_lines(lines: &Vec<LineString>) -> (r: Vec<LineString>)
    ensures
        line_views(r@) == line_views(lines@),
{
    let mut out: Vec<LineString> = Vec::new();
    let mut i: usize = 0;
    while i < lines.len()
        invariant
            i <= lines.len(),
            out.len() == i,
            forall|k: int| 0 <= k < i ==> out[k]@ == lines[k]@,
        decreases lines.len() - i,
    {
        out.push(lines[i].clone());
        i += 1;
    }
    assert(line_views(out@) =~= line_views(lines@));
    out
}

impl Clone for Polygon {
    fn clone(&self) -> (r: Self)
        ensures
            r@ == self@,
    {
        Polygon { exterior: self.exterior.clone(), interiors: clone_lines(&self.interiors) }
    }
}

impl Polygon {
    /// A polygon of the given rings, each closed first.
    pub fn new(exterior: LineString, interiors: Vec<LineString>) -> (r: Polygon)
        ensures
            r@ == (PolygonView {
                exterior: closed_seq(exterior@),
                interiors: closed_seqs(line_views(interiors@)),
            }),
    {
        let mut exterior = exterior;
        let mut interiors = interiors;
        let ghost before = interiors@;
        exterior.close();
        let mut i: usize = 0;
        while i < interiors.len()
            invariant
                i <= interiors.len(),
                interiors.len() == before.len(),
                forall|k: int| 0 <= k < i ==> interiors[k]@ == closed_seq(before[k]@),
                forall|k: int| i <= k < interiors.len() ==> interiors[k]@ == before[k]@,
            decreases interiors.len() - i,
        {
            interiors[i].close();
            i += 1;
        }
        assert(line_views(interiors@) =~= closed_seqs(line_views(before)));
        Polygon { exterior, interiors }
    }

    /// The outer ring.
    pub fn exterior(&self) -> (r: &LineString)
        ensures
            r@ == self@.exterior,
    {
        &self.exterior
    }

    /// The inner rings, in order.
    pub fn interiors(&self) -> (r: &Vec<LineString>)
        ensures
            line_views(r@) == self@.interiors,
    {
        &self.interiors
    }
}

/// An axis-aligned rectangle, given by its two extreme corners.
#[derive(Clone, Copy, Debug, PartialEq, Eq, Structural)]
pub struct Rect {
    pub min: Coord,
    pub max: Coord,
}

/// The rectangle spanned by two positions. On each axis the first ordinate
/// is the minimum exactly when it is numerically less than the second.
pub open spec fn rect_of(c1: Coord, c2: Coord) -> Rect {
    Rect {
        min: Coord {
            x: if scalar::num_lt(c1.x, c2.x) { c1.x } else { c2.x },
            y: if scalar::num_lt(c1.y, c2.y) { c1.y } else { c2.y },
        },
        max: Coord {
            x: if scalar::num_lt(c1.x, c2.x) { c2.x } else { c1.x },
            y: if scalar::num_lt(c1.y, c2.y) { c2.y } else { c1.y },
        },
    }
}

/// The boundary of a rectangle, counter-clockwise from the corner at the
/// greatest x and the least y, not closed.
pub open spec fn rect_corners(r: Rect) -> Seq<Coord> {
    seq![
        Coord { x: r.max.x, y: r.min.y },
        Coord { x: r.max.x, y: r.max.y },
        Coord { x: r.min.x, y: r.max.y },
        Coord { x: r.min.x, y: r.min.y },
    ]
}

/// The rectangle as a polygon without holes: its corners, the first repeated
/// at the end, then closed once more as every new polygon's ring is.
pub open spec fn rect_polygon(r: Rect) -> PolygonView {
    PolygonView {
        exterior: closed_seq(rect_corners(r).push(Coord { x: r.max.x, y: r.min.y })),
        interiors: Seq::empty(),
    }
}

/// Whether a position lies in the rectangle, its border included.
pub open spec fn rect_touches(r: Rect, c: Coord) -> bool {
    scalar::num_le(r.min.x, c.x) && scalar::num_le(r.min.y, c.y) && scalar::num_le(c.x, r.max.x)
        && scalar::num_le(c.y, r.max.y)
}

/// Whether a position lies strictly inside the rectangle.
pub open spec fn rect_encloses(r: Rect, c: Coord) -> bool {
    scalar::num_lt(r.min.x, c.x) && scalar::num_lt(c.x, r.max.x) && scalar::num_lt(r.min.y, c.y)
        && scalar::num_lt(c.y, r.max.y)
}

impl Rect {
    /// The rectangle spanned by two positions, in either order.
    pub fn new(c1: Coord, c2: Coord) -> (r: Rect)
        ensures
            r == rect_of(c1, c2),
    {
        let x_ordered: bool = scalar::lt(c1.x, c2.x);
        let y_ordered: bool = scalar::lt(c1.y, c2.y);
        Rect {
            min: Coord {
                x: if x_ordered { c1.x } else { c2.x },
                y: if y_ordered { c1.y } else { c2.y },
            },
            max: Coord {
                x: if x_ordered { c2.x } else { c1.x },
                y: if y_ordered { c2.y } else { c1.y },
            },
        }
    }

    /// The corner of the least ordinates.
    pub fn min(&self) -> (c: Coord)
        ensures
            c == self.min,
    {
        self.min
    }

    /// The corner of the greatest ordinates.
    pub fn max(&self) -> (c: Coord)
        ensures
            c == self.max,
    {
        self.max
    }

    /// The four corners, counter-clockwise, not closed.
    pub fn corners(&self) -> (r: Vec<Coord>)
        ensures
            r@ == rect_corners(*self),
    {
        let mut out: Vec<Coord> = Vec::new();
        out.push(Coord { x: self.max.x, y: self.min.y });
        out.push(Coord { x: self.max.x, y: self.max.y });
        out.push(Coord { x: self.min.x, y: self.max.y });
        out.push(Coord { x: self.min.x, y: self.min.y });
        assert(out@ =~= rect_corners(*self));
        out
    }

    /// The rectangle as a polygon without holes.
    pub fn to_polygon(&self) -> (p: Polygon)
        ensures
            p@ == rect_polygon(*self),
    {
        let mut ring: Vec<Coord> = self.corners();
        ring.push(Coord { x: self.max.x, y: self.min.y });
        let p = Polygon::new(LineString(ring), Vec::new());
        assert(p@.interiors =~= Seq::<Seq<Coord>>::empty());
        p
    }

    /// Whether a position lies in the rectangle, its border included.
    pub fn intersects(&self, c: &Coord) -> (r: bool)
        ensures
            r == rect_touches(*self, *c),
    {
        scalar::ge(c.x, self.min.x) && scalar::ge(c.y, self.min.y) && scalar::le(c.x, self.max.x)
            && scalar::le(c.y, self.max.y)
    }

    /// Whether a position lies strictly inside the rectangle.
    pub fn contains(&self, c: &Coord) -> (r: bool)
        ensures
            r == rect_encloses(*self, *c),
    {
        scalar::gt(c.x, self.min.x) && scalar::lt(c.x, self.max.x) && scalar::gt(c.y, self.min.y)
            && scalar::lt(c.y, self.max.y)
    }
}

/// A segment between two positions.
#[derive(Clone, Copy, Debug, PartialEq, Eq, Structural)]
pub struct Line {
    pub start: Coord,
    pub end: Coord,
}

impl Line {
    /// The segment from one position to another.
    pub fn new(start: Coord, end: Coord) -> (l: Line)
        ensures
            l == (Line { start, end }),
    {
        Line { start, end }
    }

    /// The smallest rectangle that holds both ends.
    pub fn bounding_rect(&self) -> (r: Rect)
        ensures
            r == rect_of(self.start, self.end),
    {
        Rect::new(self.start, self.end)
    }
}

/// Three corners.
#[derive(Clone, Copy, Debug, PartialEq, Eq, Structural)]
pub struct Triangle(pub Coord, pub Coord, pub Coord);

/// The corners of a triangle in order, not closed.
pub open spec fn triangle_corners(t: Triangle) -> Seq<Coord> {
    seq![t.0, t.1, t.2]
}

/// The triangle as a polygon without holes: its corners, the first repeated
/// at the end, then closed once more as every new polygon's ring is.
pub open spec fn triangle_polygon(t: Triangle) -> PolygonView {
    PolygonView { exterior: closed_seq(seq![t.0, t.1, t.2, t.0]), interiors: Seq::empty() }
}

impl Triangle {
    /// The triangle of three corners, in the order given.
    pub fn new(a: Coord, b: Coord, c: Coord) -> (t: Triangle)
        ensures
            t == Triangle(a, b, c),
    {
        Triangle(a, b, c)
    }

    /// The three corners in order, not closed.
    pub fn corners(&self) -> (r: Vec<Coord>)
        ensures
            r@ == triangle_corners(*self),
    {
        let mut out: Vec<Coord> = Vec::new();
        out.push(self.0);
        out.push(self.1);
        out.push(self.2);
        assert(out@ =~= triangle_corners(*self));
        out
    }

    /// The triangle as a polygon without holes.
    pub fn to_polygon(&self) -> (p: Polygon)
        ensures
            p@ == triangle_polygon(*self),
    {
        let mut ring: Vec<Coord> = self.corners();
        ring.push(self.0);
        assert(ring@ =~= seq![self.0, self.1, self.2, self.0]);
        let p = Polygon::new(LineString(ring), Vec::new());
        assert(p@.interiors =~= Seq::<Seq<Coord>>::empty());
        p
    }
}

/// The mathematical content of a [`Geometry`].
pub ghost enum GeometryView {
    Point(Coord),
    Line(Line),
    LineString(Seq<Coord>),
    Polygon(PolygonView),
    MultiPoint(Seq<Coord>),
    MultiLineString(Seq<Seq<Coord>>),
    MultiPolygon(Seq<PolygonView>),
    GeometryCollection(Seq<GeometryView>),
    Rect(Rect),
    Triangle(Triangle),
}

/// Any of the shapes, collections of shapes included.
#[derive(Debug, PartialEq, Eq)]
pub enum Geometry {
    Point(Coord),
    Line(Line),
    LineString(LineString),
    Polygon(Polygon),
    MultiPoint(Vec<Coord>),
    MultiLineString(Vec<LineString>),
    MultiPolygon(Vec<Polygon>),
    GeometryCollection(Vec<Geometry>),
    Rect(Rect),
    Triangle(Triangle),
}

/// The mathematical content of a geometry: that of its parts, in order.
pub open spec fn geometry_view(g: Geometry) -> GeometryView
    decreases g,
{
    match g {
        Geometry::Point(c) => GeometryView::Point(c),
        Geometry::Line(l) => GeometryView::Line(l),
        Geometry::LineString(l) => GeometryView::LineString(l@),
        Geometry::Polygon(p) => GeometryView::Polygon(p@),
        Geometry::MultiPoint(v) => GeometryView::MultiPoint(v@),
        Geometry::MultiLineString(v) => GeometryView::MultiLineString(line_views(v@)),
        Geometry::MultiPolygon(v) => GeometryView::MultiPolygon(polygon_views(v@)),
        Geometry::GeometryCollection(v) => GeometryView::GeometryCollection(
            Seq::new(
                v@.len(),
                |i: int|
                    if 0 <= i < v@.len() {
                        geometry_view(v@[i])
                    } else {
                        GeometryView::MultiPoint(Seq::empty())
                    },
            ),
        ),
        Geometry::Rect(r) => GeometryView::Rect(r),
        Geometry::Triangle(t) => GeometryView::Triangle(t),
    }
}

impl View for Geometry {
    type V = GeometryView;

    open spec fn view(&self) -> GeometryView {
        geometry_view(*self)
    }
}

/// The views of a sequence of geometries.
pub open spec fn geometry_views(v: Seq<Geometry>) -> Seq<GeometryView> {
    Seq::new(v.len(), |i: int| v[i]@)
}

/// The view of a collection holds the views of its members, in order.
pub proof fn lemma_collection_view(g: Geometry)
    requires
        g is GeometryCollection,
    ensures
        g@ == GeometryView::GeometryCollection(geometry_views(g->GeometryCollection_0@)),
{
    assert(g@->GeometryCollection_0 =~= geometry_views(g->GeometryCollection_0@));
}

/// A copy of a vector of polygons.
pub fn clone_polygons(polygons: &Vec<Polygon>) -> (r: Vec<Polygon>)
    ensures
        polygon_views(r@) == polygon_views(polygons@),
{
    let mut out: Vec<Polygon> = Vec::new();
    let mut i: usize = 0;
    while i < polygons.len()
        invariant
            i <= polygons.len(),
            out.len() == i,
            forall|k: int| 0 <= k < i ==> out[k]@ == polygons[k]@,
        decreases polygons.len() - i,
    {
        out.push(polygons[i].clone());
        i += 1;
    }
    assert(polygon_views(out@) =~= polygon_views(polygons@));
    out
}

impl Clone for Geometry {
    fn clone(&self) -> (r: Self)
        ensures
            r@ == self@,
        decreases self,
    {
        match self {
            Geometry::Point(c) => Geometry::Point(*c),
            Geometry::Line(l) => Geometry::Line(*l),
            Geometry::LineString(l) => Geometry::LineString(l.clone()),
            Geometry::Polygon(p) => Geometry::Polygon(p.clone()),
            Geometry::MultiPoint(v) => Geometry::MultiPoint(v.clone()),
            Geometry::MultiLineString(v) => Geometry::MultiLineString(clone_lines(v)),
            Geometry::MultiPolygon(v) => Geometry::MultiPolygon(clone_polygons(v)),
            Geometry::GeometryCollection(v) => {
                let mut out: Vec<Geometry> = Vec::new();
                let mut i: usize = 0;
                while i < v.len()
                    invariant
                        i <= v.len(),
                        out.len() == i,
                        *self matches Geometry::GeometryCollection(w) && w == *v,
                        forall|k: int| 0 <= k < i ==> out[k]@ == v[k]@,
                    decreases v.len() - i,
                {
                    out.push(v[i].clone());
                    i += 1;
                }
                let r = Geometry::GeometryCollection(out);
                assert(r@->GeometryCollection_0 =~= self@->GeometryCollection_0);
                r
            },
            Geometry::Rect(r) => Geometry::Rect(*r),
            Geometry::Triangle(t) => Geometry::Triangle(*t),
        }
    }
}

} // verus!
