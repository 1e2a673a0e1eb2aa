//! A geometry made ready for drawing: tagged with its layer and properties,
//! and remembering its line skeleton, its areas and its centre point once
//! they have been worked out.
//!
//! Convex hulls, centroids and clipping need arithmetic on the numbers behind
//! the coordinates, which this crate does not do. Where one is needed the
//! caller's function is asked, and the contracts say what it was asked and
//! that its answer was taken as it came.
use crate::classify::{
    area_sources, area_sources_upto, coords_upto, exact_sources,
    lemma_lines_none_iff_only_points, lines_of, lines_upto, only_points, populated, rings_of,
    rings_upto, AreaSource,
};
use crate::geometry::{
    clone_lines, clone_polygons, geometry_views, lemma_collection_view, line_views, polygon_views, rect_encloses,
    rect_polygon, rect_touches, triangle_polygon, Coord, Geometry, GeometryView, LineString,
    Polygon, PolygonView, Rect,
};
use crate::magic_value::Properties;
use crate::renderer::geometry_renderer::{filter_takes, RenderedGeometryFilter};
use vstd::prelude::*;

verus! {

/// One computation on the numbers behind the coordinates, asked of the
/// caller. Each answers with a point, or with none.
#[derive(Debug, PartialEq, Eq)]
pub enum Measure {
    /// The centroid of a geometry.
    Centroid(Geometry),
    /// The centroid of what is left of the chains inside the polygon.
    ClippedLines(Polygon, Vec<LineString>),
    /// The centroid of what the polygon and the others have in common.
    Intersection(Polygon, Vec<Polygon>),
}

/// The mathematical content of a [`Measure`].
pub ghost enum MeasureView {
    Centroid(GeometryView),
    ClippedLines(PolygonView, Seq<Seq<Coord>>),
    Intersection(PolygonView, Seq<PolygonView>),
}

impl View for Measure {
    type V = MeasureView;

    open spec fn view(&self) -> MeasureView {
        match self {
            Measure::Centroid(g) => MeasureView::Centroid(g@),
            Measure::ClippedLines(mask, lines) => MeasureView::ClippedLines(
                mask@,
                line_views(lines@),
            ),
            Measure::Intersection(mask, polygons) => MeasureView::Intersection(
                mask@,
                polygon_views(polygons@),
            ),
        }
    }
}

/// How the centre point of a geometry is found.
pub ghost enum CenterPlan {
    /// It is known without any computation.
    Known(Option<Coord>),
    /// It is the answer to this one computation.
    Ask(MeasureView),
    /// The geometry is a collection seen through a rectangle: the centroid
    /// of each member is asked, those strictly inside the rectangle are
    /// kept, and the centroid of the kept points is asked.
    Members(Rect, Seq<GeometryView>),
}

/// Of the first `n` positions, those strictly inside the rectangle, in order.
pub open spec fn within_upto(rect: Rect, points: Seq<Coord>, n: nat) -> Seq<Coord>
    decreases n,
{
    if n == 0 || n > points.len() {
        Seq::empty()
    } else if rect_encloses(rect, points[n - 1]) {
        within_upto(rect, points, (n - 1) as nat).push(points[n - 1])
    } else {
        within_upto(rect, points, (n - 1) as nat)
    }
}

/// The positions strictly inside the rectangle, in order.
pub open spec fn within(rect: Rect, points: Seq<Coord>) -> Seq<Coord> {
    within_upto(rect, points, points.len())
}

/// The segment end that stands for a segment seen through a rectangle: the
/// start if it lies in the rectangle, border included, else the end if that
/// does, else none.
pub open spec fn segment_center(rect: Rect, start: Coord, end: Coord) -> Option<Coord> {
    if rect_touches(rect, start) {
        Some(start)
    } else if rect_touches(rect, end) {
        Some(end)
    } else {
        None
    }
}

/// How the centre point of a geometry is found, without a rectangle or seen
/// through one.
///
/// A point is its own centre either way. Without a rectangle every other
/// geometry has its centroid. Through a rectangle, a segment is stood for by
/// one of its ends; chains are clipped by the rectangle and polygons,
/// rectangles and triangles intersected with it before the centroid is
/// taken; of a multi-point the points strictly inside are kept first.
pub open spec fn center_plan(g: GeometryView, rect: Option<Rect>) -> CenterPlan {
    match rect {
        None => match g {
            GeometryView::Point(c) => CenterPlan::Known(Some(c)),
            _ => CenterPlan::Ask(MeasureView::Centroid(g)),
        },
        Some(rc) => match g {
            GeometryView::Point(c) => CenterPlan::Known(Some(c)),
            GeometryView::Line(l) => CenterPlan::Known(segment_center(rc, l.start, l.end)),
            GeometryView::LineString(s) => CenterPlan::Ask(
                MeasureView::ClippedLines(rect_polygon(rc), seq![s]),
            ),
            GeometryView::Polygon(p) => CenterPlan::Ask(
                MeasureView::Intersection(rect_polygon(rc), seq![p]),
            ),
            GeometryView::MultiPoint(ps) => CenterPlan::Ask(
                MeasureView::Centroid(GeometryView::MultiPoint(within(rc, ps))),
            ),
            GeometryView::MultiLineString(ls) => CenterPlan::Ask(
                MeasureView::ClippedLines(rect_polygon(rc), ls),
            ),
            GeometryView::MultiPolygon(ps) => CenterPlan::Ask(
                MeasureView::Intersection(rect_polygon(rc), ps),
            ),
            GeometryView::GeometryCollection(gs) => CenterPlan::Members(rc, gs),
            GeometryView::Rect(r) => CenterPlan::Ask(
                MeasureView::Intersection(rect_polygon(rc), seq![rect_polygon(r)]),
            ),
            GeometryView::Triangle(t) => CenterPlan::Ask(
                MeasureView::Intersection(rect_polygon(rc), seq![triangle_polygon(t)]),
            ),
        },
    }
}

/// A point is its own centre, without a rectangle and through any.
pub proof fn lemma_point_is_its_center(point: Coord, rect: Option<Rect>)
    ensures
        center_plan(GeometryView::Point(point), rect) == CenterPlan::Known(Some(point)),
{
}

/// The point taken for a member whose centroid was asked: the answer, or the
/// origin where there was none.
pub open spec fn or_origin(answer: Option<Coord>) -> Coord {
    match answer {
        Some(c) => c,
        None => Coord { x: 0, y: 0 },
    }
}

/// Whether `point` is a centre that `measure` may give under the plan: the
/// known one, or an answer of `measure` to what the plan asks.
pub open spec fn center_follows<M: Fn(&Measure) -> Option<Coord>>(
    plan: CenterPlan,
    measure: M,
    point: Option<Coord>,
) -> bool {
    match plan {
        CenterPlan::Known(c) => point == c,
        CenterPlan::Ask(m) => answers_to(measure, m, point),
        CenterPlan::Members(rect, gs) => answers_to_members(measure, rect, gs, point),
    }
}

/// Whether `point` is an answer of `measure` to the computation `m`.
pub open spec fn answers_to<M: Fn(&Measure) -> Option<Coord>>(
    measure: M,
    m: MeasureView,
    point: Option<Coord>,
) -> bool {
    exists|task: Measure| task@ == m && #[trigger] measure.ensures((&task,), point)
}

/// Whether `point` is an answer of `measure` for a collection seen through
/// a rectangle, by way of some answers for the members.
pub open spec fn answers_to_members<M: Fn(&Measure) -> Option<Coord>>(
    measure: M,
    rect: Rect,
    gs: Seq<GeometryView>,
    point: Option<Coord>,
) -> bool {
    exists|answers: Seq<Option<Coord>>, task: Measure| #[trigger]
        members_follow(measure, rect, gs, answers, task, point)
}

/// Whether `point` is the answer of `measure` to `task`, where `answers` are
/// answers of `measure` for the centroids of the members and `task` asks the
/// centroid of those of them that lie strictly inside the rectangle.
pub open spec fn members_follow<M: Fn(&Measure) -> Option<Coord>>(
    measure: M,
    rect: Rect,
    gs: Seq<GeometryView>,
    answers: Seq<Option<Coord>>,
    task: Measure,
    point: Option<Coord>,
) -> bool {
    &&& answers.len() == gs.len()
    &&& forall|i: int|
        0 <= i < gs.len() ==> member_answer(measure, gs[i], #[trigger] answers[i])
    &&& task@ == MeasureView::Centroid(
        GeometryView::MultiPoint(within(rect, answers.map_values(|a| or_origin(a)))),
    )
    &&& measure.ensures((&task,), point)
}

/// Whether `answer` is what `measure` may give for the centroid of `g`.
pub open spec fn member_answer<M: Fn(&Measure) -> Option<Coord>>(
    measure: M,
    g: GeometryView,
    answer: Option<Coord>,
) -> bool {
    answers_to(measure, MeasureView::Centroid(g), answer)
}

/// Whether polygons are what `hull` may give for the sources, one for one:
/// the exact ones as they stand, the others an answer of `hull` to the
/// positions of the source.
pub open spec fn areas_follow<H: Fn(&Vec<Coord>) -> Polygon>(
    sources: Seq<AreaSource>,
    hull: H,
    areas: Seq<Polygon>,
) -> bool {
    &&& areas.len() == sources.len()
    &&& forall|i: int|
        0 <= i < sources.len() ==> area_follows(sources[i], hull, #[trigger] areas[i])
}

/// Whether one polygon is what `hull` may give for one source.
pub open spec fn area_follows<H: Fn(&Vec<Coord>) -> Polygon>(
    source: AreaSource,
    hull: H,
    area: Polygon,
) -> bool {
    match source {
        AreaSource::Exact(p) => area@ == p,
        AreaSource::Hull(cs) => exists|coords: Vec<Coord>|
            coords@ == cs && #[trigger] hull.ensures((&coords,), area),
    }
}

/// Whether polygons number as the sources do and equal the exact ones.
pub open spec fn areas_fit(sources: Seq<AreaSource>, areas: Seq<PolygonView>) -> bool {
    &&& areas.len() == sources.len()
    &&& forall|i: int|
        0 <= i < sources.len() ==> (#[trigger] sources[i] matches AreaSource::Exact(p) ==> areas[i]
            == p)
}

/// The positions strictly inside a rectangle, in order.
pub fn points_within(rect: &Rect, points: &Vec<Coord>) -> (kept: Vec<Coord>)
    ensures
        kept@ == within(*rect, points@),
{
    let mut kept: Vec<Coord> = Vec::new();
    let mut i: usize = 0;
    while i < points.len()
        invariant
            i <= points.len(),
            kept@ == within_upto(*rect, points@, i as nat),
        decreases points.len() - i,
    {
        if rect.contains(&points[i]) {
            kept.push(points[i]);
        }
        i += 1;
    }
    kept
}

/// Pushing a chain pushes its view.
proof fn lemma_line_views_push(v: Seq<LineString>, l: LineString)
    ensures
        line_views(v.push(l)) == line_views(v).push(l@),
{
    assert(line_views(v.push(l)) =~= line_views(v).push(l@));
}

/// Appending chains appends their views.
proof fn lemma_line_views_add(a: Seq<LineString>, b: Seq<LineString>)
    ensures
        line_views(a + b) == line_views(a) + line_views(b),
{
    assert(line_views(a + b) =~= line_views(a) + line_views(b));
}

/// Appends the rings of a polygon: the outer one, then the inner ones.
fn push_rings(lines: &mut Vec<LineString>, polygon: &Polygon)
    ensures
        line_views(final(lines)@) == line_views(old(lines)@) + rings_of(polygon@),
{
    let ghost before = lines@;
    lines.push(polygon.exterior.clone());
    let mut inner: Vec<LineString> = clone_lines(&polygon.interiors);
    let ghost mid = lines@;
    let ghost added = inner@;
    lines.append(&mut inner);
    proof {
        lemma_line_views_push(before, mid[before.len() as int]);
        lemma_line_views_add(mid, added);
        assert(mid =~= before.push(mid[before.len() as int]));
        assert(line_views(lines@) =~= line_views(before) + rings_of(polygon@));
    }
}

/// The line skeleton of a geometry, as [`lines_of`] defines it. Where no
/// multi-chain and no multi-polygon in the geometry is empty, there is no
/// line exactly when the geometry is made of points alone.
pub fn get_lines_from_geom(geom: &Geometry) -> (lines: Vec<LineString>)
    ensures
        line_views(lines@) == lines_of(geom@),
        populated(geom@) ==> (lines@.len() == 0 <==> only_points(geom@)),
    decreases geom,
{
    proof {
        if populated(geom@) {
            lemma_lines_none_iff_only_points(geom@);
        }
    }
    let mut lines: Vec<LineString> = Vec::new();
    match geom {
        Geometry::Point(_) => {
            assert(line_views(lines@) =~= lines_of(geom@));
        },
        Geometry::Line(line) => {
            let mut ends: Vec<Coord> = Vec::new();
            ends.push(line.start);
            ends.push(line.end);
            assert(ends@ =~= seq![line.start, line.end]);
            lines.push(LineString(ends));
            assert(line_views(lines@) =~= lines_of(geom@));
        },
        Geometry::LineString(line_string) => {
            lines.push(line_string.clone());
            assert(line_views(lines@) =~= lines_of(geom@));
        },
        Geometry::Polygon(polygon) => {
            assert(line_views(lines@) =~= Seq::<Seq<Coord>>::empty());
            push_rings(&mut lines, polygon);
            assert(line_views(lines@) =~= lines_of(geom@));
        },
        Geometry::MultiPoint(points) => {
            lines.push(LineString(points.clone()));
            assert(line_views(lines@) =~= lines_of(geom@));
        },
        Geometry::MultiLineString(multi) => {
            lines = clone_lines(multi);
        },
        Geometry::MultiPolygon(multi) => {
            let mut i: usize = 0;
            assert(line_views(lines@) =~= Seq::<Seq<Coord>>::empty());
            while i < multi.len()
                invariant
                    i <= multi.len(),
                    line_views(lines@) == rings_upto(polygon_views(multi@), i as nat),
                decreases multi.len() - i,
            {
                push_rings(&mut lines, &multi[i]);
                i += 1;
            }
        },
        Geometry::GeometryCollection(members) => {
            let mut i: usize = 0;
            assert(line_views(lines@) =~= Seq::<Seq<Coord>>::empty());
            proof {
                lemma_collection_view(*geom);
            }
            while i < members.len()
                invariant
                    i <= members.len(),
                    *geom matches Geometry::GeometryCollection(w) && w == *members,
                    line_views(lines@) == lines_upto(geometry_views(members@), i as nat),
                decreases members.len() - i,
            {
                let mut part: Vec<LineString> = get_lines_from_geom(&members[i]);
                proof {
                    lemma_line_views_add(lines@, part@);
                }
                lines.append(&mut part);
                i += 1;
            }
        },
        Geometry::Rect(rect) => {
            let mut ring = LineString(rect.corners());
            ring.close();
            lines.push(ring);
            assert(line_views(lines@) =~= lines_of(geom@));
        },
        Geometry::Triangle(triangle) => {
            let mut ring = LineString(triangle.corners());
            ring.close();
            lines.push(ring);
            assert(line_views(lines@) =~= lines_of(geom@));
        },
    };
    lines
}

/// All the positions of the chains, chain after chain.
pub fn all_coords(lines: &Vec<LineString>) -> (coords: Vec<Coord>)
    ensures
        coords@ == coords_upto(line_views(lines@), lines@.len()),
{
    let mut coords: Vec<Coord> = Vec::new();
    let mut i: usize = 0;
    while i < lines.len()
        invariant
            i <= lines.len(),
            coords@ == coords_upto(line_views(lines@), i as nat),
        decreases lines.len() - i,
    {
        let mut part: Vec<Coord> = lines[i].0.clone();
        coords.append(&mut part);
        i += 1;
    }
    coords
}

/// Areas that follow two lists of sources follow, one after the other, the
/// two lists one after the other.
proof fn lemma_areas_follow_add<H: Fn(&Vec<Coord>) -> Polygon>(
    s1: Seq<AreaSource>,
    s2: Seq<AreaSource>,
    hull: H,
    a1: Seq<Polygon>,
    a2: Seq<Polygon>,
)
    requires
        areas_follow(s1, hull, a1),
        areas_follow(s2, hull, a2),
    ensures
        areas_follow(s1 + s2, hull, a1 + a2),
{
    assert forall|i: int| 0 <= i < (s1 + s2).len() implies area_follows(
        (s1 + s2)[i],
        hull,
        #[trigger] (a1 + a2)[i],
    ) by {
        if i < s1.len() {
            assert((a1 + a2)[i] == a1[i]);
        } else {
            assert((a1 + a2)[i] == a2[i - s1.len()]);
        }
    }
}

/// The areas of a geometry, one for each of its [`area_sources`]: the exact
/// ones as they stand, each hull as `hull` gives it for the positions of its
/// source.
pub fn get_areas_from_geom<H: Fn(&Vec<Coord>) -> Polygon>(geom: &Geometry, hull: &H) -> (areas:
    Vec<Polygon>)
    requires
        forall|coords: &Vec<Coord>| hull.requires((coords,)),
    ensures
        areas_follow(area_sources(geom@), *hull, areas@),
    decreases geom,
{
    let mut areas: Vec<Polygon> = Vec::new();
    match geom {
        Geometry::Point(_) => {},
        Geometry::Line(line) => {
            areas.push(line.bounding_rect().to_polygon());
        },
        Geometry::LineString(line_string) => {
            let area = hull(&line_string.0);
            areas.push(area);
        },
        Geometry::Polygon(polygon) => {
            areas.push(polygon.clone());
        },
        Geometry::MultiPoint(points) => {
            let area = hull(points);
            areas.push(area);
        },
        Geometry::MultiLineString(multi) => {
            let coords: Vec<Coord> = all_coords(multi);
            let area = hull(&coords);
            areas.push(area);
        },
        Geometry::MultiPolygon(multi) => {
            areas = clone_polygons(multi);
            assert forall|i: int| 0 <= i < multi@.len() implies area_follows(
                exact_sources(polygon_views(multi@))[i],
                *hull,
                #[trigger] areas@[i],
            ) by {
                assert(polygon_views(areas@)[i] == polygon_views(multi@)[i]);
            }
        },
        Geometry::GeometryCollection(members) => {
            let mut i: usize = 0;
            proof {
                lemma_collection_view(*geom);
            }
            while i < members.len()
                invariant
                    i <= members.len(),
                    forall|coords: &Vec<Coord>| hull.requires((coords,)),
                    *geom matches Geometry::GeometryCollection(w) && w == *members,
                    areas_follow(
                        area_sources_upto(geometry_views(members@), i as nat),
                        *hull,
                        areas@,
                    ),
                decreases members.len() - i,
            {
                let mut part: Vec<Polygon> = get_areas_from_geom(&members[i], hull);
                proof {
                    lemma_areas_follow_add(
                        area_sources_upto(geometry_views(members@), i as nat),
                        area_sources(members[i as int]@),
                        *hull,
                        areas@,
                        part@,
                    );
                }
                areas.append(&mut part);
                i += 1;
            }
        },
        Geometry::Rect(rect) => {
            areas.push(rect.to_polygon());
        },
        Geometry::Triangle(triangle) => {
            areas.push(triangle.to_polygon());
        },
    };
    areas
}

/// Areas that follow their sources fit them.
proof fn lemma_follow_fits<H: Fn(&Vec<Coord>) -> Polygon>(
    sources: Seq<AreaSource>,
    hull: H,
    areas: Seq<Polygon>,
)
    requires
        areas_follow(sources, hull, areas),
    ensures
        areas_fit(sources, polygon_views(areas)),
{
    assert forall|i: int| 0 <= i < sources.len() implies (#[trigger] sources[i] matches AreaSource::Exact(
        p,
    ) ==> polygon_views(areas)[i] == p) by {
        assert(area_follows(sources[i], hull, areas[i]));
    }
}

/// What a [`RenderedGeometry`] holds: the geometry with its tags, and what
/// it remembers.
pub ghost struct RenderedView {
    pub geometry: GeometryView,
    pub layer: Option<Seq<char>>,
    /// The properties of the feature that the geometry came from.
    pub props: Properties,
    /// The line skeleton, once worked out; empty where there is none.
    pub lines: Option<Seq<Seq<Coord>>>,
    /// The areas, once worked out; empty where there are none.
    pub areas: Option<Seq<PolygonView>>,
    /// The centre point last worked out, with the rectangle it was worked
    /// out for.
    pub center: Option<(Option<Rect>, Option<Coord>)>,
}

/// A geometry with its layer and properties, and with what has been worked
/// out of it so far.
pub struct RenderedGeometry {
    layer: Option<String>,
    props: Properties,
    inner_geom: Geometry,
    center_point: Option<Coord>,
    center_rect: Option<Rect>,
    has_calc_center_point: bool,
    lines: Option<Vec<LineString>>,
    has_calc_lines: bool,
    areas: Option<Vec<Polygon>>,
    has_calc_areas: bool,
}

/// The views of remembered chains: empty where none are held.
pub open spec fn held_lines(lines: Option<Vec<LineString>>) -> Seq<Seq<Coord>> {
    match lines {
        Some(v) => line_views(v@),
        None => Seq::empty(),
    }
}

/// The views of remembered polygons: empty where none are held.
pub open spec fn held_areas(areas: Option<Vec<Polygon>>) -> Seq<PolygonView> {
    match areas {
        Some(v) => polygon_views(v@),
        None => Seq::empty(),
    }
}

/// The views of polygons handed out: empty where none are.
pub open spec fn shown_areas(areas: Option<&Vec<Polygon>>) -> Seq<PolygonView> {
    match areas {
        Some(v) => polygon_views(v@),
        None => Seq::empty(),
    }
}

/// Whether `after` is the content of what `project` may give for a
/// geometry of the content `before`.
pub open spec fn projected_by<P: Fn(&Geometry) -> Geometry>(
    project: P,
    before: GeometryView,
    after: GeometryView,
) -> bool {
    exists|given: Geometry, made: Geometry|
        given@ == before && made@ == after && #[trigger] project.ensures((&given,), made)
}

impl View for RenderedGeometry {
    type V = RenderedView;

    closed spec fn view(&self) -> RenderedView {
        RenderedView {
            geometry: self.inner_geom@,
            layer: match self.layer {
                Some(name) => Some(name@),
                None => None,
            },
            props: self.props,
            lines: if self.has_calc_lines {
                Some(held_lines(self.lines))
            } else {
                None
            },
            areas: if self.has_calc_areas {
                Some(held_areas(self.areas))
            } else {
                None
            },
            center: if self.has_calc_center_point {
                Some((self.center_rect, self.center_point))
            } else {
                None
            },
        }
    }
}

/// Whether what is remembered agrees with the geometry: the lines are its
/// line skeleton, the areas fit its area sources, and a centre that needs no
/// computation is the one remembered.
pub open spec fn memo_agrees(v: RenderedView) -> bool {
    &&& v.lines matches Some(lines) ==> lines == lines_of(v.geometry)
    &&& v.areas matches Some(areas) ==> areas_fit(area_sources(v.geometry), areas)
    &&& v.center matches Some((rect, point)) ==> (center_plan(v.geometry, rect) matches CenterPlan::Known(
        c,
    ) ==> point == c)
}

/// What a geometry remembers once a rectangle is supplied: the centre point
/// is forgotten if it was worked out for another rectangle. Without a
/// rectangle nothing is forgotten.
pub open spec fn framed(v: RenderedView, rect: Option<Rect>) -> RenderedView {
    RenderedView {
        center: match (rect, v.center) {
            (Some(supplied), Some((held, point))) => if held == Some(supplied) {
                Some((held, point))
            } else {
                None
            },
            (_, center) => center,
        },
        ..v
    }
}

impl RenderedGeometry {
    #[verifier::type_invariant]
    spec fn sound(self) -> bool {
        &&& memo_agrees(self@)
        &&& self.lines matches Some(v) ==> v@.len() > 0
        &&& self.areas matches Some(v) ==> v@.len() > 0
    }

    /// A geometry of no layer and without properties.
    pub fn new_temp(inner_geom: Geometry) -> (r: RenderedGeometry)
        ensures
            r@.geometry == inner_geom@,
            r@.layer is None,
            r@.props@.len() == 0,
            r@.lines is None,
            r@.areas is None,
            r@.center is None,
    {
        RenderedGeometry::new(None, Properties::new(), inner_geom)
    }

    /// A geometry of the given layer and properties, with nothing worked out
    /// yet.
    pub fn new(layer: Option<String>, props: Properties, inner_geom: Geometry) -> (r:
        RenderedGeometry)
        ensures
            r@.geometry == inner_geom@,
            r@.layer == (match layer {
                Some(name) => Some(name@),
                None => None,
            }),
            r@.props == props,
            r@.lines is None,
            r@.areas is None,
            r@.center is None,
    {
        RenderedGeometry {
            layer,
            props,
            inner_geom,
            center_point: None,
            center_rect: None,
            has_calc_center_point: false,
            lines: None,
            has_calc_lines: false,
            areas: None,
            has_calc_areas: false,
        }
    }

    /// The same feature with its geometry in another projection, as
    /// `project` gives it, and with nothing worked out yet.
    pub fn reprojected<P: Fn(&Geometry) -> Geometry>(&self, project: &P) -> (r: RenderedGeometry)
        requires
            forall|g: &Geometry| project.requires((g,)),
        ensures
            r@.layer == self@.layer,
            r@.props@ == self@.props@,
            projected_by(*project, self@.geometry, r@.geometry),
            r@.lines is None,
            r@.areas is None,
            r@.center is None,
    {
        let layer: Option<String> = match &self.layer {
            Some(name) => Some(name.clone()),
            None => None,
        };
        let geometry = project(&self.inner_geom);
        RenderedGeometry::new(layer, self.props.clone(), geometry)
    }

    /// The geometry itself.
    pub fn geometry(&self) -> (g: &Geometry)
        ensures
            g@ == self@.geometry,
    {
        &self.inner_geom
    }

    /// The properties of the feature that the geometry came from.
    pub fn props(&self) -> (p: &Properties)
        ensures
            *p == self@.props,
    {
        &self.props
    }

    /// Whether a filter takes this geometry: it takes all, or the geometry
    /// has no layer, or the layers are the same.
    pub fn fit_filter(&self, filter: &RenderedGeometryFilter) -> (r: bool)
        ensures
            r == filter_takes(filter@, self@.layer),
    {
        match filter {
            RenderedGeometryFilter::Any => true,
            RenderedGeometryFilter::Layer(other_layer) => {
                if let Some(self_layer) = &self.layer {
                    *self_layer == *other_layer
                } else {
                    true
                }
            },
        }
    }

    /// Forgets the centre point if it was worked out for another rectangle
    /// than the one given. Without a rectangle nothing is forgotten.
    pub fn with_rect(&mut self, rect: Option<Rect>)
        ensures
            final(self)@ == framed(old(self)@, rect),
    {
        proof {
            use_type_invariant(&*self);
        }
        if let Some(supplied) = rect {
            if self.has_calc_center_point {
                let same: bool = match self.center_rect {
                    Some(held) => held == supplied,
                    None => false,
                };
                if !same {
                    self.has_calc_center_point = false;
                }
            }
        }
    }

    /// The line skeleton of the geometry, or none where it has no line. It is
    /// worked out at the first call and remembered.
    pub fn lines(&mut self) -> (r: Option<&Vec<LineString>>)
        ensures
            final(self)@ == (RenderedView {
                lines: Some(lines_of(old(self)@.geometry)),
                ..old(self)@
            }),
            match r {
                Some(v) => v@.len() > 0 && line_views(v@) == lines_of(old(self)@.geometry),
                None => lines_of(old(self)@.geometry).len() == 0,
            },
            populated(old(self)@.geometry) ==> (r is None <==> only_points(old(self)@.geometry)),
    {
        proof {
            use_type_invariant(&*self);
            if populated(self.inner_geom@) {
                lemma_lines_none_iff_only_points(self.inner_geom@);
            }
        }
        if !self.has_calc_lines {
            let lines: Vec<LineString> = get_lines_from_geom(&self.inner_geom);
            let ghost found = line_views(lines@);
            self.lines = if lines.len() > 0 {
                Some(lines)
            } else {
                None
            };
            assert(held_lines(self.lines) =~= found);
            self.has_calc_lines = true;
        }
        self.lines.as_ref()
    }

    /// The areas of the geometry, or none where it has no area. They are
    /// worked out at the first call, each hull as `hull` gives it, and
    /// remembered.
    pub fn areas<H: Fn(&Vec<Coord>) -> Polygon>(&mut self, hull: &H) -> (r: Option<&Vec<Polygon>>)
        requires
            forall|coords: &Vec<Coord>| hull.requires((coords,)),
        ensures
            final(self)@ == (RenderedView {
                areas: Some(shown_areas(r)),
                ..old(self)@
            }),
            r matches Some(v) ==> v@.len() > 0,
            areas_fit(area_sources(old(self)@.geometry), shown_areas(r)),
            match old(self)@.areas {
                Some(held) => shown_areas(r) == held,
                None => areas_follow(
                    area_sources(old(self)@.geometry),
                    *hull,
                    match r {
                        Some(v) => v@,
                        None => Seq::empty(),
                    },
                ),
            },
    {
        proof {
            use_type_invariant(&*self);
        }
        if !self.has_calc_areas {
            let areas: Vec<Polygon> = get_areas_from_geom(&self.inner_geom, hull);
            proof {
                lemma_follow_fits(area_sources(self.inner_geom@), *hull, areas@);
            }
            let ghost found = polygon_views(areas@);
            self.areas = if areas.len() > 0 {
                Some(areas)
            } else {
                None
            };
            assert(held_areas(self.areas) =~= found);
            self.has_calc_areas = true;
        }
        self.areas.as_ref()
    }

    /// The centre point of the geometry, without a rectangle or seen through
    /// one, as [`center_plan`] defines it; none where there is none.
    ///
    /// The point last worked out is remembered with its rectangle and
    /// returned again for the same rectangle. Otherwise a point that needs no
    /// computation is returned as it is, and every other one is asked of
    /// `measure`.
    pub fn center_point<M: Fn(&Measure) -> Option<Coord>>(
        &mut self,
        rect: Option<Rect>,
        measure: &M,
    ) -> (r: Option<Coord>)
        requires
            forall|task: &Measure| measure.requires((task,)),
        ensures
            final(self)@ == (RenderedView { center: Some((rect, r)), ..old(self)@ }),
            center_plan(old(self)@.geometry, rect) matches CenterPlan::Known(c) ==> r == c,
            match old(self)@.center {
                Some((held, point)) if held == rect => r == point,
                _ => center_follows(center_plan(old(self)@.geometry, rect), *measure, r),
            },
    {
        proof {
            use_type_invariant(&*self);
        }
        if self.has_calc_center_point && same_rect(&self.center_rect, &rect) {
            return self.center_point;
        }
        let center: Option<Coord> = find_center(&self.inner_geom, rect, measure);
        self.has_calc_center_point = false;
        self.center_point = center;
        self.center_rect = rect;
        self.has_calc_center_point = true;
        center
    }
}

/// Whether two optional rectangles are the same, corner for corner.
pub fn same_rect(a: &Option<Rect>, b: &Option<Rect>) -> (r: bool)
    ensures
        r == (*a == *b),
{
    match (a, b) {
        (Some(x), Some(y)) => *x == *y,
        (None, None) => true,
        _ => false,
    }
}

/// The centre point of a geometry, without a rectangle or seen through one:
/// the known one where [`center_plan`] knows it, else what `measure` answers
/// to what the plan asks.
pub fn find_center<M: Fn(&Measure) -> Option<Coord>>(
    geom: &Geometry,
    clip: Option<Rect>,
    measure: &M,
) -> (r: Option<Coord>)
    requires
        forall|task: &Measure| measure.requires((task,)),
    ensures
        center_follows(center_plan(geom@, clip), *measure, r),
{
    match clip {
        None => match geom {
            Geometry::Point(point) => Some(*point),
            _ => {
                let task = Measure::Centroid(geom.clone());
                let r = measure(&task);
                assert(center_plan(geom@, clip) == CenterPlan::Ask(MeasureView::Centroid(geom@)));
                assert(center_follows(center_plan(geom@, clip), *measure, r));
                r
            },
        },
        Some(rect) => match geom {
            Geometry::Point(point) => Some(*point),
            Geometry::Line(line) => {
                if rect.intersects(&line.start) {
                    Some(line.start)
                } else if rect.intersects(&line.end) {
                    Some(line.end)
                } else {
                    None
                }
            },
            Geometry::LineString(line_string) => {
                let mut lines: Vec<LineString> = Vec::new();
                lines.push(line_string.clone());
                let task = Measure::ClippedLines(rect.to_polygon(), lines);
                assert(line_views(lines@) =~= seq![line_string@]);
                let r = measure(&task);
                assert(center_follows(center_plan(geom@, clip), *measure, r));
                r
            },
            Geometry::Polygon(polygon) => {
                let mut polygons: Vec<Polygon> = Vec::new();
                polygons.push(polygon.clone());
                let task = Measure::Intersection(rect.to_polygon(), polygons);
                assert(polygon_views(polygons@) =~= seq![polygon@]);
                let r = measure(&task);
                assert(center_follows(center_plan(geom@, clip), *measure, r));
                r
            },
            Geometry::MultiPoint(points) => {
                let kept: Vec<Coord> = points_within(&rect, points);
                let task = Measure::Centroid(Geometry::MultiPoint(kept));
                let r = measure(&task);
                assert(center_follows(center_plan(geom@, clip), *measure, r));
                r
            },
            Geometry::MultiLineString(multi) => {
                let task = Measure::ClippedLines(rect.to_polygon(), clone_lines(multi));
                let r = measure(&task);
                assert(center_follows(center_plan(geom@, clip), *measure, r));
                r
            },
            Geometry::MultiPolygon(multi) => {
                let task = Measure::Intersection(rect.to_polygon(), clone_polygons(multi));
                let r = measure(&task);
                assert(center_follows(center_plan(geom@, clip), *measure, r));
                r
            },
            Geometry::GeometryCollection(members) => {
                let mut centers: Vec<Coord> = Vec::new();
                let ghost mut answers: Seq<Option<Coord>> = Seq::empty();
                let mut i: usize = 0;
                proof {
                    lemma_collection_view(*geom);
                }
                while i < members.len()
                    invariant
                        i <= members.len(),
                        forall|task: &Measure| measure.requires((task,)),
                        answers.len() == i,
                        centers@ == answers.map_values(|a| or_origin(a)),
                        forall|k: int|
                            0 <= k < i ==> member_answer(
                                *measure,
                                geometry_views(members@)[k],
                                #[trigger] answers[k],
                            ),
                    decreases members.len() - i,
                {
                    let task = Measure::Centroid(members[i].clone());
                    let answer: Option<Coord> = measure(&task);
                    let point: Coord = match answer {
                        Some(c) => c,
                        None => Coord { x: 0, y: 0 },
                    };
                    centers.push(point);
                    proof {
                        let before = answers;
                        answers = answers.push(answer);
                        assert(centers@ =~= answers.map_values(|a| or_origin(a)));
                        assert forall|k: int| 0 <= k < i + 1 implies member_answer(
                            *measure,
                            geometry_views(members@)[k],
                            #[trigger] answers[k],
                        ) by {
                            if k < i {
                                assert(answers[k] == before[k]);
                            }
                        }
                    }
                    i += 1;
                }
                let kept: Vec<Coord> = points_within(&rect, &centers);
                let task = Measure::Centroid(Geometry::MultiPoint(kept));
                let r = measure(&task);
                proof {
                    lemma_collection_view(*geom);
                }
                assert(members_follow(
                    *measure,
                    rect,
                    geometry_views(members@),
                    answers,
                    task,
                    r,
                ));
                assert(answers_to_members(*measure, rect, geometry_views(members@), r));
                assert(center_follows(center_plan(geom@, clip), *measure, r));
                r
            },
            Geometry::Rect(other) => {
                let mut polygons: Vec<Polygon> = Vec::new();
                polygons.push(other.to_polygon());
                let task = Measure::Intersection(rect.to_polygon(), polygons);
                assert(polygon_views(polygons@) =~= seq![rect_polygon(*other)]);
                let r = measure(&task);
                assert(center_follows(center_plan(geom@, clip), *measure, r));
                r
            },
            Geometry::Triangle(triangle) => {
                let mut polygons: Vec<Polygon> = Vec::new();
                polygons.push(triangle.to_polygon());
                let task = Measure::Intersection(rect.to_polygon(), polygons);
                assert(polygon_views(polygons@) =~= seq![triangle_polygon(*triangle)]);
                let r = measure(&task);
                assert(center_follows(center_plan(geom@, clip), *measure, r));
                r
            },
        },
    }
}

} // verus!
