use geello::geometry::{Coord, Geometry, Line, LineString, Polygon, Rect, Triangle};
use geello::magic_value::{PropValue, Properties};
use geello::rendered_geometry::{
    all_coords, find_center, get_areas_from_geom, points_within, same_rect, Measure,
    RenderedGeometry,
};
use geello::renderer::geometry_renderer::RenderedGeometryFilter;
use geo::{BooleanOps, Centroid, ConvexHull};
use std::cell::Cell;

fn c(x: f64, y: f64) -> Coord {
    Coord::new(x.to_bits(), y.to_bits())
}

fn ls(points: &[(f64, f64)]) -> LineString {
    LineString::new(points.iter().map(|p| c(p.0, p.1)).collect())
}

fn to_geo_line(line: &LineString) -> geo::LineString {
    geo::LineString::from(
        line.0.iter().map(|p| (f64::from_bits(p.x), f64::from_bits(p.y))).collect::<Vec<_>>(),
    )
}

fn to_geo_polygon(polygon: &Polygon) -> geo::Polygon {
    geo::Polygon::new(
        to_geo_line(&polygon.exterior),
        polygon.interiors.iter().map(to_geo_line).collect(),
    )
}

fn from_geo_line(line: &geo::LineString) -> LineString {
    LineString::new(line.0.iter().map(|p| c(p.x, p.y)).collect())
}

fn from_geo_polygon(polygon: &geo::Polygon) -> Polygon {
    Polygon {
        exterior: from_geo_line(polygon.exterior()),
        interiors: polygon.interiors().iter().map(from_geo_line).collect(),
    }
}

fn to_geo(geometry: &Geometry) -> geo::Geometry {
    let p = |c: &Coord| geo::Coord { x: f64::from_bits(c.x), y: f64::from_bits(c.y) };
    match geometry {
        Geometry::Point(a) => geo::Geometry::Point(geo::Point(p(a))),
        Geometry::Line(l) => geo::Geometry::Line(geo::Line::new(p(&l.start), p(&l.end))),
        Geometry::LineString(l) => geo::Geometry::LineString(to_geo_line(l)),
        Geometry::Polygon(a) => geo::Geometry::Polygon(to_geo_polygon(a)),
        Geometry::MultiPoint(v) => {
            geo::Geometry::MultiPoint(geo::MultiPoint(v.iter().map(|a| geo::Point(p(a))).collect()))
        }
        Geometry::MultiLineString(v) => {
            geo::Geometry::MultiLineString(geo::MultiLineString(v.iter().map(to_geo_line).collect()))
        }
        Geometry::MultiPolygon(v) => {
            geo::Geometry::MultiPolygon(geo::MultiPolygon(v.iter().map(to_geo_polygon).collect()))
        }
        Geometry::GeometryCollection(v) => geo::Geometry::GeometryCollection(
            geo::GeometryCollection(v.iter().map(to_geo).collect()),
        ),
        Geometry::Rect(r) => geo::Geometry::Rect(geo::Rect::new(p(&r.min), p(&r.max))),
        Geometry::Triangle(t) => {
            geo::Geometry::Triangle(geo::Triangle::new(p(&t.0), p(&t.1), p(&t.2)))
        }
    }
}

fn hull(coords: &Vec<Coord>) -> Polygon {
    from_geo_polygon(&to_geo_line(&LineString::new(coords.clone())).convex_hull())
}

fn measure(task: &Measure) -> Option<Coord> {
    let point = match task {
        Measure::Centroid(geometry) => to_geo(geometry).centroid(),
        Measure::ClippedLines(mask, lines) => {
            let lines = geo::MultiLineString(lines.iter().map(to_geo_line).collect());
            to_geo_polygon(mask).clip(&lines, false).centroid()
        }
        Measure::Intersection(mask, polygons) => {
            let polygons = geo::MultiPolygon(polygons.iter().map(to_geo_polygon).collect());
            to_geo_polygon(mask).intersection(&polygons).centroid()
        }
    };
    point.map(|p| c(p.x(), p.y()))
}

fn copy_of(task: &Measure) -> Measure {
    match task {
        Measure::Centroid(g) => Measure::Centroid(g.clone()),
        Measure::ClippedLines(m, l) => Measure::ClippedLines(m.clone(), l.clone()),
        Measure::Intersection(m, p) => Measure::Intersection(m.clone(), p.clone()),
    }
}

fn never(_: &Measure) -> Option<Coord> {
    panic!("nothing is to be measured here")
}

fn square() -> Polygon {
    Polygon::new(ls(&[(0.0, 0.0), (4.0, 0.0), (4.0, 4.0), (0.0, 4.0), (0.0, 0.0)]), vec![])
}

#[test]
fn a_point_has_neither_lines_nor_areas() {
    let mut g = RenderedGeometry::new_temp(Geometry::Point(c(1.0, 2.0)));
    assert!(g.lines().is_none());
    assert!(g.areas(&hull).is_none());
}

#[test]
fn lines_are_remembered() {
    let mut g = RenderedGeometry::new_temp(Geometry::Polygon(square()));
    let first = g.lines().cloned();
    let second = g.lines().cloned();
    assert_eq!(first, second);
    assert_eq!(first.unwrap().len(), 1);
}

#[test]
fn a_polygon_is_its_own_area() {
    let mut g = RenderedGeometry::new_temp(Geometry::Polygon(square()));
    let asked = Cell::new(0);
    let counting = |coords: &Vec<Coord>| {
        asked.set(asked.get() + 1);
        hull(coords)
    };
    assert_eq!(g.areas(&counting), Some(&vec![square()]));
    assert_eq!(asked.get(), 0);
}

#[test]
fn a_multi_polygon_of_n_members_has_n_areas() {
    for n in 0..4usize {
        let members: Vec<Polygon> = (0..n).map(|_| square()).collect();
        let areas = get_areas_from_geom(&Geometry::MultiPolygon(members.clone()), &hull);
        assert_eq!(areas, members);
    }
}

#[test]
fn the_area_of_a_segment_is_its_bounding_rect() {
    let line = Line::new(c(3.0, 1.0), c(1.0, 4.0));
    let areas = get_areas_from_geom(&Geometry::Line(line), &hull);
    assert_eq!(areas, vec![Rect::new(c(1.0, 1.0), c(3.0, 4.0)).to_polygon()]);
}

#[test]
fn the_area_of_a_chain_is_its_hull() {
    let chain = ls(&[(0.0, 0.0), (2.0, 0.0), (1.0, 1.0), (2.0, 2.0), (0.0, 2.0)]);
    let areas = get_areas_from_geom(&Geometry::LineString(chain.clone()), &hull);
    assert_eq!(areas, vec![hull(&chain.0)]);
}

#[test]
fn the_area_of_a_multi_chain_is_one_hull_of_all_its_positions() {
    let lines = vec![ls(&[(0.0, 0.0), (2.0, 0.0)]), ls(&[(2.0, 2.0), (0.0, 2.0)])];
    let asked = Cell::new(Vec::new());
    let recording = |coords: &Vec<Coord>| {
        asked.set(coords.clone());
        hull(coords)
    };
    let areas = get_areas_from_geom(&Geometry::MultiLineString(lines.clone()), &recording);
    assert_eq!(areas.len(), 1);
    assert_eq!(asked.take(), vec![c(0.0, 0.0), c(2.0, 0.0), c(2.0, 2.0), c(0.0, 2.0)]);
    assert_eq!(all_coords(&lines), vec![c(0.0, 0.0), c(2.0, 0.0), c(2.0, 2.0), c(0.0, 2.0)]);
}

#[test]
fn a_rect_and_a_triangle_become_polygons() {
    let rect = Rect::new(c(0.0, 0.0), c(2.0, 1.0));
    let triangle = Triangle::new(c(0.0, 0.0), c(4.0, 0.0), c(0.0, 3.0));
    assert_eq!(get_areas_from_geom(&Geometry::Rect(rect), &hull), vec![rect.to_polygon()]);
    assert_eq!(
        get_areas_from_geom(&Geometry::Triangle(triangle), &hull),
        vec![triangle.to_polygon()]
    );
}

#[test]
fn the_areas_of_a_collection_are_those_of_its_members_in_order() {
    let rect = Rect::new(c(0.0, 0.0), c(2.0, 1.0));
    let chain = ls(&[(0.0, 0.0), (2.0, 0.0), (1.0, 1.0)]);
    let collection = Geometry::GeometryCollection(vec![
        Geometry::Rect(rect),
        Geometry::Point(c(1.0, 1.0)),
        Geometry::LineString(chain.clone()),
        Geometry::Polygon(square()),
    ]);
    assert_eq!(
        get_areas_from_geom(&collection, &hull),
        vec![rect.to_polygon(), hull(&chain.0), square()]
    );
}

#[test]
fn areas_are_worked_out_once() {
    let chain = ls(&[(0.0, 0.0), (2.0, 0.0), (1.0, 1.0)]);
    let mut g = RenderedGeometry::new_temp(Geometry::LineString(chain));
    let asked = Cell::new(0);
    let counting = |coords: &Vec<Coord>| {
        asked.set(asked.get() + 1);
        hull(coords)
    };
    let first = g.areas(&counting).cloned();
    let second = g.areas(&counting).cloned();
    assert_eq!(first, second);
    assert_eq!(asked.get(), 1);
}

#[test]
fn the_centre_of_a_point_is_the_point() {
    for (x, y) in [(1.0, 2.0), (-0.0, 0.0), (1e308, -1e308), (5e-324, 180.0)] {
        let mut g = RenderedGeometry::new_temp(Geometry::Point(c(x, y)));
        assert_eq!(g.center_point(None, &never), Some(c(x, y)));
        let rect = Rect::new(c(100.0, 100.0), c(101.0, 101.0));
        assert_eq!(g.center_point(Some(rect), &never), Some(c(x, y)));
    }
}

#[test]
fn the_centre_of_a_point_is_what_geo_gives() {
    let point = Geometry::Point(c(3.5, -2.25));
    assert_eq!(find_center(&point, None, &never), measure(&Measure::Centroid(point.clone())));
}

#[test]
fn a_segment_is_stood_for_by_the_end_in_the_rect() {
    let rect = Rect::new(c(0.0, 0.0), c(2.0, 2.0));
    let both = Geometry::Line(Line::new(c(1.0, 1.0), c(2.0, 2.0)));
    let end_only = Geometry::Line(Line::new(c(5.0, 5.0), c(2.0, 2.0)));
    let neither = Geometry::Line(Line::new(c(5.0, 5.0), c(-1.0, -1.0)));
    assert_eq!(find_center(&both, Some(rect), &never), Some(c(1.0, 1.0)));
    assert_eq!(find_center(&end_only, Some(rect), &never), Some(c(2.0, 2.0)));
    assert_eq!(find_center(&neither, Some(rect), &never), None);
}

#[test]
fn the_centre_without_a_rect_is_the_centroid() {
    let mut g = RenderedGeometry::new_temp(Geometry::Polygon(square()));
    assert_eq!(g.center_point(None, &measure), Some(c(2.0, 2.0)));
}

#[test]
fn a_polygon_is_intersected_with_the_rect() {
    let rect = Rect::new(c(2.0, 0.0), c(6.0, 4.0));
    let mut g = RenderedGeometry::new_temp(Geometry::Polygon(square()));
    assert_eq!(g.center_point(Some(rect), &measure), Some(c(3.0, 2.0)));
    let away = Rect::new(c(10.0, 10.0), c(11.0, 11.0));
    assert_eq!(g.center_point(Some(away), &measure), None);
}

#[test]
fn what_is_asked_for_a_polygon_is_the_rect_as_polygon_and_the_polygon() {
    let rect = Rect::new(c(2.0, 0.0), c(6.0, 4.0));
    let asked = Cell::new(None);
    let recording = |task: &Measure| {
        asked.set(Some(copy_of(task)));
        None
    };
    assert_eq!(find_center(&Geometry::Polygon(square()), Some(rect), &recording), None);
    assert_eq!(asked.take(), Some(Measure::Intersection(rect.to_polygon(), vec![square()])));
}

#[test]
fn a_chain_is_clipped_by_the_rect() {
    let rect = Rect::new(c(0.0, 0.0), c(2.0, 2.0));
    let chain = Geometry::LineString(ls(&[(1.0, 1.0), (5.0, 1.0)]));
    assert_eq!(find_center(&chain, Some(rect), &measure), Some(c(1.5, 1.0)));
}

#[test]
fn of_a_multi_point_the_points_strictly_inside_are_kept() {
    let rect = Rect::new(c(0.0, 0.0), c(4.0, 4.0));
    let points = vec![c(1.0, 1.0), c(0.0, 2.0), c(3.0, 3.0), c(9.0, 9.0)];
    assert_eq!(points_within(&rect, &points), vec![c(1.0, 1.0), c(3.0, 3.0)]);
    let multi = Geometry::MultiPoint(points);
    assert_eq!(find_center(&multi, Some(rect), &measure), Some(c(2.0, 2.0)));
}

#[test]
fn of_a_collection_the_centroids_inside_the_rect_are_kept() {
    let rect = Rect::new(c(0.0, 0.0), c(4.0, 4.0));
    let collection = Geometry::GeometryCollection(vec![
        Geometry::Point(c(1.0, 1.0)),
        Geometry::Point(c(3.0, 1.0)),
        Geometry::Point(c(9.0, 9.0)),
    ]);
    assert_eq!(find_center(&collection, Some(rect), &measure), Some(c(2.0, 1.0)));
}

#[test]
fn a_member_without_centroid_counts_as_the_origin() {
    let rect = Rect::new(c(-1.0, -1.0), c(1.0, 1.0));
    let collection = Geometry::GeometryCollection(vec![Geometry::MultiPoint(vec![])]);
    assert_eq!(find_center(&collection, Some(rect), &measure), Some(c(0.0, 0.0)));
}

#[test]
fn the_centre_is_remembered_for_its_rect() {
    let mut g = RenderedGeometry::new_temp(Geometry::Polygon(square()));
    let asked = Cell::new(0);
    let counting = |task: &Measure| {
        asked.set(asked.get() + 1);
        measure(task)
    };
    let rect = Rect::new(c(2.0, 0.0), c(6.0, 4.0));
    assert_eq!(g.center_point(None, &counting), Some(c(2.0, 2.0)));
    assert_eq!(g.center_point(None, &counting), Some(c(2.0, 2.0)));
    assert_eq!(asked.get(), 1);
    assert_eq!(g.center_point(Some(rect), &counting), Some(c(3.0, 2.0)));
    assert_eq!(g.center_point(Some(rect), &counting), Some(c(3.0, 2.0)));
    assert_eq!(asked.get(), 2);
}

#[test]
fn a_new_rect_makes_the_centre_forgotten() {
    let mut g = RenderedGeometry::new_temp(Geometry::Polygon(square()));
    let asked = Cell::new(0);
    let counting = |task: &Measure| {
        asked.set(asked.get() + 1);
        measure(task)
    };
    let rect = Rect::new(c(2.0, 0.0), c(6.0, 4.0));
    g.center_point(Some(rect), &counting);
    g.with_rect(Some(rect));
    g.center_point(Some(rect), &counting);
    assert_eq!(asked.get(), 1);
    g.with_rect(None);
    g.center_point(Some(rect), &counting);
    assert_eq!(asked.get(), 1);
    g.with_rect(Some(Rect::new(c(0.0, 0.0), c(1.0, 1.0))));
    g.center_point(Some(rect), &counting);
    assert_eq!(asked.get(), 2);
}

#[test]
fn rects_are_the_same_corner_for_corner() {
    let a = Rect::new(c(0.0, 0.0), c(1.0, 1.0));
    let b = Rect::new(c(0.0, 0.0), c(1.0, 2.0));
    assert!(same_rect(&Some(a), &Some(a)));
    assert!(!same_rect(&Some(a), &Some(b)));
    assert!(!same_rect(&Some(a), &None));
    assert!(same_rect(&None, &None));
}

#[test]
fn a_filter_takes_its_layer_and_what_has_none() {
    let mut props = Properties::new();
    props.insert("name".to_string(), PropValue::String("A".to_string()));
    let roads = RenderedGeometry::new(
        Some("roads".to_string()),
        props,
        Geometry::Point(c(0.0, 0.0)),
    );
    let loose = RenderedGeometry::new_temp(Geometry::Point(c(0.0, 0.0)));
    let any = RenderedGeometryFilter::Any;
    let of_roads = RenderedGeometryFilter::Layer("roads".to_string());
    let of_rivers = RenderedGeometryFilter::Layer("rivers".to_string());
    assert!(roads.fit_filter(&any));
    assert!(roads.fit_filter(&of_roads));
    assert!(!roads.fit_filter(&of_rivers));
    assert!(loose.fit_filter(&of_rivers));
    assert_eq!(roads.props().entries.len(), 1);
    assert_eq!(roads.geometry(), &Geometry::Point(c(0.0, 0.0)));
}

#[test]
fn a_rect_without_area_gives_no_centre_for_a_polygon() {
    let mut g = RenderedGeometry::new_temp(Geometry::Polygon(square()));
    let inside = Rect::new(c(2.0, 2.0), c(2.0, 2.0));
    assert_eq!(g.center_point(Some(inside), &measure), None);
    let away = Rect::new(c(9.0, 9.0), c(9.0, 9.0));
    assert_eq!(find_center(&Geometry::Polygon(square()), Some(away), &measure), None);
    let sliver = Rect::new(c(1.0, 0.0), c(1.0, 4.0));
    assert_eq!(find_center(&Geometry::Polygon(square()), Some(sliver), &measure), None);
}
