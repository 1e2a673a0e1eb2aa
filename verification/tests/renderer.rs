use geello::geometry::{Coord, Geometry, LineString, Polygon, Rect};
use geello::magic_value::{
    Loader, MagicValue, MagicValueKind, PropValue, Properties, Reference, StrEncoding,
};
use geello::paint::{Cap, Join, Stroke, MITER_LIMIT};
use geello::render::render_to_texture;
use geello::render_option::{RenderOption, RenderRegion, TileProj};
use geello::rendered_geometry::{Measure, RenderedGeometry};
use geello::renderer::area_renderer::{AreaRenderer, LineKind, RingRenderers};
use geello::renderer::geometry_renderer::{expand_area, GeometryRenderer, RenderedGeometryFilter};
use geello::renderer::line_renderer::{LineRenderer, NodeKind, NodeRenderers};
use geello::renderer::point_renderer::{PointRenderer, ONE_TENTH};
use geello::resolve::StyleSource;
use geello::scene::{push_path, settle_radii, DrawOp, PathEl};
use peniko::color::palette::css;
use peniko::Brush;

struct Texts;

impl Loader<PropValue> for Texts {
    fn load(&self, reference: &Reference) -> Result<MagicValue<PropValue>, String> {
        match reference {
            Reference::Property(_, value, StrEncoding::Ron) => Ok(MagicValue::new(value.clone())),
            other => Err(format!("nothing at {other:?}")),
        }
    }
}

impl Loader<Brush> for Texts {
    fn load(&self, reference: &Reference) -> Result<MagicValue<Brush>, String> {
        match reference {
            Reference::Property(_, PropValue::String(name), _) if name == "red" => {
                Ok(MagicValue::new(Brush::Solid(css::RED)))
            }
            other => Err(format!("nothing at {other:?}")),
        }
    }
}

impl Loader<Stroke> for Texts {
    fn load(&self, reference: &Reference) -> Result<MagicValue<Stroke>, String> {
        Err(format!("nothing at {reference:?}"))
    }
}

impl Loader<RenderedGeometryFilter> for Texts {
    fn load(&self, reference: &Reference) -> Result<MagicValue<RenderedGeometryFilter>, String> {
        Err(format!("nothing at {reference:?}"))
    }
}

impl Loader<PointRenderer> for Texts {
    fn load(&self, reference: &Reference) -> Result<MagicValue<PointRenderer>, String> {
        match reference {
            Reference::File(path, _) if path == "dot.ron" => Ok(MagicValue::new(dot(3.0, css::RED))),
            other => Err(format!("nothing at {other:?}")),
        }
    }
}

impl Loader<LineRenderer> for Texts {
    fn load(&self, reference: &Reference) -> Result<MagicValue<LineRenderer>, String> {
        Err(format!("nothing at {reference:?}"))
    }
}

impl Loader<AreaRenderer> for Texts {
    fn load(&self, reference: &Reference) -> Result<MagicValue<AreaRenderer>, String> {
        Err(format!("nothing at {reference:?}"))
    }
}

impl Loader<RingRenderers> for Texts {
    fn load(&self, reference: &Reference) -> Result<MagicValue<RingRenderers>, String> {
        Err(format!("nothing at {reference:?}"))
    }
}

impl Loader<GeometryRenderer> for Texts {
    fn load(&self, reference: &Reference) -> Result<MagicValue<GeometryRenderer>, String> {
        match reference {
            Reference::File(path, _) if path == "dots.ron" => {
                Ok(MagicValue::new(points(dot(4.0, css::BLUE))))
            }
            other => Err(format!("nothing at {other:?}")),
        }
    }
}

impl StyleSource for Texts {}

fn c(x: f64, y: f64) -> Coord {
    Coord::new(x.to_bits(), y.to_bits())
}

fn ls(points: &[(f64, f64)]) -> LineString {
    LineString::new(points.iter().map(|p| c(p.0, p.1)).collect())
}

fn square() -> Polygon {
    Polygon::new(ls(&[(0.0, 0.0), (4.0, 0.0), (4.0, 4.0), (0.0, 4.0), (0.0, 0.0)]), vec![])
}

fn holed() -> Polygon {
    Polygon::new(
        ls(&[(0.0, 0.0), (9.0, 0.0), (9.0, 9.0), (0.0, 0.0)]),
        vec![ls(&[(1.0, 1.0), (2.0, 1.0), (1.0, 1.0)]), ls(&[(5.0, 5.0), (6.0, 5.0), (5.0, 5.0)])],
    )
}

fn dot(radius: f64, color: peniko::Color) -> PointRenderer {
    PointRenderer {
        radius: MagicValue::new(PropValue::Float64(radius.to_bits())),
        brush: MagicValue::new(Brush::Solid(color)),
        must_show: MagicValue::new(PropValue::Boolean(false)),
    }
}

fn points(renderer: PointRenderer) -> GeometryRenderer {
    GeometryRenderer::Point(MagicValue::new(RenderedGeometryFilter::Any), MagicValue::new(renderer))
}

fn lines(renderer: LineRenderer) -> GeometryRenderer {
    GeometryRenderer::Line(MagicValue::new(RenderedGeometryFilter::Any), MagicValue::new(renderer))
}

fn areas(renderer: AreaRenderer) -> GeometryRenderer {
    GeometryRenderer::Area(MagicValue::new(RenderedGeometryFilter::Any), MagicValue::new(renderer))
}

fn pen(width: f64, color: peniko::Color) -> LineRenderer {
    LineRenderer {
        stroke: MagicValue::new(Stroke::new(width.to_bits())),
        brush: MagicValue::new(Brush::Solid(color)),
        node_renderers: NodeRenderers::new(),
    }
}

fn fill(color: peniko::Color) -> AreaRenderer {
    AreaRenderer {
        brush: MagicValue::new(Brush::Solid(color)),
        line_renderers: MagicValue::new(RingRenderers::new()),
    }
}

fn circle(x: f64, y: f64, radius: f64, color: peniko::Color) -> DrawOp {
    DrawOp::FillCircle {
        center: c(x, y),
        radius: PropValue::Float64(radius.to_bits()),
        brush: Brush::Solid(color),
    }
}

fn stroke(line: &LineString, width: f64, color: peniko::Color) -> DrawOp {
    DrawOp::StrokePath {
        path: LineRenderer::to_shape(line),
        stroke: Stroke::new(width.to_bits()),
        brush: Brush::Solid(color),
    }
}

fn corner_box(coords: &Vec<Coord>) -> Polygon {
    let first = coords.first().copied().unwrap_or(c(0.0, 0.0));
    let last = coords.last().copied().unwrap_or(c(0.0, 0.0));
    Rect::new(first, last).to_polygon()
}

fn first_position(task: &Measure) -> Option<Coord> {
    match task {
        Measure::Centroid(Geometry::LineString(line)) => line.0.first().copied(),
        Measure::Centroid(Geometry::Polygon(polygon)) => polygon.exterior.0.first().copied(),
        Measure::Intersection(_, polygons) => polygons.first()?.exterior.0.first().copied(),
        _ => None,
    }
}

fn no_number(value: &PropValue) -> Result<u64, String> {
    match value {
        PropValue::Int32(n) => Ok((*n as f64).to_bits()),
        PropValue::String(text) => text
            .parse::<f64>()
            .map(f64::to_bits)
            .map_err(|e| format!("Convert from string error: {e}")),
        other => panic!("{other:?} is not asked"),
    }
}

fn frame(_: &RenderRegion, _: &TileProj) -> Rect {
    Rect::new(c(-180.0, -90.0), c(0.0, 90.0))
}

#[test]
fn the_path_along_a_chain_is_closed() {
    assert_eq!(
        LineRenderer::to_shape(&ls(&[(0.0, 0.0), (1.0, 0.0), (1.0, 1.0)])),
        vec![
            PathEl::MoveTo(c(0.0, 0.0)),
            PathEl::LineTo(c(1.0, 0.0)),
            PathEl::LineTo(c(1.0, 1.0)),
            PathEl::ClosePath,
        ]
    );
    assert_eq!(
        LineRenderer::to_shape(&ls(&[(2.0, 3.0)])),
        vec![PathEl::MoveTo(c(2.0, 3.0)), PathEl::ClosePath]
    );
    assert_eq!(LineRenderer::to_shape(&ls(&[])), vec![]);
}

#[test]
fn paths_are_appended_one_after_the_other() {
    let mut path = vec![PathEl::ClosePath];
    push_path(&mut path, &ls(&[(2.0, 3.0)]));
    push_path(&mut path, &ls(&[]));
    assert_eq!(path, vec![PathEl::ClosePath, PathEl::MoveTo(c(2.0, 3.0)), PathEl::ClosePath]);
}

#[test]
fn the_path_of_a_polygon_is_that_of_all_its_rings() {
    let polygon = holed();
    let mut expected = LineRenderer::to_shape(&polygon.exterior);
    expected.extend(LineRenderer::to_shape(&polygon.interiors[0]));
    expected.extend(LineRenderer::to_shape(&polygon.interiors[1]));
    assert_eq!(AreaRenderer::to_shape(&polygon), expected);
    assert_eq!(AreaRenderer::to_shape(&square()).len(), 6);
}

#[test]
fn the_default_renderers_have_the_customary_paints() {
    let point = PointRenderer::default();
    assert_eq!(point.radius, MagicValue::new(PropValue::Float64(0.1f64.to_bits())));
    assert_eq!(point.brush, MagicValue::new(Brush::Solid(css::LIGHT_YELLOW)));
    assert_eq!(point.must_show, MagicValue::new(PropValue::Boolean(false)));
    assert_eq!(ONE_TENTH, 0.1f64.to_bits());
    let line = LineRenderer::default();
    assert_eq!(line.brush, MagicValue::new(Brush::Solid(css::AQUA)));
    assert_eq!(line.stroke.inner, Stroke::new(0.1f64.to_bits()));
    assert_eq!(line.node_renderers.len(), 0);
    let area = AreaRenderer::default();
    assert_eq!(area.brush, MagicValue::new(Brush::Solid(css::SEA_GREEN)));
    assert_eq!(area.line_renderers.inner, RingRenderers::default());
    assert_eq!(GeometryRenderer::default(), points(PointRenderer::default()));
    assert_eq!(RenderedGeometryFilter::default(), RenderedGeometryFilter::Any);
}

#[test]
fn a_new_stroke_is_solid_and_round() {
    let stroke = Stroke::new(2.0f64.to_bits());
    assert_eq!(stroke.width, 2.0f64.to_bits());
    assert_eq!(stroke.join, Join::Round);
    assert_eq!(stroke.start_cap, Cap::Round);
    assert_eq!(stroke.end_cap, Cap::Round);
    assert_eq!(stroke.miter_limit, 4.0f64.to_bits());
    assert_eq!(MITER_LIMIT, 4.0f64.to_bits());
    assert!(stroke.dash_pattern.is_empty());
    assert_eq!(stroke.dash_offset, 0.0f64.to_bits());
    assert_eq!(stroke.clone(), stroke);
}

#[test]
fn a_point_is_drawn_as_a_circle() {
    assert_eq!(dot(2.0, css::RED).circle(&c(1.0, 5.0)), circle(1.0, 5.0, 2.0, css::RED));
    assert_eq!(
        dot(2.0, css::RED).draw(&c(1.0, 5.0), &no_number),
        Ok(circle(1.0, 5.0, 2.0, css::RED))
    );
}

#[test]
fn a_chain_without_node_renderers_is_one_stroke() {
    let line = ls(&[(0.0, 0.0), (1.0, 0.0), (2.0, 0.0)]);
    assert_eq!(pen(0.5, css::AQUA).draw(&line), vec![stroke(&line, 0.5, css::AQUA)]);
}

#[test]
fn positions_are_marked_by_the_part_they_play() {
    let mut renderer = pen(0.5, css::AQUA);
    renderer.node_renderers.all.push(MagicValue::new(points(dot(1.0, css::WHITE))));
    renderer.node_renderers.mid.push(MagicValue::new(points(dot(2.0, css::GRAY))));
    renderer.node_renderers.start.push(MagicValue::new(points(dot(3.0, css::GREEN))));
    renderer.node_renderers.end.push(MagicValue::new(points(dot(4.0, css::RED))));
    assert_eq!(renderer.node_renderers.len(), 4);
    assert_eq!(renderer.node_renderers.get(NodeKind::Start).len(), 1);
    let line = ls(&[(0.0, 0.0), (1.0, 0.0), (2.0, 0.0), (3.0, 0.0)]);
    assert_eq!(
        renderer.draw(&line),
        vec![
            stroke(&line, 0.5, css::AQUA),
            circle(0.0, 0.0, 1.0, css::WHITE),
            circle(0.0, 0.0, 3.0, css::GREEN),
            circle(1.0, 0.0, 1.0, css::WHITE),
            circle(1.0, 0.0, 2.0, css::GRAY),
            circle(2.0, 0.0, 1.0, css::WHITE),
            circle(2.0, 0.0, 2.0, css::GRAY),
            circle(3.0, 0.0, 1.0, css::WHITE),
            circle(3.0, 0.0, 4.0, css::RED),
        ]
    );
}

#[test]
fn the_only_position_of_a_chain_is_first_and_last() {
    let mut renderer = pen(0.5, css::AQUA);
    renderer.node_renderers.mid.push(MagicValue::new(points(dot(2.0, css::GRAY))));
    renderer.node_renderers.start.push(MagicValue::new(points(dot(3.0, css::GREEN))));
    renderer.node_renderers.end.push(MagicValue::new(points(dot(4.0, css::RED))));
    let line = ls(&[(7.0, 7.0)]);
    assert_eq!(
        renderer.draw(&line),
        vec![
            stroke(&line, 0.5, css::AQUA),
            circle(7.0, 7.0, 3.0, css::GREEN),
            circle(7.0, 7.0, 4.0, css::RED),
        ]
    );
    let none = ls(&[]);
    assert_eq!(renderer.draw(&none), vec![stroke(&none, 0.5, css::AQUA)]);
}

#[test]
fn only_point_renderers_mark_a_position() {
    let mut renderer = pen(0.5, css::AQUA);
    renderer.node_renderers.all.push(MagicValue::new(lines(pen(9.0, css::RED))));
    renderer.node_renderers.all.push(MagicValue::new(areas(fill(css::RED))));
    renderer.node_renderers.all.push(MagicValue::new(points(dot(1.0, css::WHITE))));
    let line = ls(&[(7.0, 7.0)]);
    assert_eq!(
        renderer.draw(&line),
        vec![stroke(&line, 0.5, css::AQUA), circle(7.0, 7.0, 1.0, css::WHITE)]
    );
}

#[test]
fn several_chains_are_drawn_in_order() {
    let renderer = pen(0.5, css::AQUA);
    let a = ls(&[(0.0, 0.0), (1.0, 0.0)]);
    let b = ls(&[(5.0, 5.0), (6.0, 5.0)]);
    assert_eq!(
        renderer.draw_multi(&vec![a.clone(), b.clone()]),
        vec![stroke(&a, 0.5, css::AQUA), stroke(&b, 0.5, css::AQUA)]
    );
    assert_eq!(renderer.draw_multi(&vec![]), vec![]);
}

#[test]
fn a_polygon_is_filled_before_its_rings_are_drawn() {
    let mut renderer = fill(css::SEA_GREEN);
    renderer.line_renderers.inner.interior.push(MagicValue::new(lines(pen(1.0, css::RED))));
    renderer.line_renderers.inner.all.push(MagicValue::new(lines(pen(2.0, css::WHITE))));
    renderer.line_renderers.inner.exterior.push(MagicValue::new(lines(pen(3.0, css::BLUE))));
    assert_eq!(renderer.line_renderers.inner.get(LineKind::Interior).len(), 1);
    let polygon = holed();
    assert_eq!(
        renderer.draw(&polygon),
        vec![
            DrawOp::FillPath {
                path: AreaRenderer::to_shape(&polygon),
                brush: Brush::Solid(css::SEA_GREEN)
            },
            stroke(&polygon.exterior, 2.0, css::WHITE),
            stroke(&polygon.interiors[0], 2.0, css::WHITE),
            stroke(&polygon.interiors[1], 2.0, css::WHITE),
            stroke(&polygon.exterior, 3.0, css::BLUE),
            stroke(&polygon.interiors[0], 1.0, css::RED),
            stroke(&polygon.interiors[1], 1.0, css::RED),
        ]
    );
}

#[test]
fn what_needs_the_centroid_or_the_hull_of_a_ring_is_put_off() {
    let mut renderer = fill(css::SEA_GREEN);
    renderer.line_renderers.inner.exterior.push(MagicValue::new(lines(pen(3.0, css::BLUE))));
    renderer.line_renderers.inner.exterior.push(MagicValue::new(points(dot(1.0, css::RED))));
    renderer.line_renderers.inner.interior.push(MagicValue::new(areas(fill(css::WHITE))));
    let polygon = holed();
    let planned = renderer.draw(&polygon);
    assert_eq!(
        planned[1..],
        [
            stroke(&polygon.exterior, 3.0, css::BLUE),
            DrawOp::Nested { kind: LineKind::Exterior, index: 1, ring: polygon.exterior.clone() },
            DrawOp::Nested {
                kind: LineKind::Interior,
                index: 0,
                ring: polygon.interiors[0].clone()
            },
            DrawOp::Nested {
                kind: LineKind::Interior,
                index: 0,
                ring: polygon.interiors[1].clone()
            },
        ]
    );
    let expanded = expand_area(&renderer, &planned, &corner_box, &first_position);
    let first_hole = corner_box(&polygon.interiors[0].0);
    let second_hole = corner_box(&polygon.interiors[1].0);
    assert_eq!(
        expanded[1..],
        [
            stroke(&polygon.exterior, 3.0, css::BLUE),
            circle(0.0, 0.0, 1.0, css::RED),
            DrawOp::FillPath {
                path: AreaRenderer::to_shape(&first_hole),
                brush: Brush::Solid(css::WHITE)
            },
            DrawOp::FillPath {
                path: AreaRenderer::to_shape(&second_hole),
                brush: Brush::Solid(css::WHITE)
            },
        ]
    );
}

#[test]
fn a_nested_operation_that_names_no_renderer_gives_nothing() {
    let renderer = fill(css::SEA_GREEN);
    let planned = vec![
        circle(0.0, 0.0, 1.0, css::RED),
        DrawOp::Nested { kind: LineKind::All, index: 3, ring: ls(&[(0.0, 0.0)]) },
    ];
    assert_eq!(
        expand_area(&renderer, &planned, &corner_box, &first_position),
        vec![circle(0.0, 0.0, 1.0, css::RED)]
    );
}

#[test]
fn several_polygons_are_drawn_in_order() {
    let renderer = fill(css::SEA_GREEN);
    let ops = renderer.draw_multi(&vec![square(), holed()]);
    assert_eq!(
        ops,
        vec![
            DrawOp::FillPath {
                path: AreaRenderer::to_shape(&square()),
                brush: Brush::Solid(css::SEA_GREEN)
            },
            DrawOp::FillPath {
                path: AreaRenderer::to_shape(&holed()),
                brush: Brush::Solid(css::SEA_GREEN)
            },
        ]
    );
}

#[test]
fn the_radius_of_every_circle_is_settled() {
    let ops = vec![
        DrawOp::FillCircle {
            center: c(0.0, 0.0),
            radius: PropValue::Int32(3),
            brush: Brush::Solid(css::RED),
        },
        stroke(&ls(&[(0.0, 0.0)]), 1.0, css::RED),
        DrawOp::FillCircle {
            center: c(1.0, 0.0),
            radius: PropValue::Boolean(true),
            brush: Brush::Solid(css::RED),
        },
        circle(2.0, 0.0, 0.25, css::RED),
    ];
    assert_eq!(
        settle_radii(&ops, &no_number),
        Ok(vec![
            circle(0.0, 0.0, 3.0, css::RED),
            stroke(&ls(&[(0.0, 0.0)]), 1.0, css::RED),
            circle(1.0, 0.0, 1.0, css::RED),
            circle(2.0, 0.0, 0.25, css::RED),
        ])
    );
}

#[test]
fn a_radius_that_is_no_number_is_a_failure() {
    let missing = vec![DrawOp::FillCircle {
        center: c(0.0, 0.0),
        radius: PropValue::Null,
        brush: Brush::Solid(css::RED),
    }];
    assert_eq!(settle_radii(&missing, &no_number), Err("Cannot convert None to f64".to_string()));
    let text = vec![DrawOp::FillCircle {
        center: c(0.0, 0.0),
        radius: PropValue::String("wide".to_string()),
        brush: Brush::Solid(css::RED),
    }];
    assert_eq!(
        settle_radii(&text, &no_number),
        Err("Convert from string error: invalid float literal".to_string())
    );
}

#[test]
fn a_renderer_draws_what_the_geometry_gives() {
    let line = ls(&[(0.0, 0.0), (4.0, 0.0)]);
    let mut chain = RenderedGeometry::new_temp(Geometry::LineString(line.clone()));
    let mut point = RenderedGeometry::new_temp(Geometry::Point(c(1.0, 1.0)));
    let dots = points(dot(2.0, css::RED));
    let strokes = lines(pen(1.0, css::BLUE));
    let fills = areas(fill(css::GREEN));
    assert_eq!(
        dots.plan(&mut point, None, &corner_box, &first_position),
        vec![circle(1.0, 1.0, 2.0, css::RED)]
    );
    assert_eq!(strokes.plan(&mut point, None, &corner_box, &first_position), vec![]);
    assert_eq!(fills.plan(&mut point, None, &corner_box, &first_position), vec![]);
    assert_eq!(
        dots.plan(&mut chain, None, &corner_box, &first_position),
        vec![circle(0.0, 0.0, 2.0, css::RED)]
    );
    assert_eq!(
        strokes.plan(&mut chain, None, &corner_box, &first_position),
        vec![stroke(&line, 1.0, css::BLUE)]
    );
    assert_eq!(
        fills.plan(&mut chain, None, &corner_box, &first_position),
        vec![DrawOp::FillPath {
            path: AreaRenderer::to_shape(&corner_box(&line.0)),
            brush: Brush::Solid(css::GREEN)
        }]
    );
    assert_eq!(fills.filter(), &RenderedGeometryFilter::Any);
}

#[test]
fn only_the_geometries_of_the_layer_are_drawn() {
    let mut geoms = vec![
        RenderedGeometry::new(
            Some("towns".to_string()),
            Properties::new(),
            Geometry::Point(c(1.0, 1.0)),
        ),
        RenderedGeometry::new(
            Some("wells".to_string()),
            Properties::new(),
            Geometry::Point(c(2.0, 2.0)),
        ),
        RenderedGeometry::new_temp(Geometry::Point(c(3.0, 3.0))),
    ];
    let mut renderer = GeometryRenderer::Point(
        MagicValue::new(RenderedGeometryFilter::Layer("wells".to_string())),
        MagicValue::new(dot(2.0, css::RED)),
    );
    assert_eq!(
        renderer.draw(&mut geoms, None, &Texts, &corner_box, &first_position, &no_number, 4),
        Ok(vec![circle(2.0, 2.0, 2.0, css::RED), circle(3.0, 3.0, 2.0, css::RED)])
    );
    let mut other = GeometryRenderer::Point(
        MagicValue::new(RenderedGeometryFilter::Layer("roads".to_string())),
        MagicValue::new(dot(2.0, css::RED)),
    );
    geoms.pop();
    assert_eq!(
        other.draw(&mut geoms, None, &Texts, &corner_box, &first_position, &no_number, 4),
        Ok(vec![])
    );
}

#[test]
fn a_geometry_without_centre_is_not_drawn_as_a_point() {
    let mut geoms = vec![RenderedGeometry::new_temp(Geometry::MultiPoint(vec![]))];
    let mut renderer = points(dot(2.0, css::RED));
    assert_eq!(
        renderer.draw(&mut geoms, None, &Texts, &corner_box, &first_position, &no_number, 4),
        Ok(vec![])
    );
}

#[test]
fn the_style_of_a_feature_follows_its_properties() {
    let mut red = Properties::new();
    red.insert("size".to_string(), PropValue::Int32(3));
    red.insert("paint".to_string(), PropValue::String("red".to_string()));
    let mut geoms = vec![RenderedGeometry::new(None, red, Geometry::Point(c(1.0, 1.0)))];
    let mut renderer = points(PointRenderer {
        radius: MagicValue {
            inner: PropValue::Null,
            kind: MagicValueKind::Prop("size".to_string(), StrEncoding::Ron),
            need_scale: false,
        },
        brush: MagicValue {
            inner: Brush::Solid(css::BLACK),
            kind: MagicValueKind::Prop("paint".to_string(), StrEncoding::Ron),
            need_scale: false,
        },
        must_show: MagicValue::new(PropValue::Boolean(false)),
    });
    assert_eq!(
        renderer.draw(&mut geoms, None, &Texts, &corner_box, &first_position, &no_number, 4),
        Ok(vec![circle(1.0, 1.0, 3.0, css::RED)])
    );
    let mut plain = vec![RenderedGeometry::new_temp(Geometry::Point(c(1.0, 1.0)))];
    assert_eq!(
        renderer.draw(&mut plain, None, &Texts, &corner_box, &first_position, &no_number, 4),
        Err("No paint found in props".to_string())
    );
}

#[test]
fn the_radius_of_the_vertices_of_a_polygon_comes_from_its_feature() {
    let mut a = Properties::new();
    a.insert("name".to_string(), PropValue::String("A".to_string()));
    a.insert("radius".to_string(), PropValue::Float64(5.0f64.to_bits()));
    let mut b = Properties::new();
    b.insert("radius".to_string(), PropValue::Float64(2.0f64.to_bits()));
    let triangle = Polygon::new(ls(&[(0.0, 0.0), (4.0, 0.0), (0.0, 3.0), (0.0, 0.0)]), vec![]);
    let mut geoms = vec![
        RenderedGeometry::new(Some("A".to_string()), a, Geometry::Polygon(triangle.clone())),
        RenderedGeometry::new(Some("B".to_string()), b, Geometry::Point(c(9.0, 9.0))),
    ];
    let mut border = pen(1.0, css::BLUE);
    border.node_renderers.all.push(MagicValue::new(points(PointRenderer {
        radius: MagicValue {
            inner: PropValue::Null,
            kind: MagicValueKind::Prop("radius".to_string(), StrEncoding::Ron),
            need_scale: false,
        },
        brush: MagicValue::new(Brush::Solid(css::RED)),
        must_show: MagicValue::new(PropValue::Boolean(false)),
    })));
    let mut area = fill(css::GREEN);
    area.line_renderers.inner.all.push(MagicValue::new(lines(border)));
    let mut renderer = GeometryRenderer::Area(
        MagicValue::new(RenderedGeometryFilter::Layer("A".to_string())),
        MagicValue::new(area),
    );
    let ops = renderer
        .draw(&mut geoms, None, &Texts, &corner_box, &first_position, &no_number, 4)
        .unwrap();
    assert_eq!(
        ops,
        vec![
            DrawOp::FillPath {
                path: AreaRenderer::to_shape(&triangle),
                brush: Brush::Solid(css::GREEN)
            },
            stroke(&triangle.exterior, 1.0, css::BLUE),
            circle(0.0, 0.0, 5.0, css::RED),
            circle(4.0, 0.0, 5.0, css::RED),
            circle(0.0, 3.0, 5.0, css::RED),
            circle(0.0, 0.0, 5.0, css::RED),
        ]
    );
}

#[test]
fn nothing_is_drawn_for_no_geometries() {
    let mut option = RenderOption::default();
    option.region = RenderRegion::TileIndex(0, 0, 0);
    option.tile_proj = TileProj::EPSG4326;
    option.renderers.push(MagicValue::new(areas(fill(css::GREEN))));
    option.renderers.push(MagicValue::new_ron("dots.ron".to_string()));
    let mut geoms: Vec<RenderedGeometry> = vec![];
    assert_eq!(
        render_to_texture(
            &mut geoms,
            &mut option,
            &Texts,
            &frame,
            &corner_box,
            &first_position,
            &no_number,
            4
        ),
        Ok(vec![])
    );
    assert_eq!(option.get_pixel_size(), (256, 256));
}

#[test]
fn renderers_paint_in_the_order_of_the_style() {
    let mut option = RenderOption::default();
    option.renderers.push(MagicValue::new(areas(fill(css::GREEN))));
    option.renderers.push(MagicValue::new(lines(pen(1.0, css::BLUE))));
    option.renderers.push(MagicValue::new(points(dot(2.0, css::RED))));
    let mut geoms = vec![
        RenderedGeometry::new_temp(Geometry::Polygon(square())),
        RenderedGeometry::new_temp(Geometry::Point(c(9.0, 9.0))),
    ];
    let ops = render_to_texture(
        &mut geoms,
        &mut option,
        &Texts,
        &frame,
        &corner_box,
        &first_position,
        &no_number,
        4,
    )
    .unwrap();
    assert_eq!(
        ops,
        vec![
            DrawOp::FillPath {
                path: AreaRenderer::to_shape(&square()),
                brush: Brush::Solid(css::GREEN)
            },
            stroke(&square().exterior, 1.0, css::BLUE),
            circle(0.0, 0.0, 2.0, css::RED),
            circle(9.0, 9.0, 2.0, css::RED),
        ]
    );
}

#[test]
fn a_style_is_fetched_before_it_is_used() {
    use_fetch();
}

fn use_fetch() {
    let mut option = RenderOption::default();
    option.renderers.push(MagicValue::new_ron("dots.ron".to_string()));
    option.renderers.push(MagicValue::new(points(dot(1.0, css::RED))));
    assert_eq!(geello::magic_value::MagicFetcher::fetch(&mut option, &Texts, 2), Ok(()));
    assert_eq!(option.renderers[0].inner, points(dot(4.0, css::BLUE)));
    assert_eq!(option.renderers[0].kind, MagicValueKind::Ron("dots.ron".to_string()));
    assert_eq!(option.renderers[1].inner, points(dot(1.0, css::RED)));
    let mut again = RenderOption::default();
    again.renderers.push(MagicValue::new(points(dot(1.0, css::RED))));
    assert_eq!(geello::magic_value::MagicFetcher::fetch(&mut again, &Texts, 0), Ok(()));
    assert_eq!(again.renderers[0].inner, points(dot(1.0, css::RED)));
    let mut lost = RenderOption::default();
    lost.renderers.push(MagicValue::new_ron("lost.ron".to_string()));
    assert!(geello::magic_value::MagicFetcher::fetch(&mut lost, &Texts, 2).is_err());
}

#[test]
fn a_renderer_held_by_reference_inside_a_renderer_is_fetched() {
    let mut renderer = points(dot(1.0, css::RED));
    if let GeometryRenderer::Point(_, payload) = &mut renderer {
        payload.kind = MagicValueKind::Ron("dot.ron".to_string());
    }
    assert_eq!(
        geello::resolve::resolve_renderer(
            &mut renderer,
            geello::magic_value::Phase::Fetch,
            &Properties::new(),
            &Texts,
            1
        ),
        Ok(())
    );
    match &renderer {
        GeometryRenderer::Point(_, payload) => assert_eq!(payload.inner, dot(3.0, css::RED)),
        _ => unreachable!(),
    }
    assert!(geello::resolve::renderer_awaits(&renderer, geello::magic_value::Phase::Fetch));
    assert!(!geello::resolve::renderer_awaits(&renderer, geello::magic_value::Phase::Convert));
}

#[test]
fn one_geometry_is_drawn_if_the_filter_takes_it() {
    let mut wells = RenderedGeometry::new(
        Some("wells".to_string()),
        Properties::new(),
        Geometry::Point(c(2.0, 2.0)),
    );
    let mut towns = RenderedGeometry::new(
        Some("towns".to_string()),
        Properties::new(),
        Geometry::Point(c(1.0, 1.0)),
    );
    let mut renderer = GeometryRenderer::Point(
        MagicValue::new(RenderedGeometryFilter::Layer("wells".to_string())),
        MagicValue::new(PointRenderer {
            radius: MagicValue::new(PropValue::Int32(2)),
            brush: MagicValue::new(Brush::Solid(css::RED)),
            must_show: MagicValue::new(PropValue::Boolean(false)),
        }),
    );
    assert_eq!(
        renderer.draw_one(&mut wells, None, &Texts, &corner_box, &first_position, &no_number, 4),
        Ok(vec![circle(2.0, 2.0, 2.0, css::RED)])
    );
    assert_eq!(
        renderer.draw_one(&mut towns, None, &Texts, &corner_box, &first_position, &no_number, 4),
        Ok(vec![])
    );
}

#[test]
fn chains_held_elsewhere_are_drawn_in_order() {
    let renderer = pen(0.5, css::AQUA);
    let a = ls(&[(0.0, 0.0), (1.0, 0.0)]);
    let b = ls(&[(5.0, 5.0), (6.0, 5.0)]);
    assert_eq!(
        renderer.draw_multi_vec(vec![&b, &a]),
        vec![stroke(&b, 0.5, css::AQUA), stroke(&a, 0.5, css::AQUA)]
    );
}

#[test]
fn a_renderer_in_place_fails_only_where_a_radius_is_no_number() {
    let wide = PointRenderer {
        radius: MagicValue::new(PropValue::String("wide".to_string())),
        brush: MagicValue::new(Brush::Solid(css::RED)),
        must_show: MagicValue::new(PropValue::Boolean(false)),
    };
    let mut renderer = GeometryRenderer::Point(
        MagicValue::new(RenderedGeometryFilter::Layer("wells".to_string())),
        MagicValue::new(wide),
    );
    let mut towns = vec![RenderedGeometry::new(
        Some("towns".to_string()),
        Properties::new(),
        Geometry::Point(c(1.0, 1.0)),
    )];
    assert_eq!(
        renderer.draw(&mut towns, None, &Texts, &corner_box, &first_position, &no_number, 4),
        Ok(vec![])
    );
    let mut wells = vec![
        RenderedGeometry::new(
            Some("towns".to_string()),
            Properties::new(),
            Geometry::Point(c(1.0, 1.0)),
        ),
        RenderedGeometry::new(
            Some("wells".to_string()),
            Properties::new(),
            Geometry::Point(c(2.0, 2.0)),
        ),
    ];
    assert_eq!(
        renderer.draw(&mut wells, None, &Texts, &corner_box, &first_position, &no_number, 4),
        Err("Convert from string error: invalid float literal".to_string())
    );
    let mut option = RenderOption::default();
    option.renderers.push(MagicValue::new(points(dot(1.0, css::BLUE))));
    option.renderers.push(MagicValue::new(renderer));
    assert_eq!(
        render_to_texture(
            &mut wells,
            &mut option,
            &Texts,
            &frame,
            &corner_box,
            &first_position,
            &no_number,
            4
        ),
        Err("Convert from string error: invalid float literal".to_string())
    );
}

#[test]
fn a_fixed_radius_gives_one_circle_for_each_geometry_of_the_layer() {
    let mut geoms = Vec::new();
    for (i, layer) in ["wells", "towns", "wells", "roads", "wells"].iter().enumerate() {
        geoms.push(RenderedGeometry::new(
            Some(layer.to_string()),
            Properties::new(),
            Geometry::Point(c(i as f64, 10.0 - i as f64)),
        ));
    }
    let mut renderer = GeometryRenderer::Point(
        MagicValue::new(RenderedGeometryFilter::Layer("wells".to_string())),
        MagicValue::new(dot(2.5, css::RED)),
    );
    assert_eq!(
        renderer.draw(&mut geoms, None, &Texts, &corner_box, &first_position, &no_number, 0),
        Ok(vec![
            circle(0.0, 10.0, 2.5, css::RED),
            circle(2.0, 8.0, 2.5, css::RED),
            circle(4.0, 6.0, 2.5, css::RED),
        ])
    );
}

#[test]
fn a_failure_settled_for_the_first_geometry_leaves_the_renderer_as_it_is() {
    let by_size = || {
        GeometryRenderer::Point(
            MagicValue::new(RenderedGeometryFilter::Layer("wells".to_string())),
            MagicValue::new(PointRenderer {
                radius: MagicValue {
                    inner: PropValue::Null,
                    kind: MagicValueKind::Prop("size".to_string(), StrEncoding::Ron),
                    need_scale: false,
                },
                brush: MagicValue::new(Brush::Solid(css::RED)),
                must_show: MagicValue::new(PropValue::Boolean(false)),
            }),
        )
    };
    let mut sized = Properties::new();
    sized.insert("size".to_string(), PropValue::Int32(3));
    let mut geoms = vec![
        RenderedGeometry::new(Some("towns".to_string()), sized, Geometry::Point(c(0.0, 0.0))),
        RenderedGeometry::new(
            Some("wells".to_string()),
            Properties::new(),
            Geometry::Point(c(1.0, 1.0)),
        ),
    ];
    let mut renderer = by_size();
    assert_eq!(
        renderer.draw(&mut geoms, None, &Texts, &corner_box, &first_position, &no_number, 4),
        Err("No size found in props".to_string())
    );
    assert_eq!(renderer, by_size());
    let mut sized = Properties::new();
    sized.insert("size".to_string(), PropValue::Int32(3));
    let mut wells = vec![RenderedGeometry::new(
        Some("wells".to_string()),
        sized,
        Geometry::Point(c(1.0, 1.0)),
    )];
    assert_eq!(
        renderer.draw(&mut wells, None, &Texts, &corner_box, &first_position, &no_number, 0),
        Err("references are nested too deeply".to_string())
    );
    assert_eq!(renderer, by_size());
    assert_eq!(
        renderer.draw(&mut wells, None, &Texts, &corner_box, &first_position, &no_number, 1),
        Ok(vec![circle(1.0, 1.0, 3.0, css::RED)])
    );
}

#[test]
fn what_was_drawn_for_one_feature_leaves_no_trace_for_the_next() {
    let by_radius = || {
        points(PointRenderer {
            radius: MagicValue {
                inner: PropValue::Null,
                kind: MagicValueKind::Prop("radius".to_string(), StrEncoding::Ron),
                need_scale: false,
            },
            brush: MagicValue::new(Brush::Solid(css::RED)),
            must_show: MagicValue::new(PropValue::Boolean(false)),
        })
    };
    let feature = |radius: i32, x: f64| {
        let mut props = Properties::new();
        props.insert("radius".to_string(), PropValue::Int32(radius));
        RenderedGeometry::new(None, props, Geometry::Point(c(x, 0.0)))
    };
    let mut both = vec![feature(5, 0.0), feature(2, 1.0), feature(5, 2.0)];
    let mut renderer = by_radius();
    assert_eq!(
        renderer.draw(&mut both, None, &Texts, &corner_box, &first_position, &no_number, 4),
        Ok(vec![
            circle(0.0, 0.0, 5.0, css::RED),
            circle(1.0, 0.0, 2.0, css::RED),
            circle(2.0, 0.0, 5.0, css::RED),
        ])
    );
    let mut second = vec![feature(2, 1.0)];
    let mut fresh = by_radius();
    assert_eq!(
        renderer.draw(&mut second, None, &Texts, &corner_box, &first_position, &no_number, 4),
        fresh.draw(&mut vec![feature(2, 1.0)], None, &Texts, &corner_box, &first_position, &no_number, 4)
    );
    assert_eq!(renderer, fresh);
    let mut bare = vec![RenderedGeometry::new_temp(Geometry::Point(c(3.0, 0.0)))];
    assert_eq!(
        renderer.draw(&mut bare, None, &Texts, &corner_box, &first_position, &no_number, 4),
        Err("No radius found in props".to_string())
    );
}

#[test]
fn a_point_whose_radius_is_no_number_is_not_drawn() {
    let of_radius = |radius: PropValue| PointRenderer {
        radius: MagicValue::new(radius),
        brush: MagicValue::new(Brush::Solid(css::RED)),
        must_show: MagicValue::new(PropValue::Boolean(false)),
    };
    assert_eq!(
        of_radius(PropValue::Null).draw(&c(1.0, 5.0), &no_number),
        Err("Cannot convert None to f64".to_string())
    );
    assert_eq!(
        of_radius(PropValue::String("abc".to_string())).draw(&c(1.0, 5.0), &no_number),
        Err("Convert from string error: invalid float literal".to_string())
    );
    assert_eq!(
        of_radius(PropValue::String("2.5".to_string())).draw(&c(1.0, 5.0), &no_number),
        Ok(circle(1.0, 5.0, 2.5, css::RED))
    );
    assert_eq!(
        of_radius(PropValue::Int32(4)).draw(&c(1.0, 5.0), &no_number),
        Ok(circle(1.0, 5.0, 4.0, css::RED))
    );
    assert_eq!(
        of_radius(PropValue::Boolean(true)).draw(&c(1.0, 5.0), &no_number),
        Ok(circle(1.0, 5.0, 1.0, css::RED))
    );
    assert_eq!(
        of_radius(PropValue::Null).circle(&c(1.0, 5.0)),
        DrawOp::FillCircle {
            center: c(1.0, 5.0),
            radius: PropValue::Null,
            brush: Brush::Solid(css::RED)
        }
    );
}

#[test]
fn what_a_renderer_draws_from_is_remembered_in_the_geometry() {
    let mut point = RenderedGeometry::new_temp(Geometry::Point(c(1.0, 2.0)));
    let mut renderer = points(dot(2.0, css::RED));
    assert_eq!(
        renderer.draw_one(&mut point, None, &Texts, &corner_box, &first_position, &no_number, 0),
        Ok(vec![circle(1.0, 2.0, 2.0, css::RED)])
    );
    let asked = std::cell::Cell::new(0usize);
    let counting = |task: &Measure| {
        asked.set(asked.get() + 1);
        first_position(task)
    };
    assert_eq!(point.center_point(None, &counting), Some(c(1.0, 2.0)));
    assert_eq!(asked.get(), 0);
    let line = ls(&[(0.0, 0.0), (2.0, 0.0)]);
    let mut chain = RenderedGeometry::new_temp(Geometry::LineString(line.clone()));
    let mut marker = points(dot(2.0, css::RED));
    assert_eq!(
        marker.draw_one(&mut chain, None, &Texts, &corner_box, &counting, &no_number, 0),
        Ok(vec![circle(0.0, 0.0, 2.0, css::RED)])
    );
    assert_eq!(asked.get(), 1);
    assert_eq!(chain.center_point(None, &counting), Some(c(0.0, 0.0)));
    assert_eq!(asked.get(), 1);
    let mut stroker = lines(pen(1.0, css::BLUE));
    assert_eq!(
        stroker.draw_one(&mut chain, None, &Texts, &corner_box, &counting, &no_number, 0),
        Ok(vec![stroke(&line, 1.0, css::BLUE)])
    );
    assert_eq!(chain.lines(), Some(&vec![line]));
}
