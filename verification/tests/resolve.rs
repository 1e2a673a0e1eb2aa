use geello::magic_value::{
    load_from, missing_property, verdict, Loader, MagicConverter, MagicFetcher, MagicValue,
    MagicValueKind, Phase, PropValue, Properties, Reference, StrEncoding,
};
use geello::paint::Stroke;
use geello::render_option::RenderOption;
use geello::renderer::area_renderer::{AreaRenderer, RingRenderers};
use geello::renderer::geometry_renderer::{GeometryRenderer, RenderedGeometryFilter};
use geello::renderer::line_renderer::{LineRenderer, NodeRenderers};
use geello::renderer::point_renderer::PointRenderer;
use geello::resolve::{
    first_in_area, first_in_line, first_in_list, first_in_node, first_in_point,
    first_in_renderer, first_in_rings, resolve_area, resolve_line, resolve_list, resolve_point,
    resolve_renderer, resolve_rings, StyleSource,
};
use peniko::color::palette::css;
use peniko::Brush;
use std::cell::Cell;

struct Shelf {
    loads: Cell<usize>,
}

fn shelf() -> Shelf {
    Shelf { loads: Cell::new(0) }
}

fn nothing<T>(shelf: &Shelf, reference: &Reference) -> Result<MagicValue<T>, String> {
    shelf.loads.set(shelf.loads.get() + 1);
    Err(format!("nothing at {reference:?}"))
}

impl Loader<PropValue> for Shelf {
    fn load(&self, reference: &Reference) -> Result<MagicValue<PropValue>, String> {
        match reference {
            Reference::Property(_, value, _) => {
                self.loads.set(self.loads.get() + 1);
                Ok(MagicValue::new(value.clone()))
            }
            other => nothing(self, other),
        }
    }
}

impl Loader<Brush> for Shelf {
    fn load(&self, reference: &Reference) -> Result<MagicValue<Brush>, String> {
        match reference {
            Reference::File(path, _) if path == "red.ron" => {
                self.loads.set(self.loads.get() + 1);
                Ok(MagicValue::new(Brush::Solid(css::RED)))
            }
            Reference::File(path, _) if path == "link.ron" => {
                self.loads.set(self.loads.get() + 1);
                Ok(of_kind(Brush::Solid(css::BLUE), file("red.ron")))
            }
            other => nothing(self, other),
        }
    }
}

impl Loader<Stroke> for Shelf {
    fn load(&self, reference: &Reference) -> Result<MagicValue<Stroke>, String> {
        nothing(self, reference)
    }
}

impl Loader<RenderedGeometryFilter> for Shelf {
    fn load(&self, reference: &Reference) -> Result<MagicValue<RenderedGeometryFilter>, String> {
        nothing(self, reference)
    }
}

impl Loader<PointRenderer> for Shelf {
    fn load(&self, reference: &Reference) -> Result<MagicValue<PointRenderer>, String> {
        nothing(self, reference)
    }
}

impl Loader<LineRenderer> for Shelf {
    fn load(&self, reference: &Reference) -> Result<MagicValue<LineRenderer>, String> {
        nothing(self, reference)
    }
}

impl Loader<AreaRenderer> for Shelf {
    fn load(&self, reference: &Reference) -> Result<MagicValue<AreaRenderer>, String> {
        nothing(self, reference)
    }
}

impl Loader<RingRenderers> for Shelf {
    fn load(&self, reference: &Reference) -> Result<MagicValue<RingRenderers>, String> {
        nothing(self, reference)
    }
}

impl Loader<GeometryRenderer> for Shelf {
    fn load(&self, reference: &Reference) -> Result<MagicValue<GeometryRenderer>, String> {
        nothing(self, reference)
    }
}

impl StyleSource for Shelf {}

fn prop(name: &str) -> MagicValueKind {
    MagicValueKind::Prop(name.to_string(), StrEncoding::Ron)
}

fn file(path: &str) -> MagicValueKind {
    MagicValueKind::Ron(path.to_string())
}

fn of_kind<T>(inner: T, kind: MagicValueKind) -> MagicValue<T> {
    MagicValue { inner, kind, need_scale: false }
}

fn dot(radius: MagicValueKind, brush: MagicValueKind) -> PointRenderer {
    PointRenderer {
        radius: of_kind(PropValue::Float64(1.0f64.to_bits()), radius),
        brush: of_kind(Brush::Solid(css::BLACK), brush),
        must_show: MagicValue::new(PropValue::Boolean(false)),
    }
}

fn dots(radius: MagicValueKind, brush: MagicValueKind) -> MagicValue<GeometryRenderer> {
    MagicValue::new(GeometryRenderer::Point(
        MagicValue::new(RenderedGeometryFilter::Any),
        MagicValue::new(dot(radius, brush)),
    ))
}

fn pen(stroke: MagicValueKind, brush: MagicValueKind, end: MagicValue<GeometryRenderer>) -> LineRenderer {
    let mut nodes = NodeRenderers::new();
    nodes.all.push(dots(MagicValueKind::Fixed, MagicValueKind::Fixed));
    nodes.end.push(end);
    LineRenderer {
        stroke: of_kind(Stroke::new(1.0f64.to_bits()), stroke),
        brush: of_kind(Brush::Solid(css::BLUE), brush),
        node_renderers: nodes,
    }
}

fn plain_pen() -> LineRenderer {
    pen(MagicValueKind::Fixed, MagicValueKind::Fixed, dots(MagicValueKind::Fixed, MagicValueKind::Fixed))
}

fn fill(brush: MagicValueKind, interior: MagicValue<GeometryRenderer>) -> AreaRenderer {
    let mut rings = RingRenderers::new();
    rings.interior.push(interior);
    AreaRenderer {
        brush: of_kind(Brush::Solid(css::GREEN), brush),
        line_renderers: MagicValue::new(rings),
    }
}

fn sized(radius: f64) -> Properties {
    let mut props = Properties::new();
    props.insert("radius".to_string(), PropValue::Float64(radius.to_bits()));
    props
}

#[test]
fn the_outcome_is_settled_where_nothing_awaits_the_pass() {
    let props = Properties::new();
    assert_eq!(verdict(None, Phase::Fetch, &props, 0), Some(Ok(())));
    assert_eq!(verdict(None, Phase::Convert, &props, 7), Some(Ok(())));
}

#[test]
fn a_missing_property_settles_the_outcome_before_the_depth_does() {
    let props = sized(2.0);
    let width = prop("width");
    let radius = prop("radius");
    assert_eq!(
        verdict(Some(&width), Phase::Convert, &props, 0),
        Some(Err("No width found in props".to_string()))
    );
    assert_eq!(
        verdict(Some(&width), Phase::Convert, &props, 5),
        Some(Err("No width found in props".to_string()))
    );
    assert_eq!(
        verdict(Some(&radius), Phase::Convert, &props, 0),
        Some(Err("references are nested too deeply".to_string()))
    );
    assert_eq!(verdict(Some(&radius), Phase::Convert, &props, 1), None);
}

#[test]
fn a_file_settles_the_outcome_only_where_no_depth_is_left() {
    let props = Properties::new();
    let kind = file("a.ron");
    assert_eq!(
        verdict(Some(&kind), Phase::Fetch, &props, 0),
        Some(Err("references are nested too deeply".to_string()))
    );
    assert_eq!(verdict(Some(&kind), Phase::Fetch, &props, 1), None);
}

#[test]
fn the_text_for_a_missing_property_names_it() {
    assert_eq!(missing_property(&"radius".to_string()), "No radius found in props");
    assert_eq!(missing_property(&"".to_string()), "No  found in props");
}

#[test]
fn a_kind_awaits_its_own_pass() {
    let kinds = [
        MagicValueKind::Fixed,
        prop("a"),
        file("a.ron"),
        MagicValueKind::Json("a.json".to_string()),
        MagicValueKind::Http("http://a".to_string(), StrEncoding::Json),
    ];
    let fetch: Vec<bool> = kinds.iter().map(|k| k.awaiting(Phase::Fetch).is_some()).collect();
    let convert: Vec<bool> = kinds.iter().map(|k| k.awaiting(Phase::Convert).is_some()).collect();
    assert_eq!(fetch, vec![false, false, true, true, true]);
    assert_eq!(convert, vec![false, true, false, false, false]);
    assert_eq!(kinds[2].awaiting(Phase::Fetch), Some(&kinds[2]));
}

#[test]
fn a_loader_is_asked_as_it_is() {
    let source = shelf();
    let reference = Reference::File("red.ron".to_string(), StrEncoding::Ron);
    assert_eq!(
        load_from::<Brush, Shelf>(&source, &reference),
        Ok(MagicValue::new(Brush::Solid(css::RED)))
    );
    let lost = Reference::File("lost.ron".to_string(), StrEncoding::Ron);
    assert_eq!(
        load_from::<Brush, Shelf>(&source, &lost),
        Err("nothing at File(\"lost.ron\", Ron)".to_string())
    );
    assert_eq!(source.loads.get(), 2);
}

#[test]
fn the_brush_of_a_point_renderer_comes_before_its_radius() {
    let both = dot(prop("radius"), prop("paint"));
    assert_eq!(first_in_point(&both, Phase::Convert), Some(&prop("paint")));
    let radius = dot(prop("radius"), file("red.ron"));
    assert_eq!(first_in_point(&radius, Phase::Convert), Some(&prop("radius")));
    assert_eq!(first_in_point(&radius, Phase::Fetch), Some(&file("red.ron")));
    let none = dot(MagicValueKind::Fixed, MagicValueKind::Fixed);
    assert_eq!(first_in_point(&none, Phase::Fetch), None);
}

#[test]
fn the_values_of_a_line_renderer_come_in_their_order() {
    let nested = dots(prop("radius"), MagicValueKind::Fixed);
    assert_eq!(
        first_in_line(&pen(prop("width"), prop("paint"), nested), Phase::Convert),
        Some(&prop("width"))
    );
    let nested = dots(prop("radius"), MagicValueKind::Fixed);
    assert_eq!(
        first_in_line(&pen(MagicValueKind::Fixed, prop("paint"), nested), Phase::Convert),
        Some(&prop("paint"))
    );
    let nested = dots(prop("radius"), MagicValueKind::Fixed);
    assert_eq!(
        first_in_line(&pen(MagicValueKind::Fixed, MagicValueKind::Fixed, nested), Phase::Convert),
        Some(&prop("radius"))
    );
    assert_eq!(first_in_line(&plain_pen(), Phase::Convert), None);
}

#[test]
fn the_first_of_a_list_is_that_of_its_first_member_that_has_one() {
    let list = vec![
        dots(MagicValueKind::Fixed, MagicValueKind::Fixed),
        dots(prop("b"), prop("a")),
        of_kind(GeometryRenderer::default(), prop("c")),
    ];
    assert_eq!(first_in_list(&list, Phase::Convert), Some(&prop("a")));
    assert_eq!(first_in_list(&list, Phase::Fetch), None);
    assert_eq!(first_in_node(&list[2], Phase::Convert), Some(&prop("c")));
    assert_eq!(first_in_list(&vec![], Phase::Convert), None);
}

#[test]
fn the_filter_of_a_renderer_comes_first() {
    let renderer = GeometryRenderer::Point(
        of_kind(RenderedGeometryFilter::Any, prop("layer")),
        of_kind(dot(prop("radius"), MagicValueKind::Fixed), prop("dot")),
    );
    assert_eq!(first_in_renderer(&renderer, Phase::Convert), Some(&prop("layer")));
    let inner = GeometryRenderer::Point(
        MagicValue::new(RenderedGeometryFilter::Any),
        MagicValue::new(dot(prop("radius"), MagicValueKind::Fixed)),
    );
    assert_eq!(first_in_renderer(&inner, Phase::Convert), Some(&prop("radius")));
}

#[test]
fn the_brush_of_an_area_renderer_comes_before_its_rings() {
    let area = fill(file("red.ron"), dots(MagicValueKind::Fixed, file("deep.ron")));
    assert_eq!(first_in_area(&area, Phase::Fetch), Some(&file("red.ron")));
    let area = fill(MagicValueKind::Fixed, dots(MagicValueKind::Fixed, file("deep.ron")));
    assert_eq!(first_in_area(&area, Phase::Fetch), Some(&file("deep.ron")));
    assert_eq!(first_in_rings(&area.line_renderers.inner, Phase::Fetch), Some(&file("deep.ron")));
    assert_eq!(first_in_rings(&RingRenderers::new(), Phase::Fetch), None);
}

#[test]
fn a_point_renderer_that_lacks_its_property_fails_and_stays() {
    let source = shelf();
    let mut renderer = dot(prop("radius"), MagicValueKind::Fixed);
    assert_eq!(
        resolve_point(&mut renderer, Phase::Convert, &Properties::new(), &source, 4),
        Err("No radius found in props".to_string())
    );
    assert_eq!(renderer, dot(prop("radius"), MagicValueKind::Fixed));
    assert_eq!(
        renderer.convert(&Properties::new(), &source, 4),
        Err("No radius found in props".to_string())
    );
    assert_eq!(source.loads.get(), 0);
    assert_eq!(resolve_point(&mut renderer, Phase::Convert, &sized(3.0), &source, 4), Ok(()));
    assert_eq!(renderer.radius.inner, PropValue::Float64(3.0f64.to_bits()));
    assert_eq!(renderer.radius.kind, prop("radius"));
    assert_eq!(renderer.brush, MagicValue::new(Brush::Solid(css::BLACK)));
}

#[test]
fn a_point_renderer_is_fetched_value_by_value() {
    let source = shelf();
    let mut renderer = dot(MagicValueKind::Fixed, file("red.ron"));
    assert_eq!(
        renderer.fetch(&source, 0),
        Err("references are nested too deeply".to_string())
    );
    assert_eq!(renderer, dot(MagicValueKind::Fixed, file("red.ron")));
    assert_eq!(renderer.fetch(&source, 1), Ok(()));
    assert_eq!(renderer.brush, of_kind(Brush::Solid(css::RED), file("red.ron")));
    assert_eq!(renderer.radius, MagicValue::new(PropValue::Float64(1.0f64.to_bits())));
}

#[test]
fn a_line_renderer_fails_at_the_first_property_that_is_missing() {
    let source = shelf();
    let mut renderer =
        pen(MagicValueKind::Fixed, MagicValueKind::Fixed, dots(prop("radius"), prop("paint")));
    assert_eq!(
        resolve_line(&mut renderer, Phase::Convert, &sized(2.0), &source, 4),
        Err("No paint found in props".to_string())
    );
    assert_eq!(
        renderer,
        pen(MagicValueKind::Fixed, MagicValueKind::Fixed, dots(prop("radius"), prop("paint")))
    );
    assert_eq!(
        renderer.convert(&sized(2.0), &source, 4),
        Err("No paint found in props".to_string())
    );
    assert_eq!(source.loads.get(), 0);
}

#[test]
fn a_line_renderer_without_references_is_left_as_it_is() {
    let source = shelf();
    let mut renderer = plain_pen();
    assert_eq!(resolve_line(&mut renderer, Phase::Convert, &Properties::new(), &source, 0), Ok(()));
    assert_eq!(renderer.fetch(&source, 0), Ok(()));
    assert_eq!(renderer, plain_pen());
    assert_eq!(source.loads.get(), 0);
}

#[test]
fn the_renderers_at_the_positions_follow_the_properties() {
    let source = shelf();
    let mut renderer =
        pen(MagicValueKind::Fixed, MagicValueKind::Fixed, dots(prop("radius"), MagicValueKind::Fixed));
    assert_eq!(resolve_line(&mut renderer, Phase::Convert, &sized(5.0), &source, 1), Ok(()));
    match &renderer.node_renderers.end[0].inner {
        GeometryRenderer::Point(_, point) => {
            assert_eq!(point.inner.radius.inner, PropValue::Float64(5.0f64.to_bits()));
            assert_eq!(point.inner.radius.kind, prop("radius"));
        }
        _ => unreachable!(),
    }
    assert_eq!(
        renderer.node_renderers.all[0],
        dots(MagicValueKind::Fixed, MagicValueKind::Fixed)
    );
    assert_eq!(source.loads.get(), 1);
}

#[test]
fn without_depth_a_list_fails_at_its_first_reference() {
    let source = shelf();
    let mut list = vec![
        dots(MagicValueKind::Fixed, MagicValueKind::Fixed),
        dots(MagicValueKind::Fixed, file("red.ron")),
    ];
    assert_eq!(
        resolve_list(&mut list, Phase::Fetch, &Properties::new(), &source, 0),
        Err("references are nested too deeply".to_string())
    );
    assert_eq!(list[1], dots(MagicValueKind::Fixed, file("red.ron")));
    assert_eq!(resolve_list(&mut list, Phase::Fetch, &Properties::new(), &source, 1), Ok(()));
    assert_eq!(list[0], dots(MagicValueKind::Fixed, MagicValueKind::Fixed));
    assert_eq!(list.len(), 2);
    match &list[1].inner {
        GeometryRenderer::Point(_, point) => {
            assert_eq!(point.inner.brush, of_kind(Brush::Solid(css::RED), file("red.ron")))
        }
        _ => unreachable!(),
    }
}

#[test]
fn a_failure_to_load_ends_the_pass() {
    let source = shelf();
    let mut list = vec![
        dots(MagicValueKind::Fixed, file("lost.ron")),
        dots(MagicValueKind::Fixed, file("red.ron")),
    ];
    assert_eq!(
        resolve_list(&mut list, Phase::Fetch, &Properties::new(), &source, 3),
        Err("nothing at File(\"lost.ron\", Ron)".to_string())
    );
    assert_eq!(list[1], dots(MagicValueKind::Fixed, file("red.ron")));
    assert_eq!(source.loads.get(), 1);
}

#[test]
fn a_renderer_keeps_its_variant_and_its_kinds() {
    let source = shelf();
    let mut renderer = GeometryRenderer::Point(
        MagicValue::new(RenderedGeometryFilter::Layer("wells".to_string())),
        MagicValue::new(dot(prop("radius"), file("red.ron"))),
    );
    assert_eq!(resolve_renderer(&mut renderer, Phase::Fetch, &Properties::new(), &source, 1), Ok(()));
    assert_eq!(renderer.convert(&sized(4.0), &source, 1), Ok(()));
    assert_eq!(
        renderer,
        GeometryRenderer::Point(
            MagicValue::new(RenderedGeometryFilter::Layer("wells".to_string())),
            MagicValue::new(PointRenderer {
                radius: of_kind(PropValue::Float64(4.0f64.to_bits()), prop("radius")),
                brush: of_kind(Brush::Solid(css::RED), file("red.ron")),
                must_show: MagicValue::new(PropValue::Boolean(false)),
            }),
        )
    );
    assert_eq!(
        renderer.fetch(&source, 0),
        Err("references are nested too deeply".to_string())
    );
}

#[test]
fn a_renderer_by_reference_is_not_looked_into() {
    let source = shelf();
    let mut renderer = GeometryRenderer::Point(
        MagicValue::new(RenderedGeometryFilter::Any),
        of_kind(dot(prop("radius"), MagicValueKind::Fixed), prop("dot")),
    );
    assert_eq!(
        renderer.convert_payload(&sized(1.0), &source, 3),
        Err("No dot found in props".to_string())
    );
    let mut by_file = GeometryRenderer::Point(
        of_kind(RenderedGeometryFilter::Any, prop("layer")),
        MagicValue::new(dot(prop("radius"), MagicValueKind::Fixed)),
    );
    assert_eq!(by_file.convert_payload(&sized(1.0), &source, 0), Err("references are nested too deeply".to_string()));
    assert_eq!(by_file.convert_payload(&Properties::new(), &source, 3), Err("No radius found in props".to_string()));
    assert_eq!(by_file.convert_payload(&sized(6.0), &source, 3), Ok(()));
    assert_eq!(by_file.filter(), &RenderedGeometryFilter::Any);
    assert_eq!(
        resolve_renderer(&mut by_file, Phase::Convert, &sized(6.0), &source, 3),
        Err("No layer found in props".to_string())
    );
}

#[test]
fn an_area_renderer_is_resolved_brush_first() {
    let source = shelf();
    let mut area = fill(file("red.ron"), dots(MagicValueKind::Fixed, file("lost.ron")));
    assert_eq!(
        resolve_area(&mut area, Phase::Fetch, &Properties::new(), &source, 0),
        Err("references are nested too deeply".to_string())
    );
    assert_eq!(area, fill(file("red.ron"), dots(MagicValueKind::Fixed, file("lost.ron"))));
    assert_eq!(
        area.fetch(&source, 2),
        Err("nothing at File(\"lost.ron\", Ron)".to_string())
    );
    assert_eq!(area.brush, of_kind(Brush::Solid(css::RED), file("red.ron")));
    let mut plain = fill(MagicValueKind::Fixed, dots(MagicValueKind::Fixed, MagicValueKind::Fixed));
    assert_eq!(plain.convert(&Properties::new(), &source, 0), Ok(()));
    assert_eq!(plain, fill(MagicValueKind::Fixed, dots(MagicValueKind::Fixed, MagicValueKind::Fixed)));
}

#[test]
fn ring_renderers_are_resolved_kind_by_kind() {
    let source = shelf();
    let mut rings = RingRenderers::new();
    rings.all.push(dots(prop("radius"), MagicValueKind::Fixed));
    rings.exterior.push(dots(prop("width"), MagicValueKind::Fixed));
    assert_eq!(
        resolve_rings(&mut rings, Phase::Convert, &sized(2.0), &source, 0),
        Err("references are nested too deeply".to_string())
    );
    assert_eq!(
        rings.convert(&sized(2.0), &source, 2),
        Err("No width found in props".to_string())
    );
    assert_eq!(rings.all[0], dots(prop("radius"), MagicValueKind::Fixed).map_radius(2.0));
    assert_eq!(rings.fetch(&source, 0), Ok(()));
}

trait MapRadius {
    fn map_radius(self, radius: f64) -> Self;
}

impl MapRadius for MagicValue<GeometryRenderer> {
    fn map_radius(mut self, radius: f64) -> Self {
        if let GeometryRenderer::Point(_, point) = &mut self.inner {
            point.inner.radius.inner = PropValue::Float64(radius.to_bits());
        }
        self
    }
}

#[test]
fn a_style_is_fetched_renderer_by_renderer() {
    let source = shelf();
    let mut option = RenderOption::default();
    option.pixel_option.width = 99;
    option.renderers.push(dots(MagicValueKind::Fixed, MagicValueKind::Fixed));
    option.renderers.push(dots(MagicValueKind::Fixed, file("red.ron")));
    assert_eq!(
        option.fetch(&source, 0),
        Err("references are nested too deeply".to_string())
    );
    assert_eq!(option.renderers[1], dots(MagicValueKind::Fixed, file("red.ron")));
    assert_eq!(option.fetch(&source, 1), Ok(()));
    assert_eq!(option.renderers.len(), 2);
    assert_eq!(option.renderers[0], dots(MagicValueKind::Fixed, MagicValueKind::Fixed));
    assert_eq!(option.pixel_option.width, 99);
    let mut empty = RenderOption::default();
    assert_eq!(empty.fetch(&source, 0), Ok(()));
    assert_eq!(empty, RenderOption::default());
}

#[test]
fn what_was_resolved_before_a_failure_stays_resolved() {
    let source = shelf();
    let mut list = vec![
        dots(MagicValueKind::Fixed, file("red.ron")),
        dots(MagicValueKind::Fixed, file("lost.ron")),
        dots(MagicValueKind::Fixed, file("red.ron")),
    ];
    assert_eq!(
        resolve_list(&mut list, Phase::Fetch, &Properties::new(), &source, 2),
        Err("nothing at File(\"lost.ron\", Ron)".to_string())
    );
    match &list[0].inner {
        GeometryRenderer::Point(_, point) => {
            assert_eq!(point.inner.brush, of_kind(Brush::Solid(css::RED), file("red.ron")))
        }
        _ => unreachable!(),
    }
    assert_eq!(list[1], dots(MagicValueKind::Fixed, file("lost.ron")));
    assert_eq!(list[2], dots(MagicValueKind::Fixed, file("red.ron")));
    assert_eq!(source.loads.get(), 2);
}

#[test]
fn a_loaded_reference_is_followed_with_one_level_less() {
    let source = shelf();
    let mut renderer = dot(MagicValueKind::Fixed, file("link.ron"));
    assert_eq!(
        resolve_point(&mut renderer, Phase::Fetch, &Properties::new(), &source, 1),
        Err("references are nested too deeply".to_string())
    );
    assert_eq!(renderer, dot(MagicValueKind::Fixed, file("link.ron")));
    assert_eq!(source.loads.get(), 1);
    assert_eq!(resolve_point(&mut renderer, Phase::Fetch, &Properties::new(), &source, 2), Ok(()));
    assert_eq!(renderer.brush, of_kind(Brush::Solid(css::RED), file("link.ron")));
    assert_eq!(source.loads.get(), 3);
}

#[test]
fn a_brush_that_fails_leaves_the_radius_alone() {
    let source = shelf();
    let mut renderer = dot(prop("radius"), file("lost.ron"));
    assert_eq!(
        resolve_point(&mut renderer, Phase::Convert, &sized(7.0), &source, 2),
        Ok(())
    );
    assert_eq!(renderer.radius.inner, PropValue::Float64(7.0f64.to_bits()));
    assert_eq!(renderer.brush.kind, file("lost.ron"));
    let mut again = dot(prop("radius"), file("lost.ron"));
    assert_eq!(
        resolve_point(&mut again, Phase::Fetch, &sized(7.0), &source, 2),
        Err("nothing at File(\"lost.ron\", Ron)".to_string())
    );
    assert_eq!(again, dot(prop("radius"), file("lost.ron")));
}
