//! The renderers of a style and their choice of geometries by layer.
use crate::classify::{area_sources, lines_of};
use crate::geometry::{
    polygon_views, Coord, Geometry, GeometryView, Polygon, PolygonView, Rect,
};
use crate::magic_value::{
    awaiting, awaits, double_follows, first_of, outcome_view, owed, same_source, KindView,
    MagicValue, Phase, PropValue, Properties,
};
use crate::rendered_geometry::{
    answers_to, areas_fit, areas_follow, center_follows, center_plan, CenterPlan, Measure,
    MeasureView, RenderedGeometry, RenderedView,
};
use crate::renderer::area_renderer::{area_ops, areas_ops_upto, AreaRenderer};
use crate::renderer::line_renderer::{lemma_lines_plain, lines_ops_upto, plain, LineRenderer};
use crate::renderer::point_renderer::{circle_of, PointRenderer};
use crate::resolve::{
    area_first, area_needs, lemma_area_first, lemma_line_first, line_first, line_needs,
    point_first, point_needs, resolve_area_node, resolve_line_node, resolve_point_node,
    StyleSource,
};
use crate::resolved::{area_node_resolved, done, line_node_resolved, point_node_resolved};
use crate::scene::{
    lemma_op_views_add, lemma_op_views_push, op_settles, op_views, settle_radii, settled_op,
    DrawOp, DrawOpView,
};
use vstd::prelude::*;

verus! {

/// One renderer of a style: the geometries it takes, and how it draws them
/// as points, as lines or as areas.
#[derive(Debug, PartialEq)]
pub enum GeometryRenderer {
    Point(MagicValue<RenderedGeometryFilter>, MagicValue<PointRenderer>),
    Line(MagicValue<RenderedGeometryFilter>, MagicValue<LineRenderer>),
    Area(MagicValue<RenderedGeometryFilter>, MagicValue<AreaRenderer>),
}

impl Default for GeometryRenderer {
    /// The default point renderer for every geometry.
    fn default() -> (r: Self)
        ensures
            r matches GeometryRenderer::Point(filter, _) && filter.inner@ == FilterView::Any
                && filter.kind@ is Fixed,
    {
        GeometryRenderer::Point(
            MagicValue::new(RenderedGeometryFilter::Any),
            MagicValue::new(PointRenderer::default()),
        )
    }
}

/// Which geometries a renderer takes.
#[derive(Debug, PartialEq, Eq)]
pub enum RenderedGeometryFilter {
    /// Every geometry.
    Any,
    /// The geometries of this layer, and those of no layer.
    Layer(String),
}

/// The mathematical content of a [`RenderedGeometryFilter`].
pub ghost enum FilterView {
    Any,
    Layer(Seq<char>),
}

impl View for RenderedGeometryFilter {
    type V = FilterView;

    open spec fn view(&self) -> FilterView {
        match self {
            RenderedGeometryFilter::Any => FilterView::Any,
            RenderedGeometryFilter::Layer(name) => FilterView::Layer(name@),
        }
    }
}

impl Clone for RenderedGeometryFilter {
    fn clone(&self) -> (r: Self)
        ensures
            r@ == self@,
    {
        match self {
            RenderedGeometryFilter::Any => RenderedGeometryFilter::Any,
            RenderedGeometryFilter::Layer(name) => RenderedGeometryFilter::Layer(name.clone()),
        }
    }
}

impl Default for RenderedGeometryFilter {
    fn default() -> (r: Self)
        ensures
            r@ == FilterView::Any,
    {
        RenderedGeometryFilter::Any
    }
}

/// Whether a filter takes a geometry of the given layer: it takes all, or
/// the geometry has no layer, or the layers are the same.
pub open spec fn filter_takes(filter: FilterView, layer: Option<Seq<char>>) -> bool {
    match filter {
        FilterView::Any => true,
        FilterView::Layer(wanted) => match layer {
            Some(own) => own == wanted,
            None => true,
        },
    }
}

/// What a renderer draws for a geometry, from what the geometry remembers:
/// a point renderer a circle round the centre point if there is one, a line
/// renderer the lines, an area renderer the areas.
pub open spec fn planned_ops(renderer: GeometryRenderer, g: RenderedView) -> Seq<DrawOpView> {
    match renderer {
        GeometryRenderer::Point(_, point) => match g.center {
            Some((_, Some(c))) => seq![circle_of(point.inner, c)],
            _ => Seq::empty(),
        },
        GeometryRenderer::Line(_, line) => match g.lines {
            Some(lines) => lines_ops_upto(line.inner, lines, lines.len()),
            None => Seq::empty(),
        },
        GeometryRenderer::Area(_, area) => match g.areas {
            Some(areas) => areas_ops_upto(area.inner, areas, areas.len()),
            None => Seq::empty(),
        },
    }
}

/// Whether operations are a plan with its radii settled: as many as
/// planned, each the planned one with its radius settled.
pub open spec fn settles_to<N: Fn(&PropValue) -> Result<u64, String>>(
    planned: Seq<DrawOpView>,
    number: N,
    ops: Seq<DrawOpView>,
) -> bool {
    &&& ops.len() == planned.len()
    &&& forall|i: int| 0 <= i < planned.len() ==> op_settles(planned[i], number, #[trigger] ops[i])
}

/// Whether a message is the failure of the radius of a planned circle to
/// be a number.
pub open spec fn fails_at<N: Fn(&PropValue) -> Result<u64, String>>(
    planned: Seq<DrawOpView>,
    number: N,
    message: String,
) -> bool {
    exists|i: int|
        0 <= i < planned.len() && (#[trigger] planned[i] matches DrawOpView::FillCircle {
            radius,
            ..
        } && double_follows(radius, number, Err(message)))
}

/// The first `n` of a list of lists of operations, one list after the
/// other.
pub open spec fn parts_upto(parts: Seq<Seq<DrawOpView>>, n: nat) -> Seq<DrawOpView>
    decreases n,
{
    if n == 0 || n > parts.len() {
        Seq::empty()
    } else {
        parts_upto(parts, (n - 1) as nat) + parts[n - 1]
    }
}

/// Whether `polygon` is what `hull` may give for the positions of a ring.
pub open spec fn hull_gave<H: Fn(&Vec<Coord>) -> Polygon>(
    hull: H,
    ring: Seq<Coord>,
    polygon: Polygon,
) -> bool {
    exists|coords: Vec<Coord>| coords@ == ring && #[trigger] hull.ensures((&coords,), polygon)
}

/// Whether `out` is what stands for one planned operation of an area
/// renderer once nothing is put off any more.
///
/// An operation that is not nested stands for itself. A nested one stands
/// for what the ring renderer it names draws for its ring: a point renderer
/// a circle round the centroid of the ring as `measure` gives it, or nothing
/// where there is none; an area renderer what it draws for the hull of the
/// ring as `hull` gives it, with its own nested operations replaced in
/// turn. A nested operation that names no renderer stands for nothing.
pub open spec fn op_expands<H: Fn(&Vec<Coord>) -> Polygon, M: Fn(&Measure) -> Option<Coord>>(
    area: AreaRenderer,
    op: DrawOpView,
    hull: H,
    measure: M,
    out: Seq<DrawOpView>,
) -> bool
    decreases area, 0nat, 0nat,
{
    match op {
        DrawOpView::Nested { kind, index, ring } => {
            let children = area.line_renderers.inner.of(kind);
            if index >= children@.len() {
                out.len() == 0
            } else {
                match children@[index as int].inner {
                    GeometryRenderer::Point(_, point) => exists|answer: Option<Coord>| #[trigger]
                        answers_to(
                            measure,
                            MeasureView::Centroid(GeometryView::LineString(ring)),
                            answer,
                        ) && out == (match answer {
                            Some(c) => seq![circle_of(point.inner, c)],
                            None => Seq::empty(),
                        }),
                    GeometryRenderer::Area(_, inner) => exists|polygon: Polygon| #[trigger]
                        hull_gave(hull, ring, polygon) && ops_expand(
                            inner.inner,
                            area_ops(inner.inner, polygon@),
                            area_ops(inner.inner, polygon@).len(),
                            hull,
                            measure,
                            out,
                        ),
                    GeometryRenderer::Line(_, _) => out.len() == 0,
                }
            }
        },
        other => out == seq![other],
    }
}

/// Whether `out` is what stands for the first `n` planned operations of an
/// area renderer once nothing is put off any more: what stands for each, one
/// after the other.
pub open spec fn ops_expand<H: Fn(&Vec<Coord>) -> Polygon, M: Fn(&Measure) -> Option<Coord>>(
    area: AreaRenderer,
    ops: Seq<DrawOpView>,
    n: nat,
    hull: H,
    measure: M,
    out: Seq<DrawOpView>,
) -> bool
    decreases area, 1nat, n,
{
    if n == 0 || n > ops.len() {
        out.len() == 0
    } else {
        exists|init: Seq<DrawOpView>, last: Seq<DrawOpView>| #[trigger]
            joins(init, last, out) && ops_expand(area, ops, (n - 1) as nat, hull, measure, init)
                && op_expands(area, ops[n - 1], hull, measure, last)
    }
}

/// Whether one list of operations followed by another is a third.
pub open spec fn joins(init: Seq<DrawOpView>, last: Seq<DrawOpView>, out: Seq<DrawOpView>) -> bool {
    out == init + last
}

/// Whether `ready` is what a renderer plans for a geometry, from what the
/// geometry remembers, once nothing is put off any more: the plan itself
/// for a point or line renderer, which put nothing off, and for an area
/// renderer what stands for its plan as `hull` and `measure` give it.
pub open spec fn made_ready<H: Fn(&Vec<Coord>) -> Polygon, M: Fn(&Measure) -> Option<Coord>>(
    renderer: GeometryRenderer,
    g: RenderedView,
    hull: H,
    measure: M,
    ready: Seq<DrawOpView>,
) -> bool {
    match renderer {
        GeometryRenderer::Area(_, area) => ops_expand(
            area.inner,
            planned_ops(renderer, g),
            planned_ops(renderer, g).len(),
            hull,
            measure,
            ready,
        ),
        _ => ready == planned_ops(renderer, g),
    }
}

/// Whether `part` is what a renderer draws for a geometry that its filter
/// takes, from what the geometry remembers: what it plans, made ready, with
/// the radii settled.
pub open spec fn drawn_from<
    H: Fn(&Vec<Coord>) -> Polygon,
    M: Fn(&Measure) -> Option<Coord>,
    N: Fn(&PropValue) -> Result<u64, String>,
>(
    renderer: GeometryRenderer,
    g: RenderedView,
    hull: H,
    measure: M,
    number: N,
    part: Seq<DrawOpView>,
) -> bool {
    exists|ready: Seq<DrawOpView>| #[trigger]
        made_ready(renderer, g, hull, measure, ready) && settles_to(ready, number, part)
}

/// Whether `message` is the failure of a renderer to draw a geometry that
/// its filter takes: the failure of a radius of what it plans, made ready,
/// to be a number.
pub open spec fn fails_from<
    H: Fn(&Vec<Coord>) -> Polygon,
    M: Fn(&Measure) -> Option<Coord>,
    N: Fn(&PropValue) -> Result<u64, String>,
>(
    renderer: GeometryRenderer,
    g: RenderedView,
    hull: H,
    measure: M,
    number: N,
    message: String,
) -> bool {
    exists|ready: Seq<DrawOpView>| #[trigger]
        made_ready(renderer, g, hull, measure, ready) && fails_at(ready, number, message)
}

/// Whether `left` is what a geometry found as `found` remembers once a
/// renderer has worked out what it draws from: a point renderer the centre
/// point for the rectangle given, a line renderer the lines, an area
/// renderer the areas. Everything else is as it was.
///
/// A centre remembered for the same rectangle is kept; any other is worked
/// out anew, and where that needs computing it is what `measure` answers.
/// Areas remembered are kept; else they are worked out, each hull as
/// `hull` gives it.
pub open spec fn worked_out<H: Fn(&Vec<Coord>) -> Polygon, M: Fn(&Measure) -> Option<Coord>>(
    renderer: GeometryRenderer,
    found: RenderedView,
    rect: Option<Rect>,
    hull: H,
    measure: M,
    left: RenderedView,
) -> bool {
    &&& left.geometry == found.geometry
    &&& left.layer == found.layer
    &&& left.props == found.props
    &&& match renderer {
        GeometryRenderer::Point(_, _) => {
            &&& left.lines == found.lines
            &&& left.areas == found.areas
            &&& left.center matches Some((held, point))
            &&& held == rect
            &&& match found.center {
                Some((h, p)) if h == rect => point == p,
                _ => center_follows(center_plan(found.geometry, rect), measure, point),
            }
        },
        GeometryRenderer::Line(_, _) => {
            &&& left.center == found.center
            &&& left.areas == found.areas
            &&& left.lines == Some(lines_of(found.geometry))
        },
        GeometryRenderer::Area(_, _) => {
            &&& left.center == found.center
            &&& left.lines == found.lines
            &&& left.areas matches Some(areas)
            &&& areas_fit(area_sources(found.geometry), areas)
            &&& match found.areas {
                Some(held) => areas == held,
                None => exists|v: Seq<Polygon>| #[trigger]
                    areas_follow(area_sources(found.geometry), hull, v) && areas == polygon_views(
                        v,
                    ),
            }
        },
    }
}

/// Whether `left` and `part` are what a renderer makes of a geometry that
/// its filter takes and what it draws for it: what it draws from is worked
/// out (see [`worked_out`]), and what is drawn follows from what the
/// geometry then remembers (see [`drawn_from`]).
pub open spec fn drawn_for<
    H: Fn(&Vec<Coord>) -> Polygon,
    M: Fn(&Measure) -> Option<Coord>,
    N: Fn(&PropValue) -> Result<u64, String>,
>(
    renderer: GeometryRenderer,
    found: RenderedView,
    left: RenderedView,
    rect: Option<Rect>,
    hull: H,
    measure: M,
    number: N,
    part: Seq<DrawOpView>,
) -> bool {
    worked_out(renderer, found, rect, hull, measure, left) && drawn_from(
        renderer,
        left,
        hull,
        measure,
        number,
        part,
    )
}

/// Whether `left` and `message` are what a renderer makes of a geometry
/// that its filter takes and its failure to draw it: what it draws from is
/// worked out (see [`worked_out`]), and a radius of what it then plans is
/// no number (see [`fails_from`]).
pub open spec fn fails_for<
    H: Fn(&Vec<Coord>) -> Polygon,
    M: Fn(&Measure) -> Option<Coord>,
    N: Fn(&PropValue) -> Result<u64, String>,
>(
    renderer: GeometryRenderer,
    found: RenderedView,
    left: RenderedView,
    rect: Option<Rect>,
    hull: H,
    measure: M,
    number: N,
    message: String,
) -> bool {
    worked_out(renderer, found, rect, hull, measure, left) && fails_from(
        renderer,
        left,
        hull,
        measure,
        number,
        message,
    )
}

/// Whether `part` is what a renderer without references to properties
/// draws for one geometry: nothing if the filter does not take it, else
/// what it draws from what the geometry remembers afterwards.
pub open spec fn part_drawn<
    H: Fn(&Vec<Coord>) -> Polygon,
    M: Fn(&Measure) -> Option<Coord>,
    N: Fn(&PropValue) -> Result<u64, String>,
>(
    renderer: GeometryRenderer,
    before: RenderedView,
    after: RenderedView,
    rect: Option<Rect>,
    hull: H,
    measure: M,
    number: N,
    part: Seq<DrawOpView>,
) -> bool {
    if filter_takes(renderer.filter_view(), before.layer) {
        drawn_for(renderer, before, after, rect, hull, measure, number, part)
    } else {
        part.len() == 0 && after == before
    }
}

/// Whether `parts` are what a renderer without references to properties
/// draws for the first `n` geometries of a list, one part for each.
pub open spec fn parts_drawn<
    H: Fn(&Vec<Coord>) -> Polygon,
    M: Fn(&Measure) -> Option<Coord>,
    N: Fn(&PropValue) -> Result<u64, String>,
>(
    renderer: GeometryRenderer,
    before: Seq<RenderedGeometry>,
    after: Seq<RenderedGeometry>,
    rect: Option<Rect>,
    hull: H,
    measure: M,
    number: N,
    parts: Seq<Seq<DrawOpView>>,
    n: nat,
) -> bool {
    forall|i: int|
        0 <= i < n ==> part_drawn(
            renderer,
            before[i]@,
            after[i]@,
            rect,
            hull,
            measure,
            number,
            #[trigger] parts[i],
        )
}

/// Whether `ops` are what a renderer without references to properties
/// draws for the geometries of a list: what it draws for each, in the order
/// of the list.
pub open spec fn layer_drawn<
    H: Fn(&Vec<Coord>) -> Polygon,
    M: Fn(&Measure) -> Option<Coord>,
    N: Fn(&PropValue) -> Result<u64, String>,
>(
    renderer: GeometryRenderer,
    before: Seq<RenderedGeometry>,
    after: Seq<RenderedGeometry>,
    rect: Option<Rect>,
    hull: H,
    measure: M,
    number: N,
    ops: Seq<DrawOpView>,
) -> bool {
    exists|parts: Seq<Seq<DrawOpView>>|
        {
            &&& parts.len() == before.len()
            &&& ops == parts_upto(parts, parts.len())
            &&& #[trigger] parts_drawn(
                renderer,
                before,
                after,
                rect,
                hull,
                measure,
                number,
                parts,
                parts.len(),
            )
        }
}

/// The mathematical content of what drawing gives: the views of the
/// operations, or the failure.
pub open spec fn draw_view(r: Result<Vec<DrawOp>, String>) -> Result<Seq<DrawOpView>, String> {
    match r {
        Ok(ops) => Ok(op_views(ops@)),
        Err(message) => Err(message),
    }
}

/// Whether `after`, `left` and `outcome` are what drawing one geometry may
/// make of a renderer and of the geometry, with what is drawn or the
/// failure.
///
/// A geometry that the filter does not take gives no operation and leaves
/// both as they are. For any other, the references to properties in what
/// the renderer draws with are followed for the feature of the geometry
/// (see [`GeometryRenderer::payload_resolved`]). A failure there is the
/// failure of the drawing, and the geometry is left as it is. Else the
/// renderer as the references left it draws from what the geometry
/// remembers afterwards (see [`drawn_from`]), and fails only where a radius
/// is no number (see [`fails_from`]).
pub open spec fn one_drawn<
    S: StyleSource,
    H: Fn(&Vec<Coord>) -> Polygon,
    M: Fn(&Measure) -> Option<Coord>,
    N: Fn(&PropValue) -> Result<u64, String>,
>(
    before: GeometryRenderer,
    found: RenderedView,
    left: RenderedView,
    source: S,
    rect: Option<Rect>,
    hull: H,
    measure: M,
    number: N,
    depth: usize,
    after: GeometryRenderer,
    outcome: Result<Seq<DrawOpView>, String>,
) -> bool {
    if !filter_takes(before.filter_view(), found.layer) {
        after == before && left == found && (outcome matches Ok(part) && part.len() == 0)
    } else {
        match outcome {
            Ok(part) => before.payload_resolved(found.props, source, depth, after, done())
                && drawn_for(after, found, left, rect, hull, measure, number, part),
            Err(message) => (left == found && before.payload_resolved(
                found.props,
                source,
                depth,
                after,
                Err(message),
            )) || (before.payload_resolved(found.props, source, depth, after, done())
                && fails_for(after, found, left, rect, hull, measure, number, message)),
        }
    }
}

/// Whether the first `n` geometries of a list were drawn one after the
/// other without failure: the renderer comes to geometry `i` as
/// `styles[i]` and leaves it as `styles[i + 1]`, and `parts[i]` is what is
/// drawn for it (see [`one_drawn`]).
pub open spec fn drawn_upto<
    S: StyleSource,
    H: Fn(&Vec<Coord>) -> Polygon,
    M: Fn(&Measure) -> Option<Coord>,
    N: Fn(&PropValue) -> Result<u64, String>,
>(
    first: GeometryRenderer,
    found: Seq<RenderedGeometry>,
    left: Seq<RenderedGeometry>,
    source: S,
    rect: Option<Rect>,
    hull: H,
    measure: M,
    number: N,
    depth: usize,
    styles: Seq<GeometryRenderer>,
    parts: Seq<Seq<DrawOpView>>,
    n: nat,
) -> bool {
    &&& styles.len() == n + 1
    &&& parts.len() == n
    &&& styles[0] == first
    &&& forall|i: int|
        0 <= i < n ==> one_drawn(
            styles[i],
            found[i]@,
            left[i]@,
            source,
            rect,
            hull,
            measure,
            number,
            depth,
            styles[i + 1],
            Ok(#[trigger] parts[i]),
        )
}

/// Whether `after`, `left` and `outcome` are what drawing the geometries of
/// a list in their order may make of a renderer and of the geometries,
/// with what is drawn or the failure.
///
/// On success every geometry was drawn in turn, and the operations are
/// those of each, one after the other. On failure the geometries before
/// some geometry were drawn in turn, the failure is that of drawing this
/// one, and the geometries after it are left as they are.
pub open spec fn all_drawn<
    S: StyleSource,
    H: Fn(&Vec<Coord>) -> Polygon,
    M: Fn(&Measure) -> Option<Coord>,
    N: Fn(&PropValue) -> Result<u64, String>,
>(
    before: GeometryRenderer,
    found: Seq<RenderedGeometry>,
    left: Seq<RenderedGeometry>,
    source: S,
    rect: Option<Rect>,
    hull: H,
    measure: M,
    number: N,
    depth: usize,
    after: GeometryRenderer,
    outcome: Result<Seq<DrawOpView>, String>,
) -> bool {
    left.len() == found.len() && (match outcome {
        Ok(ops) => exists|styles: Seq<GeometryRenderer>, parts: Seq<Seq<DrawOpView>>| #[trigger]
            drawn_upto(
                before,
                found,
                left,
                source,
                rect,
                hull,
                measure,
                number,
                depth,
                styles,
                parts,
                found.len(),
            ) && styles[found.len() as int] == after && ops == parts_upto(parts, found.len()),
        Err(message) => exists|k: nat, styles: Seq<GeometryRenderer>, parts: Seq<Seq<DrawOpView>>|
            k < found.len() && #[trigger] drawn_upto(
                before,
                found,
                left,
                source,
                rect,
                hull,
                measure,
                number,
                depth,
                styles,
                parts,
                k,
            ) && one_drawn(
                styles[k as int],
                found[k as int]@,
                left[k as int]@,
                source,
                rect,
                hull,
                measure,
                number,
                depth,
                after,
                Err(message),
            ) && forall|j: int| k < j < found.len() ==> #[trigger] left[j] == found[j],
    })
}

/// Whether the geometry at `i` is the first of a list that a filter takes.
pub open spec fn first_taken(filter: FilterView, geoms: Seq<RenderedGeometry>, i: int) -> bool {
    &&& 0 <= i < geoms.len()
    &&& filter_takes(filter, geoms[i]@.layer)
    &&& forall|k: int| 0 <= k < i ==> !filter_takes(filter, (#[trigger] geoms[k])@.layer)
}

/// Whether a failure is settled for a renderer before anything is loaded
/// for the feature whose properties are given: the first value in what it
/// draws with that awaits the second pass names a property that the feature
/// lacks, or no depth is left for it.
pub open spec fn owed_failure(
    renderer: GeometryRenderer,
    props: Properties,
    depth: usize,
    message: Seq<char>,
) -> bool {
    owed(renderer.payload_first(Phase::Convert), Phase::Convert, props, depth) == Some(
        Err::<(), Seq<char>>(message),
    )
}

/// What stands for the first `n - 1` operations, followed by what stands
/// for the next, is what stands for the first `n`.
pub proof fn lemma_ops_expand_step<
    H: Fn(&Vec<Coord>) -> Polygon,
    M: Fn(&Measure) -> Option<Coord>,
>(
    area: AreaRenderer,
    ops: Seq<DrawOpView>,
    n: nat,
    hull: H,
    measure: M,
    init: Seq<DrawOpView>,
    last: Seq<DrawOpView>,
)
    requires
        0 < n <= ops.len(),
        ops_expand(area, ops, (n - 1) as nat, hull, measure, init),
        op_expands(area, ops[n - 1], hull, measure, last),
    ensures
        ops_expand(area, ops, n, hull, measure, init + last),
{
    assert(joins(init, last, init + last));
}

/// Parts that agree on the first `n` places give the same operations up to
/// there.
pub proof fn lemma_parts_prefix(a: Seq<Seq<DrawOpView>>, b: Seq<Seq<DrawOpView>>, n: nat)
    requires
        n <= a.len(),
        n <= b.len(),
        forall|i: int| 0 <= i < n ==> a[i] == b[i],
    ensures
        parts_upto(a, n) == parts_upto(b, n),
    decreases n,
{
    if n > 0 {
        lemma_parts_prefix(a, b, (n - 1) as nat);
    }
}

/// A list whose views hold no nested operation holds none.
pub proof fn lemma_plain_views(ops: Seq<DrawOp>)
    requires
        plain(op_views(ops)),
    ensures
        no_nested(ops),
{
    assert forall|i: int| 0 <= i < ops.len() implies !(#[trigger] ops[i]@ is Nested) by {
        assert(op_views(ops)[i] == ops[i]@);
    }
}

/// What a renderer draws with holds a value that awaits the pass exactly
/// when there is a first such value.
pub proof fn lemma_payload_first(r: GeometryRenderer, phase: Phase)
    ensures
        r.payload_needs(phase) <==> r.payload_first(phase) is Some,
{
    match r {
        GeometryRenderer::Point(_, _) => {},
        GeometryRenderer::Line(_, renderer) => {
            lemma_line_first(renderer.inner, phase);
        },
        GeometryRenderer::Area(_, renderer) => {
            lemma_area_first(renderer.inner, phase);
        },
    }
}

/// Whether no operation of a list is a nested one.
pub open spec fn no_nested(ops: Seq<DrawOp>) -> bool {
    forall|i: int| 0 <= i < ops.len() ==> !(#[trigger] ops[i]@ is Nested)
}

/// Whether every operation of a list is ready to be painted.
pub open spec fn all_settled(ops: Seq<DrawOp>) -> bool {
    forall|i: int| 0 <= i < ops.len() ==> settled_op(#[trigger] ops[i]@)
}

/// Replaces every nested operation by what the ring renderer it names
/// draws for its ring: a point renderer a circle round the centroid of the
/// ring, if `measure` finds one; an area renderer what it draws for the hull
/// of the ring as `hull` gives it, nested operations replaced in turn. A
/// nested operation that names no renderer gives nothing. Every other
/// operation stays, and all keep their order.
pub fn expand_area<H: Fn(&Vec<Coord>) -> Polygon, M: Fn(&Measure) -> Option<Coord>>(
    area: &AreaRenderer,
    ops: &Vec<DrawOp>,
    hull: &H,
    measure: &M,
) -> (out: Vec<DrawOp>)
    requires
        forall|coords: &Vec<Coord>| hull.requires((coords,)),
        forall|task: &Measure| measure.requires((task,)),
    ensures
        no_nested(out@),
        no_nested(ops@) ==> op_views(out@) == op_views(ops@),
        ops_expand(*area, op_views(ops@), ops@.len(), *hull, *measure, op_views(out@)),
    decreases area,
{
    let mut out: Vec<DrawOp> = Vec::new();
    let mut i: usize = 0;
    while i < ops.len()
        invariant
            i <= ops.len(),
            forall|coords: &Vec<Coord>| hull.requires((coords,)),
            forall|task: &Measure| measure.requires((task,)),
            no_nested(out@),
            no_nested(ops@) ==> op_views(out@) == op_views(ops@.take(i as int)),
            ops_expand(*area, op_views(ops@), i as nat, *hull, *measure, op_views(out@)),
        decreases ops.len() - i,
    {
        let ghost before = out@;
        let ghost op = op_views(ops@)[i as int];
        assert(op == ops@[i as int]@);
        match &ops[i] {
            DrawOp::Nested { kind, index, ring } => {
                assert(ops@[i as int]@ is Nested);
                let children = area.line_renderers.inner.get(*kind);
                if *index < children.len() {
                    match &children[*index].inner {
                        GeometryRenderer::Point(_, point) => {
                            let task = Measure::Centroid(Geometry::LineString(ring.clone()));
                            let answer = measure(&task);
                            assert(answers_to(
                                *measure,
                                MeasureView::Centroid(GeometryView::LineString(ring@)),
                                answer,
                            ));
                            match answer {
                                Some(c) => {
                                    let circle = point.inner.circle(&c);
                                    proof {
                                        lemma_op_views_push(out@, circle);
                                    }
                                    out.push(circle);
                                    assert(op_views(out@) =~= op_views(before) + seq![
                                        circle_of(point.inner, c),
                                    ]);
                                },
                                None => {
                                    assert(op_views(out@) =~= op_views(before) + Seq::<
                                        DrawOpView,
                                    >::empty());
                                },
                            }
                            assert(op_expands(
                                *area,
                                op,
                                *hull,
                                *measure,
                                match answer {
                                    Some(c) => seq![circle_of(point.inner, c)],
                                    None => Seq::empty(),
                                },
                            ));
                        },
                        GeometryRenderer::Area(_, inner_area) => {
                            let polygon = hull(&ring.0);
                            assert(hull_gave(*hull, ring@, polygon));
                            let planned = inner_area.inner.draw(&polygon);
                            let mut expanded = expand_area(
                                &inner_area.inner,
                                &planned,
                                hull,
                                measure,
                            );
                            let ghost added = expanded@;
                            proof {
                                lemma_op_views_add(out@, added);
                            }
                            out.append(&mut expanded);
                            assert forall|k: int| 0 <= k < out@.len() implies !(
                            #[trigger] out@[k]@ is Nested) by {
                                if k < before.len() {
                                    assert(out@[k] == before[k]);
                                } else {
                                    assert(out@[k] == added[k - before.len()]);
                                }
                            }
                            assert(op_expands(*area, op, *hull, *measure, op_views(added)));
                        },
                        GeometryRenderer::Line(_, _) => {
                            assert(op_views(out@) =~= op_views(before) + Seq::<DrawOpView>::empty());
                            assert(op_expands(*area, op, *hull, *measure, Seq::empty()));
                        },
                    }
                } else {
                    assert(op_views(out@) =~= op_views(before) + Seq::<DrawOpView>::empty());
                    assert(op_expands(*area, op, *hull, *measure, Seq::empty()));
                }
            },
            other => {
                let copy = other.clone();
                proof {
                    lemma_op_views_push(out@, copy);
                }
                out.push(copy);
                assert(no_nested(ops@) ==> op_views(out@) =~= op_views(
                    ops@.take((i + 1) as int),
                ));
                assert(op_views(out@) =~= op_views(before) + seq![op]);
                assert(op_expands(*area, op, *hull, *measure, seq![op]));
            },
        }
        proof {
            let last = choose|last: Seq<DrawOpView>|
                op_views(out@) == op_views(before) + last && #[trigger] op_expands(
                    *area,
                    op,
                    *hull,
                    *measure,
                    last,
                );
            let n = (i + 1) as nat;
            assert(n <= op_views(ops@).len());
            assert((n - 1) as nat == i as nat);
            assert(op_views(ops@)[n - 1] == op);
            assert(ops_expand(
                *area,
                op_views(ops@),
                (n - 1) as nat,
                *hull,
                *measure,
                op_views(before),
            ));
            lemma_ops_expand_step(
                *area,
                op_views(ops@),
                n,
                *hull,
                *measure,
                op_views(before),
                last,
            );
        }
        i += 1;
    }
    assert(ops@.take(ops@.len() as int) =~= ops@);
    out
}

impl GeometryRenderer {
    /// The filter that chooses the geometries.
    pub fn filter(&self) -> (f: &RenderedGeometryFilter)
        ensures
            *f == (match *self {
                GeometryRenderer::Point(filter, _) => filter.inner,
                GeometryRenderer::Line(filter, _) => filter.inner,
                GeometryRenderer::Area(filter, _) => filter.inner,
            }),
    {
        match self {
            GeometryRenderer::Point(filter, _) => &filter.inner,
            GeometryRenderer::Line(filter, _) => &filter.inner,
            GeometryRenderer::Area(filter, _) => &filter.inner,
        }
    }

    /// What the renderer draws for one geometry, whatever its layer.
    ///
    /// A point renderer works out the centre point of the geometry for the
    /// given rectangle, a line renderer its lines, an area renderer its
    /// areas; what is found is remembered in the geometry (see
    /// [`worked_out`]), and what is drawn is [`planned_ops`] of what the
    /// geometry then remembers.
    pub fn plan<H: Fn(&Vec<Coord>) -> Polygon, M: Fn(&Measure) -> Option<Coord>>(
        &self,
        geom: &mut RenderedGeometry,
        rect: Option<Rect>,
        hull: &H,
        measure: &M,
    ) -> (ops: Vec<DrawOp>)
        requires
            forall|coords: &Vec<Coord>| hull.requires((coords,)),
            forall|task: &Measure| measure.requires((task,)),
        ensures
            op_views(ops@) == planned_ops(*self, final(geom)@),
            worked_out(*self, old(geom)@, rect, *hull, *measure, final(geom)@),
            final(geom)@.geometry == old(geom)@.geometry,
            final(geom)@.layer == old(geom)@.layer,
            final(geom)@.props == old(geom)@.props,
            match *self {
                GeometryRenderer::Point(_, _) => {
                    &&& final(geom)@.center matches Some((held, point))
                    &&& held == rect
                    &&& center_plan(old(geom)@.geometry, rect) matches CenterPlan::Known(c) ==> point
                        == c
                    &&& final(geom)@.lines == old(geom)@.lines
                    &&& final(geom)@.areas == old(geom)@.areas
                },
                GeometryRenderer::Line(_, _) => {
                    &&& final(geom)@.lines == Some(lines_of(old(geom)@.geometry))
                    &&& final(geom)@.center == old(geom)@.center
                    &&& final(geom)@.areas == old(geom)@.areas
                },
                GeometryRenderer::Area(_, _) => {
                    &&& final(geom)@.areas matches Some(areas)
                    &&& areas_fit(area_sources(old(geom)@.geometry), areas)
                    &&& final(geom)@.center == old(geom)@.center
                    &&& final(geom)@.lines == old(geom)@.lines
                },
            },
    {
        match self {
            GeometryRenderer::Point(_, point) => {
                let mut ops: Vec<DrawOp> = Vec::new();
                match geom.center_point(rect, measure) {
                    Some(c) => {
                        ops.push(point.inner.circle(&c));
                        assert(op_views(ops@) =~= seq![circle_of(point.inner, c)]);
                    },
                    None => {
                        assert(op_views(ops@) =~= Seq::<DrawOpView>::empty());
                    },
                }
                ops
            },
            GeometryRenderer::Line(_, line) => {
                match geom.lines() {
                    Some(lines) => line.inner.draw_multi(lines),
                    None => {
                        let ops: Vec<DrawOp> = Vec::new();
                        assert(op_views(ops@) =~= Seq::<DrawOpView>::empty());
                        ops
                    },
                }
            },
            GeometryRenderer::Area(_, area) => {
                match geom.areas(hull) {
                    Some(areas) => {
                        proof {
                            if old(geom)@.areas is None {
                                assert(areas_follow(
                                    area_sources(old(geom)@.geometry),
                                    *hull,
                                    areas@,
                                ));
                            }
                        }
                        area.inner.draw_multi(areas)
                    },
                    None => {
                        let ops: Vec<DrawOp> = Vec::new();
                        proof {
                            let none = Seq::<Polygon>::empty();
                            assert(polygon_views(none) =~= Seq::<PolygonView>::empty());
                            if old(geom)@.areas is None {
                                assert(areas_follow(area_sources(old(geom)@.geometry), *hull, none));
                            }
                        }
                        assert(op_views(ops@) =~= Seq::<DrawOpView>::empty());
                        ops
                    },
                }
            },
        }
    }

    /// Whether what the renderer draws with holds, at any depth, a value
    /// that awaits the pass. The filter does not count.
    pub open spec fn payload_needs(self, phase: Phase) -> bool {
        match self {
            GeometryRenderer::Point(_, renderer) => awaits(renderer.kind@, phase) || point_needs(
                renderer.inner,
                phase,
            ),
            GeometryRenderer::Line(_, renderer) => awaits(renderer.kind@, phase) || line_needs(
                renderer.inner,
                phase,
            ),
            GeometryRenderer::Area(_, renderer) => awaits(renderer.kind@, phase) || area_needs(
                renderer.inner,
                phase,
            ),
        }
    }

    /// The kind of the first value in what the renderer draws with that
    /// awaits the pass: its own, else the first inside. The filter does not
    /// count.
    pub open spec fn payload_first(self, phase: Phase) -> Option<KindView> {
        match self {
            GeometryRenderer::Point(_, renderer) => first_of(
                awaiting(renderer.kind@, phase),
                point_first(renderer.inner, phase),
            ),
            GeometryRenderer::Line(_, renderer) => first_of(
                awaiting(renderer.kind@, phase),
                line_first(renderer.inner, phase),
            ),
            GeometryRenderer::Area(_, renderer) => first_of(
                awaiting(renderer.kind@, phase),
                area_first(renderer.inner, phase),
            ),
        }
    }

    /// Whether a renderer is as following the references in what it draws
    /// with may leave it: of the same variant, with the same filter, and
    /// with what it draws with from the same place as before.
    pub open spec fn payload_kept(self, after: GeometryRenderer) -> bool {
        match (self, after) {
            (GeometryRenderer::Point(f0, r0), GeometryRenderer::Point(f1, r1)) => f1 == f0
                && same_source(r0, r1),
            (GeometryRenderer::Line(f0, r0), GeometryRenderer::Line(f1, r1)) => f1 == f0
                && same_source(r0, r1),
            (GeometryRenderer::Area(f0, r0), GeometryRenderer::Area(f1, r1)) => f1 == f0
                && same_source(r0, r1),
            _ => false,
        }
    }

    /// What following the references to properties in what the renderer
    /// draws with makes of it: the renderer stays of its variant, its filter
    /// is left as it is, and what it draws with is resolved in the second
    /// pass.
    pub open spec fn payload_resolved<S: StyleSource>(
        self,
        props: Properties,
        source: S,
        depth: usize,
        after: GeometryRenderer,
        r: Result<(), String>,
    ) -> bool {
        match (self, after) {
            (GeometryRenderer::Point(f0, r0), GeometryRenderer::Point(f1, r1)) => f1 == f0
                && point_node_resolved(r0, Phase::Convert, props, source, depth, r1, r),
            (GeometryRenderer::Line(f0, r0), GeometryRenderer::Line(f1, r1)) => f1 == f0
                && line_node_resolved(r0, Phase::Convert, props, source, depth, r1, r),
            (GeometryRenderer::Area(f0, r0), GeometryRenderer::Area(f1, r1)) => f1 == f0
                && area_node_resolved(r0, Phase::Convert, props, source, depth, r1, r),
            _ => false,
        }
    }

    /// Follows, for the feature whose properties are given, the references
    /// to properties in what the renderer draws with, up to the first
    /// failure. The filter is left as it is, and so is everything where no
    /// such reference is held.
    ///
    /// The renderer afterwards and the outcome are what
    /// [`GeometryRenderer::payload_resolved`] says of the answers of the
    /// source. As far as the outcome is settled before anything is loaded
    /// (see [`owed`]), that is the outcome, and the renderer is left as it
    /// is: it fails where the first reference names a property that the
    /// feature lacks, and where no depth is left. The renderer stays of its
    /// variant, and what it draws with keeps where it comes from.
    pub fn convert_payload<S: StyleSource>(
        &mut self,
        props: &Properties,
        source: &S,
        depth: usize,
    ) -> (r: Result<(), String>)
        ensures
            final(self).filter_view() == old(self).filter_view(),
            !old(self).payload_needs(Phase::Convert) ==> r is Ok && *final(self) == *old(self),
            owed(old(self).payload_first(Phase::Convert), Phase::Convert, *props, depth) matches Some(
                v,
            ) ==> outcome_view(r) == v && *final(self) == *old(self),
            old(self).payload_resolved(*props, *source, depth, *final(self), r),
            old(self).payload_kept(*final(self)),
    {
        proof {
            lemma_payload_first(*self, Phase::Convert);
        }
        match self {
            GeometryRenderer::Point(_, renderer) => resolve_point_node(
                renderer,
                Phase::Convert,
                props,
                source,
                depth,
            ),
            GeometryRenderer::Line(_, renderer) => resolve_line_node(
                renderer,
                Phase::Convert,
                props,
                source,
                depth,
            ),
            GeometryRenderer::Area(_, renderer) => resolve_area_node(
                renderer,
                Phase::Convert,
                props,
                source,
                depth,
            ),
        }
    }

    /// The mathematical content of the filter.
    pub open spec fn filter_view(self) -> FilterView {
        match self {
            GeometryRenderer::Point(filter, _) => filter.inner@,
            GeometryRenderer::Line(filter, _) => filter.inner@,
            GeometryRenderer::Area(filter, _) => filter.inner@,
        }
    }

    /// What the renderer draws for one geometry: the planned operations with
    /// the nested ones replaced by what they stand for.
    pub fn expand<H: Fn(&Vec<Coord>) -> Polygon, M: Fn(&Measure) -> Option<Coord>>(
        &self,
        ops: &Vec<DrawOp>,
        hull: &H,
        measure: &M,
    ) -> (out: Vec<DrawOp>)
        requires
            forall|coords: &Vec<Coord>| hull.requires((coords,)),
            forall|task: &Measure| measure.requires((task,)),
        ensures
            no_nested(out@),
            no_nested(ops@) ==> op_views(out@) == op_views(ops@),
            *self matches GeometryRenderer::Area(_, area) ==> ops_expand(
                area.inner,
                op_views(ops@),
                ops@.len(),
                *hull,
                *measure,
                op_views(out@),
            ),
    {
        match self {
            GeometryRenderer::Area(_, area) => expand_area(&area.inner, ops, hull, measure),
            _ => {
                let empty = AreaRenderer::default();
                expand_area(&empty, ops, hull, measure)
            },
        }
    }

    /// Draws one geometry if the filter takes it.
    ///
    /// The references to properties in the style are followed for the
    /// feature of the geometry, the operations are planned from what the
    /// geometry gives, the nested ones are replaced by what they stand for,
    /// and the radius of every circle is settled. A geometry that the
    /// filter does not take gives nothing and is left as it is. For any
    /// other, the renderer works out what it draws from, which the geometry
    /// then remembers (see [`worked_out`]): a point renderer the centre
    /// point for the rectangle, a line renderer the lines, an area renderer
    /// the areas. What is drawn is what the renderer, as the references
    /// left it, draws from that (see [`one_drawn`]). A renderer without
    /// references to properties is left as it is, and fails only where a
    /// radius is no number.
    pub fn draw_one<
        S: StyleSource,
        H: Fn(&Vec<Coord>) -> Polygon,
        M: Fn(&Measure) -> Option<Coord>,
        N: Fn(&PropValue) -> Result<u64, String>,
    >(
        &mut self,
        geom: &mut RenderedGeometry,
        render_rect: Option<Rect>,
        source: &S,
        hull: &H,
        measure: &M,
        number: &N,
        depth: usize,
    ) -> (r: Result<Vec<DrawOp>, String>)
        requires
            forall|coords: &Vec<Coord>| hull.requires((coords,)),
            forall|task: &Measure| measure.requires((task,)),
            forall|value: &PropValue| number.requires((value,)),
        ensures
            final(self).filter_view() == old(self).filter_view(),
            final(geom)@.geometry == old(geom)@.geometry,
            final(geom)@.layer == old(geom)@.layer,
            final(geom)@.props == old(geom)@.props,
            r matches Ok(ops) ==> all_settled(ops@),
            !filter_takes(old(self).filter_view(), old(geom)@.layer) ==> (r matches Ok(ops)
                && ops@.len() == 0 && *final(self) == *old(self) && final(geom)@ == old(geom)@),
            filter_takes(old(self).filter_view(), old(geom)@.layer) ==> (r matches Ok(ops)
                ==> drawn_for(
                *final(self),
                old(geom)@,
                final(geom)@,
                render_rect,
                *hull,
                *measure,
                *number,
                op_views(ops@),
            )),
            filter_takes(old(self).filter_view(), old(geom)@.layer) && !old(self).payload_needs(
                Phase::Convert,
            ) ==> *final(self) == *old(self) && (r matches Err(message) ==> fails_for(
                *old(self),
                old(geom)@,
                final(geom)@,
                render_rect,
                *hull,
                *measure,
                *number,
                message,
            )),
            forall|message: Seq<char>|
                filter_takes(old(self).filter_view(), old(geom)@.layer) && #[trigger] owed_failure(
                    *old(self),
                    old(geom)@.props,
                    depth,
                    message,
                ) ==> (r matches Err(m) && m@ == message) && *final(self) == *old(self)
                    && final(geom)@ == old(geom)@,
            one_drawn(
                *old(self),
                old(geom)@,
                final(geom)@,
                *source,
                render_rect,
                *hull,
                *measure,
                *number,
                depth,
                *final(self),
                draw_view(r),
            ),
    {
        if !geom.fit_filter(self.filter()) {
            let none: Vec<DrawOp> = Vec::new();
            assert(op_views(none@).len() == 0);
            return Ok(none);
        }
        let converted = self.convert_payload(geom.props(), source, depth);
        let ghost settled = converted;
        match converted {
            Err(message) => {
                return Err(message);
            },
            Ok(()) => {
                assert(settled->Ok_0 == ());
            },
        }
        let planned = self.plan(geom, render_rect, hull, measure);
        let expanded = self.expand(&planned, hull, measure);
        let r = settle_radii(&expanded, number);
        proof {
            let ready = op_views(expanded@);
            assert(op_views(planned@).len() == planned@.len());
            assert(made_ready(*self, geom@, *hull, *measure, ready)) by {
                match *self {
                    GeometryRenderer::Area(_, _) => {},
                    GeometryRenderer::Line(_, line) => {
                        match geom@.lines {
                            Some(lines) => {
                                lemma_lines_plain(line.inner, lines, lines.len());
                            },
                            None => {},
                        }
                        assert(plain(op_views(planned@)));
                        lemma_plain_views(planned@);
                    },
                    GeometryRenderer::Point(_, _) => {
                        assert(plain(op_views(planned@)));
                        lemma_plain_views(planned@);
                    },
                }
            }
            match &r {
                Ok(ops) => {
                    assert forall|k: int| 0 <= k < ops@.len() implies settled_op(
                        #[trigger] ops@[k]@,
                    ) by {
                        assert(!(expanded@[k]@ is Nested));
                    }
                    assert forall|k: int| 0 <= k < ready.len() implies op_settles(
                        ready[k],
                        *number,
                        #[trigger] op_views(ops@)[k],
                    ) by {
                        assert(op_views(ops@)[k] == ops@[k]@);
                        assert(ready[k] == expanded@[k]@);
                    }
                    assert(settles_to(ready, *number, op_views(ops@)));
                },
                Err(message) => {
                    let message = *message;
                    let k = choose|k: int|
                        0 <= k < expanded@.len() && (#[trigger] expanded@[k]@ matches DrawOpView::FillCircle {
                            radius,
                            ..
                        } && double_follows(radius, *number, Err(message)));
                    assert(ready[k] == expanded@[k]@);
                    assert(fails_at(ready, *number, message));
                },
            }
        }
        r
    }

    /// Draws the geometries that the filter takes, in their order.
    ///
    /// For each such geometry the references to properties in the style are
    /// followed for the feature of the geometry, the operations are planned
    /// from what the geometry gives, the nested ones are replaced by what
    /// they stand for, and the radius of every circle is settled. The first
    /// failure ends the drawing. Without a geometry that the filter takes
    /// nothing is drawn and nothing fails.
    ///
    /// The renderer and the geometries afterwards, and what is drawn or the
    /// failure, are what [`all_drawn`] says of the answers of the source.
    /// Where a failure is settled for the first geometry that the filter
    /// takes before anything is loaded, that is the failure, and the
    /// renderer is left as it is. A renderer without references to
    /// properties is left as it is and fails only where, for a geometry that
    /// its filter takes, a radius is no number.
    pub fn draw<
        S: StyleSource,
        H: Fn(&Vec<Coord>) -> Polygon,
        M: Fn(&Measure) -> Option<Coord>,
        N: Fn(&PropValue) -> Result<u64, String>,
    >(
        &mut self,
        rendered_geometrys: &mut Vec<RenderedGeometry>,
        render_rect: Option<Rect>,
        source: &S,
        hull: &H,
        measure: &M,
        number: &N,
        depth: usize,
    ) -> (r: Result<Vec<DrawOp>, String>)
        requires
            forall|coords: &Vec<Coord>| hull.requires((coords,)),
            forall|task: &Measure| measure.requires((task,)),
            forall|value: &PropValue| number.requires((value,)),
        ensures
            final(self).filter_view() == old(self).filter_view(),
            final(rendered_geometrys)@.len() == old(rendered_geometrys)@.len(),
            forall|i: int|
                0 <= i < old(rendered_geometrys)@.len() ==> {
                    &&& (#[trigger] final(rendered_geometrys)@[i])@.geometry == old(
                        rendered_geometrys,
                    )@[i]@.geometry
                    &&& final(rendered_geometrys)@[i]@.layer == old(rendered_geometrys)@[i]@.layer
                    &&& final(rendered_geometrys)@[i]@.props == old(rendered_geometrys)@[i]@.props
                },
            r matches Ok(ops) ==> all_settled(ops@),
            (forall|i: int|
                0 <= i < old(rendered_geometrys)@.len() ==> !filter_takes(
                    old(self).filter_view(),
                    (#[trigger] old(rendered_geometrys)@[i])@.layer,
                )) ==> (r matches Ok(ops) && ops@.len() == 0 && *final(self) == *old(self)),
            !old(self).payload_needs(Phase::Convert) ==> *final(self) == *old(self) && (
            r matches Ok(ops) ==> layer_drawn(
                *old(self),
                old(rendered_geometrys)@,
                final(rendered_geometrys)@,
                render_rect,
                *hull,
                *measure,
                *number,
                op_views(ops@),
            )),
            !old(self).payload_needs(Phase::Convert) ==> (r matches Err(message) ==> exists|i: int|
                0 <= i < old(rendered_geometrys)@.len() && filter_takes(
                    old(self).filter_view(),
                    old(rendered_geometrys)@[i]@.layer,
                ) && #[trigger] fails_for(
                    *old(self),
                    old(rendered_geometrys)@[i]@,
                    final(rendered_geometrys)@[i]@,
                    render_rect,
                    *hull,
                    *measure,
                    *number,
                    message,
                )),
            forall|i: int, message: Seq<char>|
                first_taken(old(self).filter_view(), old(rendered_geometrys)@, i)
                    && #[trigger] owed_failure(
                    *old(self),
                    old(rendered_geometrys)@[i]@.props,
                    depth,
                    message,
                ) ==> (r matches Err(m) && m@ == message) && *final(self) == *old(self),
            all_drawn(
                *old(self),
                old(rendered_geometrys)@,
                final(rendered_geometrys)@,
                *source,
                render_rect,
                *hull,
                *measure,
                *number,
                depth,
                *final(self),
                draw_view(r),
            ),
    {
        let mut ops: Vec<DrawOp> = Vec::new();
        let mut i: usize = 0;
        let ghost mut parts: Seq<Seq<DrawOpView>> = Seq::empty();
        let ghost mut styles: Seq<GeometryRenderer> = seq![*self];
        assert(op_views(ops@) =~= parts_upto(parts, 0));
        while i < rendered_geometrys.len()
            invariant
                i <= rendered_geometrys.len(),
                forall|coords: &Vec<Coord>| hull.requires((coords,)),
                forall|task: &Measure| measure.requires((task,)),
                forall|value: &PropValue| number.requires((value,)),
                self.filter_view() == old(self).filter_view(),
                rendered_geometrys@.len() == old(rendered_geometrys)@.len(),
                forall|k: int|
                    0 <= k < old(rendered_geometrys)@.len() ==> {
                        &&& (#[trigger] rendered_geometrys@[k])@.geometry == old(
                            rendered_geometrys,
                        )@[k]@.geometry
                        &&& rendered_geometrys@[k]@.layer == old(rendered_geometrys)@[k]@.layer
                        &&& rendered_geometrys@[k]@.props == old(rendered_geometrys)@[k]@.props
                    },
                all_settled(ops@),
                (forall|k: int|
                    0 <= k < i ==> !filter_takes(
                        old(self).filter_view(),
                        (#[trigger] old(rendered_geometrys)@[k])@.layer,
                    )) ==> ops@.len() == 0 && *self == *old(self),
                forall|k: int|
                    i <= k < rendered_geometrys@.len() ==> rendered_geometrys@[k] == old(
                        rendered_geometrys,
                    )@[k],
                parts.len() == i,
                op_views(ops@) == parts_upto(parts, i as nat),
                styles[i as int] == *self,
                drawn_upto(
                    *old(self),
                    old(rendered_geometrys)@,
                    rendered_geometrys@,
                    *source,
                    render_rect,
                    *hull,
                    *measure,
                    *number,
                    depth,
                    styles,
                    parts,
                    i as nat,
                ),
                forall|k: int, message: Seq<char>|
                    0 <= k < i && first_taken(old(self).filter_view(), old(rendered_geometrys)@, k)
                        ==> !#[trigger] owed_failure(
                        *old(self),
                        old(rendered_geometrys)@[k]@.props,
                        depth,
                        message,
                    ),
                !old(self).payload_needs(Phase::Convert) ==> {
                    &&& *self == *old(self)
                    &&& parts_drawn(
                        *old(self),
                        old(rendered_geometrys)@,
                        rendered_geometrys@,
                        render_rect,
                        *hull,
                        *measure,
                        *number,
                        parts,
                        i as nat,
                    )
                },
            decreases rendered_geometrys.len() - i,
        {
            let ghost held = rendered_geometrys@;
            let ghost came = *self;
            let drawn = self.draw_one(
                &mut rendered_geometrys[i],
                render_rect,
                source,
                hull,
                measure,
                number,
                depth,
            );
            let ghost outcome = draw_view(drawn);
            proof {
                assert(held[i as int] == old(rendered_geometrys)@[i as int]);
                assert forall|k: int| 0 <= k < i implies one_drawn(
                    styles[k],
                    old(rendered_geometrys)@[k]@,
                    rendered_geometrys@[k]@,
                    *source,
                    render_rect,
                    *hull,
                    *measure,
                    *number,
                    depth,
                    styles[k + 1],
                    Ok(#[trigger] parts[k]),
                ) by {
                    assert(rendered_geometrys@[k] == held[k]);
                }
                assert forall|k: int| i < k < rendered_geometrys@.len() implies (
                #[trigger] rendered_geometrys@[k]) == old(rendered_geometrys)@[k] by {
                    assert(rendered_geometrys@[k] == held[k]);
                }
            }
            match drawn {
                Err(message) => {
                    proof {
                        assert(outcome == Err::<Seq<DrawOpView>, String>(message));
                        assert(drawn_upto(
                            *old(self),
                            old(rendered_geometrys)@,
                            rendered_geometrys@,
                            *source,
                            render_rect,
                            *hull,
                            *measure,
                            *number,
                            depth,
                            styles,
                            parts,
                            i as nat,
                        ));
                        assert(styles[i as int] == came);
                        assert(one_drawn(
                            styles[i as int],
                            old(rendered_geometrys)@[i as int]@,
                            rendered_geometrys@[i as int]@,
                            *source,
                            render_rect,
                            *hull,
                            *measure,
                            *number,
                            depth,
                            *self,
                            Err::<Seq<DrawOpView>, String>(message),
                        ));
                        assert(all_drawn(
                            *old(self),
                            old(rendered_geometrys)@,
                            rendered_geometrys@,
                            *source,
                            render_rect,
                            *hull,
                            *measure,
                            *number,
                            depth,
                            *self,
                            Err::<Seq<DrawOpView>, String>(message),
                        ));
                        if !old(self).payload_needs(Phase::Convert) {
                            assert(fails_for(
                                *old(self),
                                old(rendered_geometrys)@[i as int]@,
                                rendered_geometrys@[i as int]@,
                                render_rect,
                                *hull,
                                *measure,
                                *number,
                                message,
                            ));
                        }
                        assert forall|k: int, text: Seq<char>|
                            first_taken(old(self).filter_view(), old(rendered_geometrys)@, k)
                                && #[trigger] owed_failure(
                                *old(self),
                                old(rendered_geometrys)@[k]@.props,
                                depth,
                                text,
                            ) implies message@ == text && *self == *old(self) by {
                            if k > i {
                                assert(!filter_takes(
                                    old(self).filter_view(),
                                    old(rendered_geometrys)@[i as int]@.layer,
                                ));
                            }
                        }
                    }
                    return Err(message);
                },
                Ok(part) => {
                    let mut part = part;
                    let ghost before = ops@;
                    let ghost added = part@;
                    proof {
                        lemma_op_views_add(before, added);
                        assert(outcome == Ok::<Seq<DrawOpView>, String>(op_views(added)));
                        let earlier_styles = styles;
                        styles = styles.push(*self);
                        assert forall|k: int| 0 <= k <= i implies styles[k] == earlier_styles[k] by {}
                    }
                    ops.append(&mut part);
                    assert forall|k: int| 0 <= k < ops@.len() implies settled_op(
                        #[trigger] ops@[k]@,
                    ) by {
                        if k < before.len() {
                            assert(ops@[k] == before[k]);
                        } else {
                            assert(ops@[k] == added[k - before.len()]);
                        }
                    }
                    proof {
                        let earlier = parts;
                        parts = parts.push(op_views(added));
                        lemma_parts_prefix(earlier, parts, i as nat);
                        assert forall|k: int| 0 <= k < i + 1 implies one_drawn(
                            styles[k],
                            old(rendered_geometrys)@[k]@,
                            rendered_geometrys@[k]@,
                            *source,
                            render_rect,
                            *hull,
                            *measure,
                            *number,
                            depth,
                            styles[k + 1],
                            Ok(#[trigger] parts[k]),
                        ) by {
                            if k < i {
                                assert(parts[k] == earlier[k]);
                            }
                        }
                        if !old(self).payload_needs(Phase::Convert) {
                            assert forall|k: int| 0 <= k < i + 1 implies part_drawn(
                                *old(self),
                                old(rendered_geometrys)@[k]@,
                                rendered_geometrys@[k]@,
                                render_rect,
                                *hull,
                                *measure,
                                *number,
                                #[trigger] parts[k],
                            ) by {
                                if k < i {
                                    assert(parts[k] == earlier[k]);
                                    assert(rendered_geometrys@[k] == held[k]);
                                } else {
                                    assert(held[k] == old(rendered_geometrys)@[k]);
                                }
                            }
                        }
                    }
                },
            }
            assert forall|k: int| 0 <= k < old(rendered_geometrys)@.len() implies {
                &&& (#[trigger] rendered_geometrys@[k])@.geometry == old(
                    rendered_geometrys,
                )@[k]@.geometry
                &&& rendered_geometrys@[k]@.layer == old(rendered_geometrys)@[k]@.layer
                &&& rendered_geometrys@[k]@.props == old(rendered_geometrys)@[k]@.props
            } by {
                if k != i {
                    assert(rendered_geometrys@[k] == held[k]);
                }
            }
            i += 1;
        }
        Ok(ops)
    }
}

} // verus!
