//! Resolving a tree of renderers: every value that stands for a reference
//! is replaced by what the reference points at, pass by pass.
//!
//! A tree in which no value awaits a pass is left as it is by that pass, and
//! the pass cannot fail on it. What a pass makes of any other tree is stated
//! over the answers that the source of styles gives, which are taken as they
//! come.
use crate::magic_value::{
    awaiting, awaits, first_of, first_view, lemma_owed_fetch, load_from, loads, outcome_view, owed,
    owed_fetch, passing, reference_of, same_source, taking, too_deep, too_deep_message, verdict,
    Converted, Fetched, KindView, Loader, MagicConverter, MagicFetcher, MagicValue, MagicValueKind,
    Phase, PropValue, Properties,
};
use crate::paint::Stroke;
use crate::renderer::area_renderer::{AreaRenderer, RingRenderers};
use crate::renderer::geometry_renderer::{GeometryRenderer, RenderedGeometryFilter};
use crate::renderer::line_renderer::{LineRenderer, NodeRenderers};
use crate::renderer::point_renderer::PointRenderer;
use crate::resolved::{
    area_doc_resolved, area_node_resolved, area_resolved, bare, done, line_doc_resolved,
    line_node_resolved, line_resolved, list_resolved, node_doc_resolved, node_resolved,
    point_doc_resolved, point_node_resolved, point_resolved, renderer_resolved,
    rings_doc_resolved, rings_node_resolved, rings_resolved, stopped,
};
use vstd::prelude::*;

verus! {

/// A source of styles: it loads, for every kind of value that a style may
/// give by reference, what a reference points at.
pub trait StyleSource: Loader<PropValue> + Loader<peniko::Brush> + Loader<Stroke> + Loader<
    RenderedGeometryFilter,
> + Loader<PointRenderer> + Loader<LineRenderer> + Loader<AreaRenderer> + Loader<
    RingRenderers,
> + Loader<GeometryRenderer> {

}

/// Whether a point renderer holds a value that awaits the pass.
pub open spec fn point_needs(p: PointRenderer, phase: Phase) -> bool {
    awaits(p.radius.kind@, phase) || awaits(p.brush.kind@, phase)
}

/// Whether a renderer holds, at any depth, a value that awaits the pass.
pub open spec fn renderer_needs(r: GeometryRenderer, phase: Phase) -> bool
    decreases r,
{
    match r {
        GeometryRenderer::Point(filter, renderer) => awaits(filter.kind@, phase) || awaits(
            renderer.kind@,
            phase,
        ) || point_needs(renderer.inner, phase),
        GeometryRenderer::Line(filter, renderer) => awaits(filter.kind@, phase) || awaits(
            renderer.kind@,
            phase,
        ) || line_needs(renderer.inner, phase),
        GeometryRenderer::Area(filter, renderer) => awaits(filter.kind@, phase) || awaits(
            renderer.kind@,
            phase,
        ) || area_needs(renderer.inner, phase),
    }
}

/// Whether a line renderer holds, at any depth, a value that awaits the
/// pass.
pub open spec fn line_needs(l: LineRenderer, phase: Phase) -> bool
    decreases l,
{
    awaits(l.stroke.kind@, phase) || awaits(l.brush.kind@, phase) || nodes_need(
        l.node_renderers,
        phase,
    )
}

/// Whether one of the renderers at the positions of a chain holds, at any
/// depth, a value that awaits the pass.
pub open spec fn nodes_need(n: NodeRenderers, phase: Phase) -> bool
    decreases n,
{
    list_needs(n.all, phase) || list_needs(n.mid, phase) || list_needs(n.start, phase)
        || list_needs(n.end, phase)
}

/// Whether an area renderer holds, at any depth, a value that awaits the
/// pass.
pub open spec fn area_needs(a: AreaRenderer, phase: Phase) -> bool
    decreases a,
{
    awaits(a.brush.kind@, phase) || awaits(a.line_renderers.kind@, phase) || rings_need(
        a.line_renderers.inner,
        phase,
    )
}

/// Whether one of the ring renderers holds, at any depth, a value that
/// awaits the pass.
pub open spec fn rings_need(r: RingRenderers, phase: Phase) -> bool
    decreases r,
{
    list_needs(r.all, phase) || list_needs(r.exterior, phase) || list_needs(r.interior, phase)
}

/// Whether a renderer given directly or by reference awaits the pass or
/// holds, at any depth, a value that does.
pub open spec fn node_needs(node: MagicValue<GeometryRenderer>, phase: Phase) -> bool
    decreases node,
{
    awaits(node.kind@, phase) || renderer_needs(node.inner, phase)
}

/// Whether one of the first `n` renderers of a list needs the pass.
pub open spec fn list_needs_upto(v: Vec<MagicValue<GeometryRenderer>>, phase: Phase, n: nat) -> bool
    decreases v, n,
{
    if n == 0 || n > v@.len() {
        false
    } else {
        list_needs_upto(v, phase, (n - 1) as nat) || node_needs(v@[n - 1], phase)
    }
}

/// Whether one of the renderers of a list needs the pass.
pub open spec fn list_needs(v: Vec<MagicValue<GeometryRenderer>>, phase: Phase) -> bool
    decreases v, v@.len() + 1,
{
    list_needs_upto(v, phase, v@.len())
}

/// Whether one of the renderers of a list needs the pass.
pub fn list_awaits(v: &Vec<MagicValue<GeometryRenderer>>, phase: Phase) -> (r: bool)
    ensures
        r == list_needs(*v, phase),
    decreases v,
{
    let mut i: usize = 0;
    while i < v.len()
        invariant
            i <= v.len(),
            !list_needs_upto(*v, phase, i as nat),
        decreases v.len() - i,
    {
        if node_awaits(&v[i], phase) {
            proof {
                lemma_needs_from(*v, phase, (i + 1) as nat, v@.len());
            }
            return true;
        }
        i += 1;
    }
    false
}

/// Once one of the first `n` renderers needs the pass, so does one of any
/// longer stretch.
pub proof fn lemma_needs_from(v: Vec<MagicValue<GeometryRenderer>>, phase: Phase, n: nat, m: nat)
    requires
        n <= m <= v@.len(),
        list_needs_upto(v, phase, n),
    ensures
        list_needs_upto(v, phase, m),
    decreases m,
{
    if n < m {
        lemma_needs_from(v, phase, n, (m - 1) as nat);
    }
}

/// Where none of the first `n` renderers of a list needs the pass, none of
/// them does.
pub proof fn lemma_needs_none(v: Vec<MagicValue<GeometryRenderer>>, phase: Phase, n: nat, i: int)
    requires
        n <= v@.len(),
        !list_needs_upto(v, phase, n),
        0 <= i < n,
    ensures
        !node_needs(v@[i], phase),
    decreases n,
{
    if i < n - 1 {
        lemma_needs_none(v, phase, (n - 1) as nat, i);
    }
}

/// Whether a renderer given directly or by reference needs the pass.
pub fn node_awaits(node: &MagicValue<GeometryRenderer>, phase: Phase) -> (r: bool)
    ensures
        r == node_needs(*node, phase),
    decreases node,
{
    node.awaits(phase) || renderer_awaits(&node.inner, phase)
}

/// Whether a renderer holds, at any depth, a value that awaits the pass.
pub fn renderer_awaits(r: &GeometryRenderer, phase: Phase) -> (b: bool)
    ensures
        b == renderer_needs(*r, phase),
    decreases r,
{
    match r {
        GeometryRenderer::Point(filter, renderer) => filter.awaits(phase) || renderer.awaits(
            phase,
        ) || renderer.inner.radius.awaits(phase) || renderer.inner.brush.awaits(phase),
        GeometryRenderer::Line(filter, renderer) => filter.awaits(phase) || renderer.awaits(phase)
            || line_awaits(&renderer.inner, phase),
        GeometryRenderer::Area(filter, renderer) => filter.awaits(phase) || renderer.awaits(phase)
            || area_awaits(&renderer.inner, phase),
    }
}

/// Whether a line renderer holds, at any depth, a value that awaits the
/// pass.
pub fn line_awaits(l: &LineRenderer, phase: Phase) -> (b: bool)
    ensures
        b == line_needs(*l, phase),
    decreases l,
{
    l.stroke.awaits(phase) || l.brush.awaits(phase) || list_awaits(&l.node_renderers.all, phase)
        || list_awaits(&l.node_renderers.mid, phase) || list_awaits(
        &l.node_renderers.start,
        phase,
    ) || list_awaits(&l.node_renderers.end, phase)
}

/// Whether an area renderer holds, at any depth, a value that awaits the
/// pass.
pub fn area_awaits(a: &AreaRenderer, phase: Phase) -> (b: bool)
    ensures
        b == area_needs(*a, phase),
    decreases a,
{
    a.brush.awaits(phase) || a.line_renderers.awaits(phase) || rings_await(
        &a.line_renderers.inner,
        phase,
    )
}

/// Whether one of the ring renderers holds, at any depth, a value that
/// awaits the pass.
pub fn rings_await(r: &RingRenderers, phase: Phase) -> (b: bool)
    ensures
        b == rings_need(*r, phase),
    decreases r,
{
    list_awaits(&r.all, phase) || list_awaits(&r.exterior, phase) || list_awaits(
        &r.interior,
        phase,
    )
}

/// The kind of the first value of a point renderer that awaits the pass, in
/// the order in which the pass goes through them: the brush, then the
/// radius.
pub open spec fn point_first(p: PointRenderer, phase: Phase) -> Option<KindView> {
    first_of(awaiting(p.brush.kind@, phase), awaiting(p.radius.kind@, phase))
}

/// The kind of the first value of a renderer that awaits the pass: the
/// filter, then what it draws with, then what that holds.
pub open spec fn renderer_first(r: GeometryRenderer, phase: Phase) -> Option<KindView>
    decreases r,
{
    match r {
        GeometryRenderer::Point(filter, renderer) => first_of(
            awaiting(filter.kind@, phase),
            first_of(awaiting(renderer.kind@, phase), point_first(renderer.inner, phase)),
        ),
        GeometryRenderer::Line(filter, renderer) => first_of(
            awaiting(filter.kind@, phase),
            first_of(awaiting(renderer.kind@, phase), line_first(renderer.inner, phase)),
        ),
        GeometryRenderer::Area(filter, renderer) => first_of(
            awaiting(filter.kind@, phase),
            first_of(awaiting(renderer.kind@, phase), area_first(renderer.inner, phase)),
        ),
    }
}

/// The kind of the first value of a line renderer that awaits the pass: the
/// stroke, the brush, then the renderers at the positions.
pub open spec fn line_first(l: LineRenderer, phase: Phase) -> Option<KindView>
    decreases l,
{
    first_of(
        awaiting(l.stroke.kind@, phase),
        first_of(awaiting(l.brush.kind@, phase), nodes_first(l.node_renderers, phase)),
    )
}

/// The kind of the first value among the renderers at the positions of a
/// chain that awaits the pass: those for all positions, for the middle, for
/// the first and for the last, in this order.
pub open spec fn nodes_first(n: NodeRenderers, phase: Phase) -> Option<KindView>
    decreases n,
{
    first_of(
        list_first(n.all, phase),
        first_of(
            list_first(n.mid, phase),
            first_of(list_first(n.start, phase), list_first(n.end, phase)),
        ),
    )
}

/// The kind of the first value of an area renderer that awaits the pass: the
/// brush, then the ring renderers.
pub open spec fn area_first(a: AreaRenderer, phase: Phase) -> Option<KindView>
    decreases a,
{
    first_of(
        awaiting(a.brush.kind@, phase),
        first_of(
            awaiting(a.line_renderers.kind@, phase),
            rings_first(a.line_renderers.inner, phase),
        ),
    )
}

/// The kind of the first value among the ring renderers that awaits the
/// pass: those for all rings, for the outer one and for the inner ones, in
/// this order.
pub open spec fn rings_first(r: RingRenderers, phase: Phase) -> Option<KindView>
    decreases r,
{
    first_of(
        list_first(r.all, phase),
        first_of(list_first(r.exterior, phase), list_first(r.interior, phase)),
    )
}

/// The kind of the first value of a renderer given directly or by reference
/// that awaits the pass: its own, else the first inside.
pub open spec fn node_first(node: MagicValue<GeometryRenderer>, phase: Phase) -> Option<KindView>
    decreases node,
{
    first_of(awaiting(node.kind@, phase), renderer_first(node.inner, phase))
}

/// The kind of the first value among the first `n` renderers of a list that
/// awaits the pass.
pub open spec fn list_first_upto(
    v: Vec<MagicValue<GeometryRenderer>>,
    phase: Phase,
    n: nat,
) -> Option<KindView>
    decreases v, n,
{
    if n == 0 || n > v@.len() {
        None
    } else {
        first_of(list_first_upto(v, phase, (n - 1) as nat), node_first(v@[n - 1], phase))
    }
}

/// The kind of the first value among the renderers of a list that awaits
/// the pass.
pub open spec fn list_first(v: Vec<MagicValue<GeometryRenderer>>, phase: Phase) -> Option<KindView>
    decreases v, v@.len() + 1,
{
    list_first_upto(v, phase, v@.len())
}

/// A renderer holds a value that awaits the pass exactly when there is a
/// first such value.
pub proof fn lemma_renderer_first(r: GeometryRenderer, phase: Phase)
    ensures
        renderer_needs(r, phase) <==> renderer_first(r, phase) is Some,
    decreases r,
{
    match r {
        GeometryRenderer::Point(_, _) => {},
        GeometryRenderer::Line(_, renderer) => {
            lemma_line_first(renderer.inner, phase);
        },
        GeometryRenderer::Area(_, renderer) => {
            lemma_area_first(renderer.inner, phase);
        },
    }
}

/// A line renderer holds a value that awaits the pass exactly when there is
/// a first such value.
pub proof fn lemma_line_first(l: LineRenderer, phase: Phase)
    ensures
        line_needs(l, phase) <==> line_first(l, phase) is Some,
    decreases l,
{
    lemma_list_first(l.node_renderers.all, phase, l.node_renderers.all@.len());
    lemma_list_first(l.node_renderers.mid, phase, l.node_renderers.mid@.len());
    lemma_list_first(l.node_renderers.start, phase, l.node_renderers.start@.len());
    lemma_list_first(l.node_renderers.end, phase, l.node_renderers.end@.len());
}

/// An area renderer holds a value that awaits the pass exactly when there
/// is a first such value.
pub proof fn lemma_area_first(a: AreaRenderer, phase: Phase)
    ensures
        area_needs(a, phase) <==> area_first(a, phase) is Some,
    decreases a,
{
    lemma_rings_first(a.line_renderers.inner, phase);
}

/// One of the ring renderers holds a value that awaits the pass exactly
/// when there is a first such value.
pub proof fn lemma_rings_first(r: RingRenderers, phase: Phase)
    ensures
        rings_need(r, phase) <==> rings_first(r, phase) is Some,
    decreases r,
{
    lemma_list_first(r.all, phase, r.all@.len());
    lemma_list_first(r.exterior, phase, r.exterior@.len());
    lemma_list_first(r.interior, phase, r.interior@.len());
}

/// One of the first `n` renderers of a list needs the pass exactly when
/// there is a first value among them that awaits it.
pub proof fn lemma_list_first(v: Vec<MagicValue<GeometryRenderer>>, phase: Phase, n: nat)
    ensures
        list_needs_upto(v, phase, n) <==> list_first_upto(v, phase, n) is Some,
    decreases v, n,
{
    if !(n == 0 || n > v@.len()) {
        let node = v@[n - 1];
        lemma_list_first(v, phase, (n - 1) as nat);
        lemma_renderer_first(node.inner, phase);
        assert(node_needs(node, phase) <==> node_first(node, phase) is Some);
        assert(list_needs_upto(v, phase, n) == (list_needs_upto(v, phase, (n - 1) as nat)
            || node_needs(node, phase)));
        assert(list_first_upto(v, phase, n) == first_of(
            list_first_upto(v, phase, (n - 1) as nat),
            node_first(node, phase),
        ));
    }
}

/// Whether a value given directly or by reference is as a pass may leave
/// it: it comes from the same place, and is the same where it did not
/// await the pass.
pub open spec fn leaf_kept<T>(before: MagicValue<T>, after: MagicValue<T>, phase: Phase) -> bool {
    same_source(before, after) && (!awaits(before.kind@, phase) ==> after == before)
}

/// Whether a point renderer is as a pass may leave it: the brush and the
/// radius are kept as values are, and the rest is the same.
pub open spec fn point_kept(before: PointRenderer, after: PointRenderer, phase: Phase) -> bool {
    &&& leaf_kept(before.brush, after.brush, phase)
    &&& leaf_kept(before.radius, after.radius, phase)
    &&& after.must_show == before.must_show
}

/// Whether a list of renderers is as a pass may leave it: as long as
/// before, each member from the same place as before, and the same where
/// it needed nothing.
pub open spec fn list_kept(
    before: Seq<MagicValue<GeometryRenderer>>,
    after: Seq<MagicValue<GeometryRenderer>>,
    phase: Phase,
) -> bool {
    &&& after.len() == before.len()
    &&& forall|i: int|
        0 <= i < before.len() ==> same_source(before[i], #[trigger] after[i]) && (!node_needs(
            before[i],
            phase,
        ) ==> after[i] == before[i])
}

/// Whether a renderer is as a pass may leave it: of the same variant, with
/// the filter kept as a value is and what it draws with from the same place
/// as before.
pub open spec fn renderer_kept(before: GeometryRenderer, after: GeometryRenderer, phase: Phase) -> bool {
    match (before, after) {
        (GeometryRenderer::Point(f0, r0), GeometryRenderer::Point(f1, r1)) => leaf_kept(
            f0,
            f1,
            phase,
        ) && same_source(r0, r1),
        (GeometryRenderer::Line(f0, r0), GeometryRenderer::Line(f1, r1)) => leaf_kept(
            f0,
            f1,
            phase,
        ) && same_source(r0, r1),
        (GeometryRenderer::Area(f0, r0), GeometryRenderer::Area(f1, r1)) => leaf_kept(
            f0,
            f1,
            phase,
        ) && same_source(r0, r1),
        _ => false,
    }
}

/// Whether a line renderer is as a pass may leave it: the stroke and the
/// brush are kept as values are, and the renderers at the positions as
/// lists are.
pub open spec fn line_kept(before: LineRenderer, after: LineRenderer, phase: Phase) -> bool {
    &&& leaf_kept(before.stroke, after.stroke, phase)
    &&& leaf_kept(before.brush, after.brush, phase)
    &&& list_kept(before.node_renderers.all@, after.node_renderers.all@, phase)
    &&& list_kept(before.node_renderers.mid@, after.node_renderers.mid@, phase)
    &&& list_kept(before.node_renderers.start@, after.node_renderers.start@, phase)
    &&& list_kept(before.node_renderers.end@, after.node_renderers.end@, phase)
}

/// Whether ring renderers are as a pass may leave them: each list kept as
/// lists are.
pub open spec fn rings_kept(before: RingRenderers, after: RingRenderers, phase: Phase) -> bool {
    &&& list_kept(before.all@, after.all@, phase)
    &&& list_kept(before.exterior@, after.exterior@, phase)
    &&& list_kept(before.interior@, after.interior@, phase)
}

/// Whether an area renderer is as a pass may leave it: the brush is kept as
/// values are, and the ring renderers come from the same place as before.
pub open spec fn area_kept(before: AreaRenderer, after: AreaRenderer, phase: Phase) -> bool {
    &&& leaf_kept(before.brush, after.brush, phase)
    &&& same_source(before.line_renderers, after.line_renderers)
}

/// A list is as a pass may leave it where it is as it was.
pub proof fn lemma_list_kept_same(v: Seq<MagicValue<GeometryRenderer>>, phase: Phase)
    ensures
        list_kept(v, v, phase),
{
}

/// The kind of the first value of a point renderer that awaits the pass.
pub fn first_in_point<'a>(p: &'a PointRenderer, phase: Phase) -> (r: Option<&'a MagicValueKind>)
    ensures
        first_view(r) == point_first(*p, phase),
{
    match p.brush.kind.awaiting(phase) {
        Some(kind) => Some(kind),
        None => p.radius.kind.awaiting(phase),
    }
}

/// The kind of the first value among the renderers of a list that awaits
/// the pass.
pub fn first_in_list<'a>(v: &'a Vec<MagicValue<GeometryRenderer>>, phase: Phase) -> (r: Option<
    &'a MagicValueKind,
>)
    ensures
        first_view(r) == list_first(*v, phase),
    decreases v,
{
    let mut i: usize = 0;
    while i < v.len()
        invariant
            i <= v.len(),
            list_first_upto(*v, phase, i as nat) is None,
        decreases v.len() - i,
    {
        match first_in_node(&v[i], phase) {
            Some(kind) => {
                proof {
                    lemma_first_found(*v, phase, (i + 1) as nat, v@.len());
                }
                return Some(kind);
            },
            None => {},
        }
        i += 1;
    }
    None
}

/// Once there is a first value among the first `n` renderers of a list, it
/// is the first of any longer stretch.
pub proof fn lemma_first_found(v: Vec<MagicValue<GeometryRenderer>>, phase: Phase, n: nat, m: nat)
    requires
        n <= m <= v@.len(),
        list_first_upto(v, phase, n) is Some,
    ensures
        list_first_upto(v, phase, m) == list_first_upto(v, phase, n),
    decreases m,
{
    if n < m {
        lemma_first_found(v, phase, n, (m - 1) as nat);
    }
}

/// The kind of the first value of a renderer given directly or by reference
/// that awaits the pass.
pub fn first_in_node<'a>(node: &'a MagicValue<GeometryRenderer>, phase: Phase) -> (r: Option<
    &'a MagicValueKind,
>)
    ensures
        first_view(r) == node_first(*node, phase),
    decreases node,
{
    match node.kind.awaiting(phase) {
        Some(kind) => Some(kind),
        None => first_in_renderer(&node.inner, phase),
    }
}

/// The kind of the first value of a renderer that awaits the pass.
pub fn first_in_renderer<'a>(r: &'a GeometryRenderer, phase: Phase) -> (first: Option<
    &'a MagicValueKind,
>)
    ensures
        first_view(first) == renderer_first(*r, phase),
    decreases r,
{
    match r {
        GeometryRenderer::Point(filter, renderer) => match filter.kind.awaiting(phase) {
            Some(kind) => Some(kind),
            None => match renderer.kind.awaiting(phase) {
                Some(kind) => Some(kind),
                None => first_in_point(&renderer.inner, phase),
            },
        },
        GeometryRenderer::Line(filter, renderer) => match filter.kind.awaiting(phase) {
            Some(kind) => Some(kind),
            None => match renderer.kind.awaiting(phase) {
                Some(kind) => Some(kind),
                None => first_in_line(&renderer.inner, phase),
            },
        },
        GeometryRenderer::Area(filter, renderer) => match filter.kind.awaiting(phase) {
            Some(kind) => Some(kind),
            None => match renderer.kind.awaiting(phase) {
                Some(kind) => Some(kind),
                None => first_in_area(&renderer.inner, phase),
            },
        },
    }
}

/// The kind of the first value of a line renderer that awaits the pass.
pub fn first_in_line<'a>(l: &'a LineRenderer, phase: Phase) -> (first: Option<&'a MagicValueKind>)
    ensures
        first_view(first) == line_first(*l, phase),
    decreases l,
{
    match l.stroke.kind.awaiting(phase) {
        Some(kind) => Some(kind),
        None => match l.brush.kind.awaiting(phase) {
            Some(kind) => Some(kind),
            None => match first_in_list(&l.node_renderers.all, phase) {
                Some(kind) => Some(kind),
                None => match first_in_list(&l.node_renderers.mid, phase) {
                    Some(kind) => Some(kind),
                    None => match first_in_list(&l.node_renderers.start, phase) {
                        Some(kind) => Some(kind),
                        None => first_in_list(&l.node_renderers.end, phase),
                    },
                },
            },
        },
    }
}

/// The kind of the first value of an area renderer that awaits the pass.
pub fn first_in_area<'a>(a: &'a AreaRenderer, phase: Phase) -> (first: Option<&'a MagicValueKind>)
    ensures
        first_view(first) == area_first(*a, phase),
    decreases a,
{
    match a.brush.kind.awaiting(phase) {
        Some(kind) => Some(kind),
        None => match a.line_renderers.kind.awaiting(phase) {
            Some(kind) => Some(kind),
            None => first_in_rings(&a.line_renderers.inner, phase),
        },
    }
}

/// The kind of the first value among the ring renderers that awaits the
/// pass.
pub fn first_in_rings<'a>(r: &'a RingRenderers, phase: Phase) -> (first: Option<
    &'a MagicValueKind,
>)
    ensures
        first_view(first) == rings_first(*r, phase),
    decreases r,
{
    match first_in_list(&r.all, phase) {
        Some(kind) => Some(kind),
        None => match first_in_list(&r.exterior, phase) {
            Some(kind) => Some(kind),
            None => first_in_list(&r.interior, phase),
        },
    }
}

/// Whether a point renderer holds a value that awaits the pass.
pub fn point_awaits(p: &PointRenderer, phase: Phase) -> (b: bool)
    ensures
        b == point_needs(*p, phase),
{
    p.radius.awaits(phase) || p.brush.awaits(phase)
}

/// Resolves the values of a point renderer in one pass: the brush, then
/// the radius, up to the first failure.
///
/// The renderer after the pass and the outcome are what [`point_resolved`]
/// says of the answers of the source. As far as the outcome is settled
/// before anything is loaded (see [`owed`]), that is the outcome, and the
/// renderer is left as it is. Every value keeps where it comes from, and a
/// value that does not await the pass is left as it is.
pub fn resolve_point<S: StyleSource>(
    p: &mut PointRenderer,
    phase: Phase,
    props: &Properties,
    source: &S,
    depth: usize,
) -> (r: Result<(), String>)
    ensures
        !point_needs(*old(p), phase) ==> r is Ok && *final(p) == *old(p),
        owed(point_first(*old(p), phase), phase, *props, depth) matches Some(v) ==> outcome_view(r)
            == v && *final(p) == *old(p),
        point_resolved(*old(p), phase, *props, *source, depth, *final(p), r),
        point_kept(*old(p), *final(p), phase),
{
    match p.brush.resolve_leaf(phase, props, source, depth) {
        Err(message) => {
            return Err(message);
        },
        Ok(()) => {},
    }
    p.radius.resolve_leaf(phase, props, source, depth)
}

/// Resolves a point renderer given directly or by reference in one pass.
pub fn resolve_point_node<S: StyleSource>(
    node: &mut MagicValue<PointRenderer>,
    phase: Phase,
    props: &Properties,
    source: &S,
    depth: usize,
) -> (r: Result<(), String>)
    ensures
        !(awaits(old(node).kind@, phase) || point_needs(old(node).inner, phase)) ==> r is Ok
            && *final(node) == *old(node),
        final(node).kind == old(node).kind,
        final(node).need_scale == old(node).need_scale,
        reference_of(old(node).kind@, phase, *props) matches Err(message) ==> (r matches Err(m)
            && m@ == message),
        awaits(old(node).kind@, phase) && depth == 0 && reference_of(
            old(node).kind@,
            phase,
            *props,
        ) is Ok ==> (r matches Err(m) && m@ == too_deep_message()),
        owed(
            first_of(awaiting(old(node).kind@, phase), point_first(old(node).inner, phase)),
            phase,
            *props,
            depth,
        ) matches Some(v) ==> outcome_view(r) == v && *final(node) == *old(node),
        point_node_resolved(*old(node), phase, *props, *source, depth, *final(node), r),
    decreases depth, *old(node),
{
    if !(node.awaits(phase) || point_awaits(&node.inner, phase)) {
        return Ok(());
    }
    match node.reference(phase, props) {
        Err(message) => Err(message),
        Ok(Some(reference)) => {
            if depth == 0 {
                return Err(too_deep());
            }
            let loaded = load_from::<PointRenderer, S>(source, &reference);
            let ghost answer = loaded;
            assert(loads::<PointRenderer, S>(*source, reference@, answer));
            match loaded {
                Err(message) => {
                    assert(taking(answer, *node, done()));
                    Err(message)
                },
                Ok(loaded) => {
                    let mut loaded = loaded;
                    let ghost given = loaded;
                    let first = resolve_point_node(&mut loaded, Phase::Fetch, props, source, depth - 1);
                    let ghost mid = loaded;
                    let ghost fetched = first;
                    assert(passing(mid, fetched));
                    match first {
                        Err(message) => {
                            assert(point_doc_resolved(
                                given,
                                phase,
                                *props,
                                *source,
                                (depth - 1) as usize,
                                mid,
                                fetched,
                            ));
                            assert(taking(answer, mid, fetched));
                            return Err(message);
                        },
                        Ok(()) => {},
                    }
                    if phase == Phase::Convert {
                        let second = resolve_point_node(&mut loaded, Phase::Convert, props, source, depth - 1);
                        let ghost out = loaded;
                        let ghost converted = second;
                        assert(point_doc_resolved(
                            given,
                            phase,
                            *props,
                            *source,
                            (depth - 1) as usize,
                            out,
                            converted,
                        ));
                        assert(taking(answer, out, converted));
                        match second {
                            Err(message) => {
                                return Err(message);
                            },
                            Ok(()) => {},
                        }
                    } else {
                        assert(point_doc_resolved(
                            given,
                            phase,
                            *props,
                            *source,
                            (depth - 1) as usize,
                            mid,
                            fetched,
                        ));
                        assert(taking(answer, mid, fetched));
                    }
                    node.absorb(loaded);
                    Ok(())
                },
            }
        },
        Ok(None) => resolve_point(&mut node.inner, phase, props, source, depth),
    }
}

/// Resolves a list of renderers in one pass, in order, up to the first
/// failure.
///
/// The list after the pass and the outcome are what [`list_resolved`] says
/// of the answers of the source. As far as the outcome is settled before
/// anything is loaded (see [`owed`]), that is the outcome, and the list is
/// left as it is. Every member keeps where it comes from, and a member that
/// needs nothing is left as it is.
pub fn resolve_list<S: StyleSource>(
    v: &mut Vec<MagicValue<GeometryRenderer>>,
    phase: Phase,
    props: &Properties,
    source: &S,
    depth: usize,
) -> (r: Result<(), String>)
    ensures
        !list_needs(*old(v), phase) ==> r is Ok && *final(v) == *old(v),
        final(v)@.len() == old(v)@.len(),
        owed(list_first(*old(v), phase), phase, *props, depth) matches Some(w) ==> outcome_view(r)
            == w && *final(v) == *old(v),
        list_resolved(*old(v), phase, *props, *source, depth, *final(v), r),
        list_kept(old(v)@, final(v)@, phase),
    decreases depth, *old(v),
{
    proof {
        lemma_list_first(*v, phase, v@.len());
    }
    match verdict(first_in_list(v, phase), phase, props, depth) {
        Some(settled) => {
            return settled;
        },
        None => {},
    }
    let mut i: usize = 0;
    while i < v.len()
        invariant
            i <= v.len(),
            v@.len() == old(v)@.len(),
            list_needs(*old(v), phase),
            owed(list_first(*old(v), phase), phase, *props, depth) is None,
            forall|k: int| i <= k < v@.len() ==> v@[k] == old(v)@[k],
            forall|k: int|
                0 <= k < i ==> same_source(old(v)@[k], #[trigger] v@[k]) && (!node_needs(
                    old(v)@[k],
                    phase,
                ) ==> v@[k] == old(v)@[k]),
            forall|k: int|
                0 <= k < i ==> node_resolved(
                    old(v)@[k],
                    phase,
                    *props,
                    *source,
                    depth,
                    #[trigger] v@[k],
                    done(),
                ),
        decreases v.len() - i,
    {
        let ghost held = v@;
        let res = resolve_node(&mut v[i], phase, props, source, depth);
        assert forall|k: int| 0 <= k < i + 1 implies same_source(old(v)@[k], #[trigger] v@[k]) && (
        !node_needs(old(v)@[k], phase) ==> v@[k] == old(v)@[k]) by {
            if k < i {
                assert(v@[k] == held[k]);
            }
        }
        let ghost outcome = res;
        assert forall|k: int| 0 <= k < i implies node_resolved(
            old(v)@[k],
            phase,
            *props,
            *source,
            depth,
            #[trigger] v@[k],
            done(),
        ) by {
            assert(v@[k] == held[k]);
        }
        match res {
            Err(message) => {
                assert(stopped(i as int));
                assert(outcome == Err::<(), String>(message));
                return Err(message);
            },
            Ok(()) => {
                assert(outcome->Ok_0 == ());
                assert(node_resolved(
                    old(v)@[i as int],
                    phase,
                    *props,
                    *source,
                    depth,
                    v@[i as int],
                    done(),
                ));
            },
        }
        i += 1;
    }
    assert(stopped(v@.len() as int));
    Ok(())
}

/// Resolves a renderer given directly or by reference in one pass.
pub fn resolve_node<S: StyleSource>(
    node: &mut MagicValue<GeometryRenderer>,
    phase: Phase,
    props: &Properties,
    source: &S,
    depth: usize,
) -> (r: Result<(), String>)
    ensures
        !(awaits(old(node).kind@, phase) || renderer_needs(old(node).inner, phase)) ==> r is Ok
            && *final(node) == *old(node),
        final(node).kind == old(node).kind,
        final(node).need_scale == old(node).need_scale,
        reference_of(old(node).kind@, phase, *props) matches Err(message) ==> (r matches Err(m)
            && m@ == message),
        awaits(old(node).kind@, phase) && depth == 0 && reference_of(
            old(node).kind@,
            phase,
            *props,
        ) is Ok ==> (r matches Err(m) && m@ == too_deep_message()),
        owed(
            first_of(awaiting(old(node).kind@, phase), renderer_first(old(node).inner, phase)),
            phase,
            *props,
            depth,
        ) matches Some(v) ==> outcome_view(r) == v && *final(node) == *old(node),
        node_resolved(*old(node), phase, *props, *source, depth, *final(node), r),
    decreases depth, *old(node),
{
    proof {
        lemma_renderer_first(node.inner, phase);
    }
    if !(node.awaits(phase) || renderer_awaits(&node.inner, phase)) {
        return Ok(());
    }
    match node.reference(phase, props) {
        Err(message) => Err(message),
        Ok(Some(reference)) => {
            if depth == 0 {
                return Err(too_deep());
            }
            let loaded = load_from::<GeometryRenderer, S>(source, &reference);
            let ghost answer = loaded;
            assert(loads::<GeometryRenderer, S>(*source, reference@, answer));
            match loaded {
                Err(message) => {
                    assert(taking(answer, *node, done()));
                    Err(message)
                },
                Ok(loaded) => {
                    let mut loaded = loaded;
                    let ghost given = loaded;
                    let first = resolve_node(&mut loaded, Phase::Fetch, props, source, depth - 1);
                    let ghost mid = loaded;
                    let ghost fetched = first;
                    assert(passing(mid, fetched));
                    match first {
                        Err(message) => {
                            assert(node_doc_resolved(
                                given,
                                phase,
                                *props,
                                *source,
                                (depth - 1) as usize,
                                mid,
                                fetched,
                            ));
                            assert(taking(answer, mid, fetched));
                            return Err(message);
                        },
                        Ok(()) => {},
                    }
                    if phase == Phase::Convert {
                        let second = resolve_node(&mut loaded, Phase::Convert, props, source, depth - 1);
                        let ghost out = loaded;
                        let ghost converted = second;
                        assert(node_doc_resolved(
                            given,
                            phase,
                            *props,
                            *source,
                            (depth - 1) as usize,
                            out,
                            converted,
                        ));
                        assert(taking(answer, out, converted));
                        match second {
                            Err(message) => {
                                return Err(message);
                            },
                            Ok(()) => {},
                        }
                    } else {
                        assert(node_doc_resolved(
                            given,
                            phase,
                            *props,
                            *source,
                            (depth - 1) as usize,
                            mid,
                            fetched,
                        ));
                        assert(taking(answer, mid, fetched));
                    }
                    node.absorb(loaded);
                    Ok(())
                },
            }
        },
        Ok(None) => resolve_renderer(&mut node.inner, phase, props, source, depth),
    }
}

/// Resolves the values of a renderer in one pass: its filter, then what it
/// draws with, up to the first failure.
///
/// The renderer after the pass and the outcome are what
/// [`renderer_resolved`] says of the answers of the source. As far as the
/// outcome is settled before anything is loaded (see [`owed`]), that is the
/// outcome, and the renderer is left as it is. The renderer stays of its
/// variant, its values keep where they come from, and a filter that does
/// not await the pass is left as it is.
pub fn resolve_renderer<S: StyleSource>(
    r: &mut GeometryRenderer,
    phase: Phase,
    props: &Properties,
    source: &S,
    depth: usize,
) -> (res: Result<(), String>)
    ensures
        !renderer_needs(*old(r), phase) ==> res is Ok && *final(r) == *old(r),
        owed(renderer_first(*old(r), phase), phase, *props, depth) matches Some(v)
            ==> outcome_view(res) == v && *final(r) == *old(r),
        renderer_resolved(*old(r), phase, *props, *source, depth, *final(r), res),
        renderer_kept(*old(r), *final(r), phase),
    decreases depth, *old(r),
{
    proof {
        lemma_renderer_first(*r, phase);
    }
    match verdict(first_in_renderer(r, phase), phase, props, depth) {
        Some(settled) => {
            return settled;
        },
        None => {},
    }
    match r {
        GeometryRenderer::Point(filter, renderer) => {
            match filter.resolve_leaf(phase, props, source, depth) {
                Err(message) => {
                    return Err(message);
                },
                Ok(()) => {},
            }
            resolve_point_node(renderer, phase, props, source, depth)
        },
        GeometryRenderer::Line(filter, renderer) => {
            match filter.resolve_leaf(phase, props, source, depth) {
                Err(message) => {
                    return Err(message);
                },
                Ok(()) => {},
            }
            resolve_line_node(renderer, phase, props, source, depth)
        },
        GeometryRenderer::Area(filter, renderer) => {
            match filter.resolve_leaf(phase, props, source, depth) {
                Err(message) => {
                    return Err(message);
                },
                Ok(()) => {},
            }
            resolve_area_node(renderer, phase, props, source, depth)
        },
    }
}

/// Resolves a line renderer given directly or by reference in one pass.
pub fn resolve_line_node<S: StyleSource>(
    node: &mut MagicValue<LineRenderer>,
    phase: Phase,
    props: &Properties,
    source: &S,
    depth: usize,
) -> (r: Result<(), String>)
    ensures
        !(awaits(old(node).kind@, phase) || line_needs(old(node).inner, phase)) ==> r is Ok
            && *final(node) == *old(node),
        final(node).kind == old(node).kind,
        final(node).need_scale == old(node).need_scale,
        reference_of(old(node).kind@, phase, *props) matches Err(message) ==> (r matches Err(m)
            && m@ == message),
        awaits(old(node).kind@, phase) && depth == 0 && reference_of(
            old(node).kind@,
            phase,
            *props,
        ) is Ok ==> (r matches Err(m) && m@ == too_deep_message()),
        owed(
            first_of(awaiting(old(node).kind@, phase), line_first(old(node).inner, phase)),
            phase,
            *props,
            depth,
        ) matches Some(v) ==> outcome_view(r) == v && *final(node) == *old(node),
        line_node_resolved(*old(node), phase, *props, *source, depth, *final(node), r),
    decreases depth, *old(node),
{
    proof {
        lemma_line_first(node.inner, phase);
    }
    if !(node.awaits(phase) || line_awaits(&node.inner, phase)) {
        return Ok(());
    }
    match node.reference(phase, props) {
        Err(message) => Err(message),
        Ok(Some(reference)) => {
            if depth == 0 {
                return Err(too_deep());
            }
            let loaded = load_from::<LineRenderer, S>(source, &reference);
            let ghost answer = loaded;
            assert(loads::<LineRenderer, S>(*source, reference@, answer));
            match loaded {
                Err(message) => {
                    assert(taking(answer, *node, done()));
                    Err(message)
                },
                Ok(loaded) => {
                    let mut loaded = loaded;
                    let ghost given = loaded;
                    let first = resolve_line_node(&mut loaded, Phase::Fetch, props, source, depth - 1);
                    let ghost mid = loaded;
                    let ghost fetched = first;
                    assert(passing(mid, fetched));
                    match first {
                        Err(message) => {
                            assert(line_doc_resolved(
                                given,
                                phase,
                                *props,
                                *source,
                                (depth - 1) as usize,
                                mid,
                                fetched,
                            ));
                            assert(taking(answer, mid, fetched));
                            return Err(message);
                        },
                        Ok(()) => {},
                    }
                    if phase == Phase::Convert {
                        let second = resolve_line_node(&mut loaded, Phase::Convert, props, source, depth - 1);
                        let ghost out = loaded;
                        let ghost converted = second;
                        assert(line_doc_resolved(
                            given,
                            phase,
                            *props,
                            *source,
                            (depth - 1) as usize,
                            out,
                            converted,
                        ));
                        assert(taking(answer, out, converted));
                        match second {
                            Err(message) => {
                                return Err(message);
                            },
                            Ok(()) => {},
                        }
                    } else {
                        assert(line_doc_resolved(
                            given,
                            phase,
                            *props,
                            *source,
                            (depth - 1) as usize,
                            mid,
                            fetched,
                        ));
                        assert(taking(answer, mid, fetched));
                    }
                    node.absorb(loaded);
                    Ok(())
                },
            }
        },
        Ok(None) => resolve_line(&mut node.inner, phase, props, source, depth),
    }
}

/// Resolves the values of a line renderer in one pass: the stroke, the
/// brush, then the renderers at the positions, kind by kind, up to the
/// first failure.
///
/// What is there after the pass and the outcome are what
/// [`line_resolved`] says of the answers of the source. As far as the
/// outcome is settled before anything is loaded (see [`owed`]), that is the
/// outcome, and the renderer is left as it is. Every value keeps where it
/// comes from, and what needs nothing is left as it is.
pub fn resolve_line<S: StyleSource>(
    l: &mut LineRenderer,
    phase: Phase,
    props: &Properties,
    source: &S,
    depth: usize,
) -> (r: Result<(), String>)
    ensures
        !line_needs(*old(l), phase) ==> r is Ok && *final(l) == *old(l),
        owed(line_first(*old(l), phase), phase, *props, depth) matches Some(v) ==> outcome_view(r)
            == v && *final(l) == *old(l),
        line_resolved(*old(l), phase, *props, *source, depth, *final(l), r),
        line_kept(*old(l), *final(l), phase),
    decreases depth, *old(l),
{
    proof {
        lemma_line_first(*l, phase);
    }
    match verdict(first_in_line(l, phase), phase, props, depth) {
        Some(settled) => {
            return settled;
        },
        None => {},
    }
    match l.stroke.resolve_leaf(phase, props, source, depth) {
        Err(message) => {
            return Err(message);
        },
        Ok(()) => {},
    }
    match l.brush.resolve_leaf(phase, props, source, depth) {
        Err(message) => {
            return Err(message);
        },
        Ok(()) => {},
    }
    match resolve_list(&mut l.node_renderers.all, phase, props, source, depth) {
        Err(message) => {
            return Err(message);
        },
        Ok(()) => {},
    }
    match resolve_list(&mut l.node_renderers.mid, phase, props, source, depth) {
        Err(message) => {
            return Err(message);
        },
        Ok(()) => {},
    }
    match resolve_list(&mut l.node_renderers.start, phase, props, source, depth) {
        Err(message) => {
            return Err(message);
        },
        Ok(()) => {},
    }
    resolve_list(&mut l.node_renderers.end, phase, props, source, depth)
}

/// Resolves an area renderer given directly or by reference in one pass.
pub fn resolve_area_node<S: StyleSource>(
    node: &mut MagicValue<AreaRenderer>,
    phase: Phase,
    props: &Properties,
    source: &S,
    depth: usize,
) -> (r: Result<(), String>)
    ensures
        !(awaits(old(node).kind@, phase) || area_needs(old(node).inner, phase)) ==> r is Ok
            && *final(node) == *old(node),
        final(node).kind == old(node).kind,
        final(node).need_scale == old(node).need_scale,
        reference_of(old(node).kind@, phase, *props) matches Err(message) ==> (r matches Err(m)
            && m@ == message),
        awaits(old(node).kind@, phase) && depth == 0 && reference_of(
            old(node).kind@,
            phase,
            *props,
        ) is Ok ==> (r matches Err(m) && m@ == too_deep_message()),
        owed(
            first_of(awaiting(old(node).kind@, phase), area_first(old(node).inner, phase)),
            phase,
            *props,
            depth,
        ) matches Some(v) ==> outcome_view(r) == v && *final(node) == *old(node),
        area_node_resolved(*old(node), phase, *props, *source, depth, *final(node), r),
    decreases depth, *old(node),
{
    proof {
        lemma_area_first(node.inner, phase);
    }
    if !(node.awaits(phase) || area_awaits(&node.inner, phase)) {
        return Ok(());
    }
    match node.reference(phase, props) {
        Err(message) => Err(message),
        Ok(Some(reference)) => {
            if depth == 0 {
                return Err(too_deep());
            }
            let loaded = load_from::<AreaRenderer, S>(source, &reference);
            let ghost answer = loaded;
            assert(loads::<AreaRenderer, S>(*source, reference@, answer));
            match loaded {
                Err(message) => {
                    assert(taking(answer, *node, done()));
                    Err(message)
                },
                Ok(loaded) => {
                    let mut loaded = loaded;
                    let ghost given = loaded;
                    let first = resolve_area_node(&mut loaded, Phase::Fetch, props, source, depth - 1);
                    let ghost mid = loaded;
                    let ghost fetched = first;
                    assert(passing(mid, fetched));
                    match first {
                        Err(message) => {
                            assert(area_doc_resolved(
                                given,
                                phase,
                                *props,
                                *source,
                                (depth - 1) as usize,
                                mid,
                                fetched,
                            ));
                            assert(taking(answer, mid, fetched));
                            return Err(message);
                        },
                        Ok(()) => {},
                    }
                    if phase == Phase::Convert {
                        let second = resolve_area_node(&mut loaded, Phase::Convert, props, source, depth - 1);
                        let ghost out = loaded;
                        let ghost converted = second;
                        assert(area_doc_resolved(
                            given,
                            phase,
                            *props,
                            *source,
                            (depth - 1) as usize,
                            out,
                            converted,
                        ));
                        assert(taking(answer, out, converted));
                        match second {
                            Err(message) => {
                                return Err(message);
                            },
                            Ok(()) => {},
                        }
                    } else {
                        assert(area_doc_resolved(
                            given,
                            phase,
                            *props,
                            *source,
                            (depth - 1) as usize,
                            mid,
                            fetched,
                        ));
                        assert(taking(answer, mid, fetched));
                    }
                    node.absorb(loaded);
                    Ok(())
                },
            }
        },
        Ok(None) => resolve_area(&mut node.inner, phase, props, source, depth),
    }
}

/// Resolves the values of an area renderer in one pass: the brush, then the
/// ring renderers, up to the first failure.
///
/// What is there after the pass and the outcome are what
/// [`area_resolved`] says of the answers of the source. As far as the
/// outcome is settled before anything is loaded (see [`owed`]), that is the
/// outcome, and the renderer is left as it is. Every value keeps where it
/// comes from, and what needs nothing is left as it is.
pub fn resolve_area<S: StyleSource>(
    a: &mut AreaRenderer,
    phase: Phase,
    props: &Properties,
    source: &S,
    depth: usize,
) -> (r: Result<(), String>)
    ensures
        !area_needs(*old(a), phase) ==> r is Ok && *final(a) == *old(a),
        owed(area_first(*old(a), phase), phase, *props, depth) matches Some(v) ==> outcome_view(r)
            == v && *final(a) == *old(a),
        area_resolved(*old(a), phase, *props, *source, depth, *final(a), r),
        area_kept(*old(a), *final(a), phase),
    decreases depth, *old(a),
{
    proof {
        lemma_area_first(*a, phase);
    }
    match verdict(first_in_area(a, phase), phase, props, depth) {
        Some(settled) => {
            return settled;
        },
        None => {},
    }
    match a.brush.resolve_leaf(phase, props, source, depth) {
        Err(message) => {
            return Err(message);
        },
        Ok(()) => {},
    }
    resolve_rings_node(&mut a.line_renderers, phase, props, source, depth)
}

/// Resolves ring renderers given directly or by reference in one pass.
pub fn resolve_rings_node<S: StyleSource>(
    node: &mut MagicValue<RingRenderers>,
    phase: Phase,
    props: &Properties,
    source: &S,
    depth: usize,
) -> (r: Result<(), String>)
    ensures
        !(awaits(old(node).kind@, phase) || rings_need(old(node).inner, phase)) ==> r is Ok
            && *final(node) == *old(node),
        final(node).kind == old(node).kind,
        final(node).need_scale == old(node).need_scale,
        reference_of(old(node).kind@, phase, *props) matches Err(message) ==> (r matches Err(m)
            && m@ == message),
        awaits(old(node).kind@, phase) && depth == 0 && reference_of(
            old(node).kind@,
            phase,
            *props,
        ) is Ok ==> (r matches Err(m) && m@ == too_deep_message()),
        owed(
            first_of(awaiting(old(node).kind@, phase), rings_first(old(node).inner, phase)),
            phase,
            *props,
            depth,
        ) matches Some(v) ==> outcome_view(r) == v && *final(node) == *old(node),
        rings_node_resolved(*old(node), phase, *props, *source, depth, *final(node), r),
    decreases depth, *old(node),
{
    proof {
        lemma_rings_first(node.inner, phase);
    }
    if !(node.awaits(phase) || rings_await(&node.inner, phase)) {
        return Ok(());
    }
    match node.reference(phase, props) {
        Err(message) => Err(message),
        Ok(Some(reference)) => {
            if depth == 0 {
                return Err(too_deep());
            }
            let loaded = load_from::<RingRenderers, S>(source, &reference);
            let ghost answer = loaded;
            assert(loads::<RingRenderers, S>(*source, reference@, answer));
            match loaded {
                Err(message) => {
                    assert(taking(answer, *node, done()));
                    Err(message)
                },
                Ok(loaded) => {
                    let mut loaded = loaded;
                    let ghost given = loaded;
                    let first = resolve_rings_node(&mut loaded, Phase::Fetch, props, source, depth - 1);
                    let ghost mid = loaded;
                    let ghost fetched = first;
                    assert(passing(mid, fetched));
                    match first {
                        Err(message) => {
                            assert(rings_doc_resolved(
                                given,
                                phase,
                                *props,
                                *source,
                                (depth - 1) as usize,
                                mid,
                                fetched,
                            ));
                            assert(taking(answer, mid, fetched));
                            return Err(message);
                        },
                        Ok(()) => {},
                    }
                    if phase == Phase::Convert {
                        let second = resolve_rings_node(&mut loaded, Phase::Convert, props, source, depth - 1);
                        let ghost out = loaded;
                        let ghost converted = second;
                        assert(rings_doc_resolved(
                            given,
                            phase,
                            *props,
                            *source,
                            (depth - 1) as usize,
                            out,
                            converted,
                        ));
                        assert(taking(answer, out, converted));
                        match second {
                            Err(message) => {
                                return Err(message);
                            },
                            Ok(()) => {},
                        }
                    } else {
                        assert(rings_doc_resolved(
                            given,
                            phase,
                            *props,
                            *source,
                            (depth - 1) as usize,
                            mid,
                            fetched,
                        ));
                        assert(taking(answer, mid, fetched));
                    }
                    node.absorb(loaded);
                    Ok(())
                },
            }
        },
        Ok(None) => resolve_rings(&mut node.inner, phase, props, source, depth),
    }
}

/// Resolves the ring renderers in one pass, kind by kind, up to the first
/// failure.
///
/// What is there after the pass and the outcome are what
/// [`rings_resolved`] says of the answers of the source. As far as the
/// outcome is settled before anything is loaded (see [`owed`]), that is the
/// outcome, and the renderers are left as they are. Every value keeps where it
/// comes from, and what needs nothing is left as it is.
pub fn resolve_rings<S: StyleSource>(
    rings: &mut RingRenderers,
    phase: Phase,
    props: &Properties,
    source: &S,
    depth: usize,
) -> (r: Result<(), String>)
    ensures
        !rings_need(*old(rings), phase) ==> r is Ok && *final(rings) == *old(rings),
        owed(rings_first(*old(rings), phase), phase, *props, depth) matches Some(v)
            ==> outcome_view(r) == v && *final(rings) == *old(rings),
        rings_resolved(*old(rings), phase, *props, *source, depth, *final(rings), r),
        rings_kept(*old(rings), *final(rings), phase),
    decreases depth, *old(rings),
{
    proof {
        lemma_rings_first(*rings, phase);
    }
    match verdict(first_in_rings(rings, phase), phase, props, depth) {
        Some(settled) => {
            return settled;
        },
        None => {},
    }
    match resolve_list(&mut rings.all, phase, props, source, depth) {
        Err(message) => {
            return Err(message);
        },
        Ok(()) => {},
    }
    match resolve_list(&mut rings.exterior, phase, props, source, depth) {
        Err(message) => {
            return Err(message);
        },
        Ok(()) => {},
    }
    resolve_list(&mut rings.interior, phase, props, source, depth)
}


impl<S: StyleSource> Fetched<S> for PropValue {
    open spec fn fetch_gives(
        &self,
        source: S,
        depth: usize,
        after: Self,
        r: Result<(), String>,
    ) -> bool {
        r is Ok && after == *self
    }
}

impl MagicFetcher for PropValue {
    open spec fn fetched(&self) -> bool {
        true
    }

    fn fetch<S: StyleSource>(&mut self, source: &S, depth: usize) -> (r: Result<(), String>) {
        Ok(())
    }
}

impl<S: StyleSource> Converted<S> for PropValue {
    open spec fn convert_gives(
        &self,
        props: Properties,
        source: S,
        depth: usize,
        after: Self,
        r: Result<(), String>,
    ) -> bool {
        r is Ok && after == *self
    }
}

impl MagicConverter for PropValue {
    open spec fn converted(&self) -> bool {
        true
    }

    fn convert<S: StyleSource>(&mut self, props: &Properties, source: &S, depth: usize) -> (r:
        Result<(), String>) {
        Ok(())
    }
}

impl<S: StyleSource> Fetched<S> for peniko::Brush {
    open spec fn fetch_gives(
        &self,
        source: S,
        depth: usize,
        after: Self,
        r: Result<(), String>,
    ) -> bool {
        r is Ok && after == *self
    }
}

impl MagicFetcher for peniko::Brush {
    open spec fn fetched(&self) -> bool {
        true
    }

    fn fetch<S: StyleSource>(&mut self, source: &S, depth: usize) -> (r: Result<(), String>) {
        Ok(())
    }
}

impl<S: StyleSource> Converted<S> for peniko::Brush {
    open spec fn convert_gives(
        &self,
        props: Properties,
        source: S,
        depth: usize,
        after: Self,
        r: Result<(), String>,
    ) -> bool {
        r is Ok && after == *self
    }
}

impl MagicConverter for peniko::Brush {
    open spec fn converted(&self) -> bool {
        true
    }

    fn convert<S: StyleSource>(&mut self, props: &Properties, source: &S, depth: usize) -> (r:
        Result<(), String>) {
        Ok(())
    }
}

impl<S: StyleSource> Fetched<S> for Stroke {
    open spec fn fetch_gives(
        &self,
        source: S,
        depth: usize,
        after: Self,
        r: Result<(), String>,
    ) -> bool {
        r is Ok && after == *self
    }
}

impl MagicFetcher for Stroke {
    open spec fn fetched(&self) -> bool {
        true
    }

    fn fetch<S: StyleSource>(&mut self, source: &S, depth: usize) -> (r: Result<(), String>) {
        Ok(())
    }
}

impl<S: StyleSource> Converted<S> for Stroke {
    open spec fn convert_gives(
        &self,
        props: Properties,
        source: S,
        depth: usize,
        after: Self,
        r: Result<(), String>,
    ) -> bool {
        r is Ok && after == *self
    }
}

impl MagicConverter for Stroke {
    open spec fn converted(&self) -> bool {
        true
    }

    fn convert<S: StyleSource>(&mut self, props: &Properties, source: &S, depth: usize) -> (r:
        Result<(), String>) {
        Ok(())
    }
}

impl<S: StyleSource> Fetched<S> for RenderedGeometryFilter {
    open spec fn fetch_gives(
        &self,
        source: S,
        depth: usize,
        after: Self,
        r: Result<(), String>,
    ) -> bool {
        r is Ok && after == *self
    }
}

impl MagicFetcher for RenderedGeometryFilter {
    open spec fn fetched(&self) -> bool {
        true
    }

    fn fetch<S: StyleSource>(&mut self, source: &S, depth: usize) -> (r: Result<(), String>) {
        Ok(())
    }
}

impl<S: StyleSource> Converted<S> for RenderedGeometryFilter {
    open spec fn convert_gives(
        &self,
        props: Properties,
        source: S,
        depth: usize,
        after: Self,
        r: Result<(), String>,
    ) -> bool {
        r is Ok && after == *self
    }
}

impl MagicConverter for RenderedGeometryFilter {
    open spec fn converted(&self) -> bool {
        true
    }

    fn convert<S: StyleSource>(&mut self, props: &Properties, source: &S, depth: usize) -> (r:
        Result<(), String>) {
        Ok(())
    }
}

impl<S: StyleSource> Fetched<S> for PointRenderer {
    /// The first pass, in which properties play no part: what
    /// [`point_resolved`] says for a bag that holds none.
    open spec fn fetch_gives(
        &self,
        source: S,
        depth: usize,
        after: Self,
        r: Result<(), String>,
    ) -> bool {
        exists|props: Properties| #[trigger]
            bare(props) && point_resolved(*self, Phase::Fetch, props, source, depth, after, r)
    }
}

impl MagicFetcher for PointRenderer {
    open spec fn fetched(&self) -> bool {
        !point_needs(*self, Phase::Fetch)
    }

    /// Follows the references to files and addresses, up to the first
    /// failure: the first pass, in which properties play no part, so that
    /// what is there after it and the outcome are what [`point_resolved`]
    /// says for a bag that holds none. As far as the outcome is settled
    /// before anything is loaded (see [`owed_fetch`]), that is the outcome,
    /// and nothing is changed. Every value keeps where it comes from, and
    /// what needs nothing is left as it is.
    fn fetch<S: StyleSource>(&mut self, source: &S, depth: usize) -> (r: Result<(), String>)
        ensures
            owed_fetch(point_first(*old(self), Phase::Fetch), depth) matches Some(v)
                ==> outcome_view(r) == v && *final(self) == *old(self),
            point_kept(*old(self), *final(self), Phase::Fetch),
    {
        let props = Properties::new();
        proof {
            lemma_owed_fetch(point_first(*self, Phase::Fetch), props, depth);
        }
        let r = resolve_point(self, Phase::Fetch, &props, source, depth);
        assert(bare(props));
        r
    }
}

impl<S: StyleSource> Converted<S> for PointRenderer {
    /// The second pass: what [`point_resolved`] says for the properties
    /// given.
    open spec fn convert_gives(
        &self,
        props: Properties,
        source: S,
        depth: usize,
        after: Self,
        r: Result<(), String>,
    ) -> bool {
        point_resolved(*self, Phase::Convert, props, source, depth, after, r)
    }
}

impl MagicConverter for PointRenderer {
    open spec fn converted(&self) -> bool {
        !point_needs(*self, Phase::Convert)
    }

    /// Follows the references to properties, up to the first failure: the
    /// second pass, so that what is there after it and the outcome are what
    /// [`point_resolved`] says of the answers of the source. As far as the
    /// outcome is settled before anything is loaded (see [`owed`]), that is
    /// the outcome, and nothing is changed. Every value keeps where it
    /// comes from, and what needs nothing is left as it is.
    fn convert<S: StyleSource>(&mut self, props: &Properties, source: &S, depth: usize) -> (r:
        Result<(), String>)
        ensures
            owed(point_first(*old(self), Phase::Convert), Phase::Convert, *props, depth) matches Some(
                v,
            ) ==> outcome_view(r) == v && *final(self) == *old(self),
            point_kept(*old(self), *final(self), Phase::Convert),
    {
        resolve_point(self, Phase::Convert, props, source, depth)
    }
}

impl<S: StyleSource> Fetched<S> for LineRenderer {
    /// The first pass, in which properties play no part: what
    /// [`line_resolved`] says for a bag that holds none.
    open spec fn fetch_gives(
        &self,
        source: S,
        depth: usize,
        after: Self,
        r: Result<(), String>,
    ) -> bool {
        exists|props: Properties| #[trigger]
            bare(props) && line_resolved(*self, Phase::Fetch, props, source, depth, after, r)
    }
}

impl MagicFetcher for LineRenderer {
    open spec fn fetched(&self) -> bool {
        !line_needs(*self, Phase::Fetch)
    }

    /// Follows the references to files and addresses, up to the first
    /// failure: the first pass, in which properties play no part, so that
    /// what is there after it and the outcome are what [`line_resolved`]
    /// says for a bag that holds none. As far as the outcome is settled
    /// before anything is loaded (see [`owed_fetch`]), that is the outcome,
    /// and nothing is changed. Every value keeps where it comes from, and
    /// what needs nothing is left as it is.
    fn fetch<S: StyleSource>(&mut self, source: &S, depth: usize) -> (r: Result<(), String>)
        ensures
            owed_fetch(line_first(*old(self), Phase::Fetch), depth) matches Some(v)
                ==> outcome_view(r) == v && *final(self) == *old(self),
            line_kept(*old(self), *final(self), Phase::Fetch),
    {
        let props = Properties::new();
        proof {
            lemma_owed_fetch(line_first(*self, Phase::Fetch), props, depth);
        }
        let r = resolve_line(self, Phase::Fetch, &props, source, depth);
        assert(bare(props));
        r
    }
}

impl<S: StyleSource> Converted<S> for LineRenderer {
    /// The second pass: what [`line_resolved`] says for the properties
    /// given.
    open spec fn convert_gives(
        &self,
        props: Properties,
        source: S,
        depth: usize,
        after: Self,
        r: Result<(), String>,
    ) -> bool {
        line_resolved(*self, Phase::Convert, props, source, depth, after, r)
    }
}

impl MagicConverter for LineRenderer {
    open spec fn converted(&self) -> bool {
        !line_needs(*self, Phase::Convert)
    }

    /// Follows the references to properties, up to the first failure: the
    /// second pass, so that what is there after it and the outcome are what
    /// [`line_resolved`] says of the answers of the source. As far as the
    /// outcome is settled before anything is loaded (see [`owed`]), that is
    /// the outcome, and nothing is changed. Every value keeps where it
    /// comes from, and what needs nothing is left as it is.
    fn convert<S: StyleSource>(&mut self, props: &Properties, source: &S, depth: usize) -> (r:
        Result<(), String>)
        ensures
            owed(line_first(*old(self), Phase::Convert), Phase::Convert, *props, depth) matches Some(
                v,
            ) ==> outcome_view(r) == v && *final(self) == *old(self),
            line_kept(*old(self), *final(self), Phase::Convert),
    {
        resolve_line(self, Phase::Convert, props, source, depth)
    }
}

impl<S: StyleSource> Fetched<S> for AreaRenderer {
    /// The first pass, in which properties play no part: what
    /// [`area_resolved`] says for a bag that holds none.
    open spec fn fetch_gives(
        &self,
        source: S,
        depth: usize,
        after: Self,
        r: Result<(), String>,
    ) -> bool {
        exists|props: Properties| #[trigger]
            bare(props) && area_resolved(*self, Phase::Fetch, props, source, depth, after, r)
    }
}

impl MagicFetcher for AreaRenderer {
    open spec fn fetched(&self) -> bool {
        !area_needs(*self, Phase::Fetch)
    }

    /// Follows the references to files and addresses, up to the first
    /// failure: the first pass, in which properties play no part, so that
    /// what is there after it and the outcome are what [`area_resolved`]
    /// says for a bag that holds none. As far as the outcome is settled
    /// before anything is loaded (see [`owed_fetch`]), that is the outcome,
    /// and nothing is changed. Every value keeps where it comes from, and
    /// what needs nothing is left as it is.
    fn fetch<S: StyleSource>(&mut self, source: &S, depth: usize) -> (r: Result<(), String>)
        ensures
            owed_fetch(area_first(*old(self), Phase::Fetch), depth) matches Some(v)
                ==> outcome_view(r) == v && *final(self) == *old(self),
            area_kept(*old(self), *final(self), Phase::Fetch),
    {
        let props = Properties::new();
        proof {
            lemma_owed_fetch(area_first(*self, Phase::Fetch), props, depth);
        }
        let r = resolve_area(self, Phase::Fetch, &props, source, depth);
        assert(bare(props));
        r
    }
}

impl<S: StyleSource> Converted<S> for AreaRenderer {
    /// The second pass: what [`area_resolved`] says for the properties
    /// given.
    open spec fn convert_gives(
        &self,
        props: Properties,
        source: S,
        depth: usize,
        after: Self,
        r: Result<(), String>,
    ) -> bool {
        area_resolved(*self, Phase::Convert, props, source, depth, after, r)
    }
}

impl MagicConverter for AreaRenderer {
    open spec fn converted(&self) -> bool {
        !area_needs(*self, Phase::Convert)
    }

    /// Follows the references to properties, up to the first failure: the
    /// second pass, so that what is there after it and the outcome are what
    /// [`area_resolved`] says of the answers of the source. As far as the
    /// outcome is settled before anything is loaded (see [`owed`]), that is
    /// the outcome, and nothing is changed. Every value keeps where it
    /// comes from, and what needs nothing is left as it is.
    fn convert<S: StyleSource>(&mut self, props: &Properties, source: &S, depth: usize) -> (r:
        Result<(), String>)
        ensures
            owed(area_first(*old(self), Phase::Convert), Phase::Convert, *props, depth) matches Some(
                v,
            ) ==> outcome_view(r) == v && *final(self) == *old(self),
            area_kept(*old(self), *final(self), Phase::Convert),
    {
        resolve_area(self, Phase::Convert, props, source, depth)
    }
}

impl<S: StyleSource> Fetched<S> for RingRenderers {
    /// The first pass, in which properties play no part: what
    /// [`rings_resolved`] says for a bag that holds none.
    open spec fn fetch_gives(
        &self,
        source: S,
        depth: usize,
        after: Self,
        r: Result<(), String>,
    ) -> bool {
        exists|props: Properties| #[trigger]
            bare(props) && rings_resolved(*self, Phase::Fetch, props, source, depth, after, r)
    }
}

impl MagicFetcher for RingRenderers {
    open spec fn fetched(&self) -> bool {
        !rings_need(*self, Phase::Fetch)
    }

    /// Follows the references to files and addresses, up to the first
    /// failure: the first pass, in which properties play no part, so that
    /// what is there after it and the outcome are what [`rings_resolved`]
    /// says for a bag that holds none. As far as the outcome is settled
    /// before anything is loaded (see [`owed_fetch`]), that is the outcome,
    /// and nothing is changed. Every value keeps where it comes from, and
    /// what needs nothing is left as it is.
    fn fetch<S: StyleSource>(&mut self, source: &S, depth: usize) -> (r: Result<(), String>)
        ensures
            owed_fetch(rings_first(*old(self), Phase::Fetch), depth) matches Some(v)
                ==> outcome_view(r) == v && *final(self) == *old(self),
            rings_kept(*old(self), *final(self), Phase::Fetch),
    {
        let props = Properties::new();
        proof {
            lemma_owed_fetch(rings_first(*self, Phase::Fetch), props, depth);
        }
        let r = resolve_rings(self, Phase::Fetch, &props, source, depth);
        assert(bare(props));
        r
    }
}

impl<S: StyleSource> Converted<S> for RingRenderers {
    /// The second pass: what [`rings_resolved`] says for the properties
    /// given.
    open spec fn convert_gives(
        &self,
        props: Properties,
        source: S,
        depth: usize,
        after: Self,
        r: Result<(), String>,
    ) -> bool {
        rings_resolved(*self, Phase::Convert, props, source, depth, after, r)
    }
}

impl MagicConverter for RingRenderers {
    open spec fn converted(&self) -> bool {
        !rings_need(*self, Phase::Convert)
    }

    /// Follows the references to properties, up to the first failure: the
    /// second pass, so that what is there after it and the outcome are what
    /// [`rings_resolved`] says of the answers of the source. As far as the
    /// outcome is settled before anything is loaded (see [`owed`]), that is
    /// the outcome, and nothing is changed. Every value keeps where it
    /// comes from, and what needs nothing is left as it is.
    fn convert<S: StyleSource>(&mut self, props: &Properties, source: &S, depth: usize) -> (r:
        Result<(), String>)
        ensures
            owed(rings_first(*old(self), Phase::Convert), Phase::Convert, *props, depth) matches Some(
                v,
            ) ==> outcome_view(r) == v && *final(self) == *old(self),
            rings_kept(*old(self), *final(self), Phase::Convert),
    {
        resolve_rings(self, Phase::Convert, props, source, depth)
    }
}

impl<S: StyleSource> Fetched<S> for GeometryRenderer {
    /// The first pass, in which properties play no part: what
    /// [`renderer_resolved`] says for a bag that holds none.
    open spec fn fetch_gives(
        &self,
        source: S,
        depth: usize,
        after: Self,
        r: Result<(), String>,
    ) -> bool {
        exists|props: Properties| #[trigger]
            bare(props) && renderer_resolved(*self, Phase::Fetch, props, source, depth, after, r)
    }
}

impl MagicFetcher for GeometryRenderer {
    open spec fn fetched(&self) -> bool {
        !renderer_needs(*self, Phase::Fetch)
    }

    /// Follows the references to files and addresses, up to the first
    /// failure: the first pass, in which properties play no part, so that
    /// what is there after it and the outcome are what [`renderer_resolved`]
    /// says for a bag that holds none. As far as the outcome is settled
    /// before anything is loaded (see [`owed_fetch`]), that is the outcome,
    /// and nothing is changed. Every value keeps where it comes from, and
    /// what needs nothing is left as it is.
    fn fetch<S: StyleSource>(&mut self, source: &S, depth: usize) -> (r: Result<(), String>)
        ensures
            owed_fetch(renderer_first(*old(self), Phase::Fetch), depth) matches Some(v)
                ==> outcome_view(r) == v && *final(self) == *old(self),
            renderer_kept(*old(self), *final(self), Phase::Fetch),
    {
        let props = Properties::new();
        proof {
            lemma_owed_fetch(renderer_first(*self, Phase::Fetch), props, depth);
        }
        let r = resolve_renderer(self, Phase::Fetch, &props, source, depth);
        assert(bare(props));
        r
    }
}

impl<S: StyleSource> Converted<S> for GeometryRenderer {
    /// The second pass: what [`renderer_resolved`] says for the properties
    /// given.
    open spec fn convert_gives(
        &self,
        props: Properties,
        source: S,
        depth: usize,
        after: Self,
        r: Result<(), String>,
    ) -> bool {
        renderer_resolved(*self, Phase::Convert, props, source, depth, after, r)
    }
}

impl MagicConverter for GeometryRenderer {
    open spec fn converted(&self) -> bool {
        !renderer_needs(*self, Phase::Convert)
    }

    /// Follows the references to properties, up to the first failure: the
    /// second pass, so that what is there after it and the outcome are what
    /// [`renderer_resolved`] says of the answers of the source. As far as the
    /// outcome is settled before anything is loaded (see [`owed`]), that is
    /// the outcome, and nothing is changed. Every value keeps where it
    /// comes from, and what needs nothing is left as it is.
    fn convert<S: StyleSource>(&mut self, props: &Properties, source: &S, depth: usize) -> (r:
        Result<(), String>)
        ensures
            owed(renderer_first(*old(self), Phase::Convert), Phase::Convert, *props, depth) matches Some(
                v,
            ) ==> outcome_view(r) == v && *final(self) == *old(self),
            renderer_kept(*old(self), *final(self), Phase::Convert),
    {
        resolve_renderer(self, Phase::Convert, props, source, depth)
    }
}

} // verus!
