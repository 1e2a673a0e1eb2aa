//! What a pass makes of a tree of renderers: relations between the tree
//! before the pass, the tree after it and the outcome.
//!
//! A pass walks the tree in a fixed order and stops at the first failure.
//! Where a value stands for a reference that the pass follows, the source of
//! styles is asked for what the reference points at. What the source
//! answers is not known beforehand, so each relation speaks of some answer
//! that the source gives to exactly that reference, and says what becomes of
//! it.
use crate::magic_value::{
    absorbed, awaits, failed, leaf_resolved, lemma_leaf_forgets, loads, outcome_view, owed,
    passing, reference_of, same_source, taking, too_deep_message, MagicValue, Phase, PropValue,
    Properties,
};
use crate::renderer::area_renderer::{AreaRenderer, RingRenderers};
use crate::renderer::geometry_renderer::GeometryRenderer;
use crate::renderer::line_renderer::{LineRenderer, NodeRenderers};
use crate::renderer::point_renderer::PointRenderer;
use crate::resolve::{
    area_first, area_needs, line_first, line_needs, list_first, point_needs, renderer_first,
    renderer_needs, rings_first, rings_need, StyleSource,
};
use vstd::prelude::*;

verus! {

/// The pass has succeeded.
pub open spec fn done() -> Result<(), String> {
    Ok(())
}

/// Names the place in a list at which a pass has stopped.
pub open spec fn stopped(k: int) -> bool {
    true
}

/// A bag of properties that holds none.
pub open spec fn bare(props: Properties) -> bool {
    props@.len() == 0
}

/// What one pass makes of a point renderer: the brush is resolved, then the
/// radius (see [`leaf_resolved`]); after a failure nothing more is touched.
pub open spec fn point_resolved<S: StyleSource>(
    before: PointRenderer,
    phase: Phase,
    props: Properties,
    source: S,
    depth: usize,
    after: PointRenderer,
    r: Result<(), String>,
) -> bool {
    after.must_show == before.must_show && ((r is Err && after.radius == before.radius
        && leaf_resolved(before.brush, phase, props, source, depth, after.brush, r)) || (
    leaf_resolved(before.brush, phase, props, source, depth, after.brush, done())
        && leaf_resolved::<PropValue, S>(
        before.radius,
        phase,
        props,
        source,
        depth,
        after.radius,
        r,
    )))
}

/// Whether two values come from the same place and, where they do not
/// await the pass, hold the same.
pub open spec fn leaf_alike<T>(a: MagicValue<T>, b: MagicValue<T>, phase: Phase) -> bool {
    same_source(a, b) && (awaits(a.kind@, phase) || a == b)
}

/// A point renderer keeps no trace of the feature it was last resolved
/// for: whatever a pass that succeeds may make of one point renderer, it
/// may make of every point renderer whose values come from the same places
/// and hold the same wherever they do not await the pass.
pub proof fn lemma_point_forgets<S: StyleSource>(
    a: PointRenderer,
    b: PointRenderer,
    phase: Phase,
    props: Properties,
    source: S,
    depth: usize,
    after: PointRenderer,
)
    requires
        leaf_alike(a.radius, b.radius, phase),
        leaf_alike(a.brush, b.brush, phase),
        a.must_show == b.must_show,
        point_resolved(a, phase, props, source, depth, after, done()),
    ensures
        point_resolved(b, phase, props, source, depth, after, done()),
{
    if awaits(a.brush.kind@, phase) {
        lemma_leaf_forgets(a.brush, b.brush, phase, props, source, depth, after.brush, done());
    }
    if awaits(a.radius.kind@, phase) {
        lemma_leaf_forgets::<PropValue, S>(
            a.radius,
            b.radius,
            phase,
            props,
            source,
            depth,
            after.radius,
            done(),
        );
    }
}

/// What one pass makes of a point renderer given directly or by reference.
///
/// Where neither the value nor anything in it awaits the pass, it is left
/// as it is and the pass succeeds. A value that refers to a property that
/// the feature lacks, or that stands for a reference where no depth is left,
/// is left as it is, and the pass fails with the message for that. A value
/// that stands for a reference is replaced by what some answer of the source
/// to that reference gives once it has been resolved in turn (see
/// [`point_doc_resolved`] and [`absorbed`]); a failure of the source is the
/// failure of the pass. A value given in place is resolved inside (see
/// [`point_resolved`]).
pub open spec fn point_node_resolved<S: StyleSource>(
    before: MagicValue<PointRenderer>,
    phase: Phase,
    props: Properties,
    source: S,
    depth: usize,
    after: MagicValue<PointRenderer>,
    r: Result<(), String>,
) -> bool
    decreases depth, 0nat, before,
{
    if !(awaits(before.kind@, phase) || point_needs(before.inner, phase)) {
        r is Ok && after == before
    } else {
        match reference_of(before.kind@, phase, props) {
            Err(message) => failed(before, after, r, message),
            Ok(Some(reference)) => if depth == 0 {
                failed(before, after, r, too_deep_message())
            } else {
                exists|
                    loaded: Result<MagicValue<PointRenderer>, String>,
                    out: MagicValue<PointRenderer>,
                    outcome: Result<(), String>,
                | #[trigger]
                    taking(loaded, out, outcome) && loads::<PointRenderer, S>(
                        source,
                        reference,
                        loaded,
                    ) && (match loaded {
                        Err(message) => r == Err::<(), String>(message) && after == before,
                        Ok(doc) => point_doc_resolved(
                            doc,
                            phase,
                            props,
                            source,
                            (depth - 1) as usize,
                            out,
                            outcome,
                        ) && absorbed(before, out, outcome, after, r),
                    })
            },
            Ok(None) => after.kind == before.kind && after.need_scale == before.need_scale
                && point_resolved(before.inner, phase, props, source, depth, after.inner, r),
        }
    }
}

/// What the passes make of what was loaded for a point renderer: the
/// first pass, and after it, for what was loaded in the second pass, the
/// second; the first failure is the outcome.
pub open spec fn point_doc_resolved<S: StyleSource>(
    doc: MagicValue<PointRenderer>,
    phase: Phase,
    props: Properties,
    source: S,
    depth: usize,
    out: MagicValue<PointRenderer>,
    r: Result<(), String>,
) -> bool
    decreases depth, 1nat, doc,
{
    exists|mid: MagicValue<PointRenderer>, first: Result<(), String>| #[trigger]
        passing(mid, first) && point_node_resolved(
            doc,
            Phase::Fetch,
            props,
            source,
            depth,
            mid,
            first,
        ) && (if first is Err || phase == Phase::Fetch {
            out == mid && r == first
        } else {
            point_node_resolved(mid, Phase::Convert, props, source, depth, out, r)
        })
}

/// What one pass makes of a renderer given directly or by reference.
///
/// Where neither the value nor anything in it awaits the pass, it is left
/// as it is and the pass succeeds. A value that refers to a property that
/// the feature lacks, or that stands for a reference where no depth is left,
/// is left as it is, and the pass fails with the message for that. A value
/// that stands for a reference is replaced by what some answer of the source
/// to that reference gives once it has been resolved in turn (see
/// [`node_doc_resolved`] and [`absorbed`]); a failure of the source is the
/// failure of the pass. A value given in place is resolved inside (see
/// [`renderer_resolved`]).
pub open spec fn node_resolved<S: StyleSource>(
    before: MagicValue<GeometryRenderer>,
    phase: Phase,
    props: Properties,
    source: S,
    depth: usize,
    after: MagicValue<GeometryRenderer>,
    r: Result<(), String>,
) -> bool
    decreases depth, 0nat, before,
{
    if !(awaits(before.kind@, phase) || renderer_needs(before.inner, phase)) {
        r is Ok && after == before
    } else {
        match reference_of(before.kind@, phase, props) {
            Err(message) => failed(before, after, r, message),
            Ok(Some(reference)) => if depth == 0 {
                failed(before, after, r, too_deep_message())
            } else {
                exists|
                    loaded: Result<MagicValue<GeometryRenderer>, String>,
                    out: MagicValue<GeometryRenderer>,
                    outcome: Result<(), String>,
                | #[trigger]
                    taking(loaded, out, outcome) && loads::<GeometryRenderer, S>(
                        source,
                        reference,
                        loaded,
                    ) && (match loaded {
                        Err(message) => r == Err::<(), String>(message) && after == before,
                        Ok(doc) => node_doc_resolved(
                            doc,
                            phase,
                            props,
                            source,
                            (depth - 1) as usize,
                            out,
                            outcome,
                        ) && absorbed(before, out, outcome, after, r),
                    })
            },
            Ok(None) => after.kind == before.kind && after.need_scale == before.need_scale
                && renderer_resolved(before.inner, phase, props, source, depth, after.inner, r),
        }
    }
}

/// What the passes make of what was loaded for a renderer: the
/// first pass, and after it, for what was loaded in the second pass, the
/// second; the first failure is the outcome.
pub open spec fn node_doc_resolved<S: StyleSource>(
    doc: MagicValue<GeometryRenderer>,
    phase: Phase,
    props: Properties,
    source: S,
    depth: usize,
    out: MagicValue<GeometryRenderer>,
    r: Result<(), String>,
) -> bool
    decreases depth, 1nat, doc,
{
    exists|mid: MagicValue<GeometryRenderer>, first: Result<(), String>| #[trigger]
        passing(mid, first) && node_resolved(
            doc,
            Phase::Fetch,
            props,
            source,
            depth,
            mid,
            first,
        ) && (if first is Err || phase == Phase::Fetch {
            out == mid && r == first
        } else {
            node_resolved(mid, Phase::Convert, props, source, depth, out, r)
        })
}

/// What one pass makes of a line renderer given directly or by reference.
///
/// Where neither the value nor anything in it awaits the pass, it is left
/// as it is and the pass succeeds. A value that refers to a property that
/// the feature lacks, or that stands for a reference where no depth is left,
/// is left as it is, and the pass fails with the message for that. A value
/// that stands for a reference is replaced by what some answer of the source
/// to that reference gives once it has been resolved in turn (see
/// [`line_doc_resolved`] and [`absorbed`]); a failure of the source is the
/// failure of the pass. A value given in place is resolved inside (see
/// [`line_resolved`]).
pub open spec fn line_node_resolved<S: StyleSource>(
    before: MagicValue<LineRenderer>,
    phase: Phase,
    props: Properties,
    source: S,
    depth: usize,
    after: MagicValue<LineRenderer>,
    r: Result<(), String>,
) -> bool
    decreases depth, 0nat, before,
{
    if !(awaits(before.kind@, phase) || line_needs(before.inner, phase)) {
        r is Ok && after == before
    } else {
        match reference_of(before.kind@, phase, props) {
            Err(message) => failed(before, after, r, message),
            Ok(Some(reference)) => if depth == 0 {
                failed(before, after, r, too_deep_message())
            } else {
                exists|
                    loaded: Result<MagicValue<LineRenderer>, String>,
                    out: MagicValue<LineRenderer>,
                    outcome: Result<(), String>,
                | #[trigger]
                    taking(loaded, out, outcome) && loads::<LineRenderer, S>(
                        source,
                        reference,
                        loaded,
                    ) && (match loaded {
                        Err(message) => r == Err::<(), String>(message) && after == before,
                        Ok(doc) => line_doc_resolved(
                            doc,
                            phase,
                            props,
                            source,
                            (depth - 1) as usize,
                            out,
                            outcome,
                        ) && absorbed(before, out, outcome, after, r),
                    })
            },
            Ok(None) => after.kind == before.kind && after.need_scale == before.need_scale
                && line_resolved(before.inner, phase, props, source, depth, after.inner, r),
        }
    }
}

/// What the passes make of what was loaded for a line renderer: the
/// first pass, and after it, for what was loaded in the second pass, the
/// second; the first failure is the outcome.
pub open spec fn line_doc_resolved<S: StyleSource>(
    doc: MagicValue<LineRenderer>,
    phase: Phase,
    props: Properties,
    source: S,
    depth: usize,
    out: MagicValue<LineRenderer>,
    r: Result<(), String>,
) -> bool
    decreases depth, 1nat, doc,
{
    exists|mid: MagicValue<LineRenderer>, first: Result<(), String>| #[trigger]
        passing(mid, first) && line_node_resolved(
            doc,
            Phase::Fetch,
            props,
            source,
            depth,
            mid,
            first,
        ) && (if first is Err || phase == Phase::Fetch {
            out == mid && r == first
        } else {
            line_node_resolved(mid, Phase::Convert, props, source, depth, out, r)
        })
}

/// What one pass makes of an area renderer given directly or by reference.
///
/// Where neither the value nor anything in it awaits the pass, it is left
/// as it is and the pass succeeds. A value that refers to a property that
/// the feature lacks, or that stands for a reference where no depth is left,
/// is left as it is, and the pass fails with the message for that. A value
/// that stands for a reference is replaced by what some answer of the source
/// to that reference gives once it has been resolved in turn (see
/// [`area_doc_resolved`] and [`absorbed`]); a failure of the source is the
/// failure of the pass. A value given in place is resolved inside (see
/// [`area_resolved`]).
pub open spec fn area_node_resolved<S: StyleSource>(
    before: MagicValue<AreaRenderer>,
    phase: Phase,
    props: Properties,
    source: S,
    depth: usize,
    after: MagicValue<AreaRenderer>,
    r: Result<(), String>,
) -> bool
    decreases depth, 0nat, before,
{
    if !(awaits(before.kind@, phase) || area_needs(before.inner, phase)) {
        r is Ok && after == before
    } else {
        match reference_of(before.kind@, phase, props) {
            Err(message) => failed(before, after, r, message),
            Ok(Some(reference)) => if depth == 0 {
                failed(before, after, r, too_deep_message())
            } else {
                exists|
                    loaded: Result<MagicValue<AreaRenderer>, String>,
                    out: MagicValue<AreaRenderer>,
                    outcome: Result<(), String>,
                | #[trigger]
                    taking(loaded, out, outcome) && loads::<AreaRenderer, S>(
                        source,
                        reference,
                        loaded,
                    ) && (match loaded {
                        Err(message) => r == Err::<(), String>(message) && after == before,
                        Ok(doc) => area_doc_resolved(
                            doc,
                            phase,
                            props,
                            source,
                            (depth - 1) as usize,
                            out,
                            outcome,
                        ) && absorbed(before, out, outcome, after, r),
                    })
            },
            Ok(None) => after.kind == before.kind && after.need_scale == before.need_scale
                && area_resolved(before.inner, phase, props, source, depth, after.inner, r),
        }
    }
}

/// What the passes make of what was loaded for an area renderer: the
/// first pass, and after it, for what was loaded in the second pass, the
/// second; the first failure is the outcome.
pub open spec fn area_doc_resolved<S: StyleSource>(
    doc: MagicValue<AreaRenderer>,
    phase: Phase,
    props: Properties,
    source: S,
    depth: usize,
    out: MagicValue<AreaRenderer>,
    r: Result<(), String>,
) -> bool
    decreases depth, 1nat, doc,
{
    exists|mid: MagicValue<AreaRenderer>, first: Result<(), String>| #[trigger]
        passing(mid, first) && area_node_resolved(
            doc,
            Phase::Fetch,
            props,
            source,
            depth,
            mid,
            first,
        ) && (if first is Err || phase == Phase::Fetch {
            out == mid && r == first
        } else {
            area_node_resolved(mid, Phase::Convert, props, source, depth, out, r)
        })
}

/// What one pass makes of ring renderers given directly or by reference.
///
/// Where neither the value nor anything in it awaits the pass, it is left
/// as it is and the pass succeeds. A value that refers to a property that
/// the feature lacks, or that stands for a reference where no depth is left,
/// is left as it is, and the pass fails with the message for that. A value
/// that stands for a reference is replaced by what some answer of the source
/// to that reference gives once it has been resolved in turn (see
/// [`rings_doc_resolved`] and [`absorbed`]); a failure of the source is the
/// failure of the pass. A value given in place is resolved inside (see
/// [`rings_resolved`]).
pub open spec fn rings_node_resolved<S: StyleSource>(
    before: MagicValue<RingRenderers>,
    phase: Phase,
    props: Properties,
    source: S,
    depth: usize,
    after: MagicValue<RingRenderers>,
    r: Result<(), String>,
) -> bool
    decreases depth, 0nat, before,
{
    if !(awaits(before.kind@, phase) || rings_need(before.inner, phase)) {
        r is Ok && after == before
    } else {
        match reference_of(before.kind@, phase, props) {
            Err(message) => failed(before, after, r, message),
            Ok(Some(reference)) => if depth == 0 {
                failed(before, after, r, too_deep_message())
            } else {
                exists|
                    loaded: Result<MagicValue<RingRenderers>, String>,
                    out: MagicValue<RingRenderers>,
                    outcome: Result<(), String>,
                | #[trigger]
                    taking(loaded, out, outcome) && loads::<RingRenderers, S>(
                        source,
                        reference,
                        loaded,
                    ) && (match loaded {
                        Err(message) => r == Err::<(), String>(message) && after == before,
                        Ok(doc) => rings_doc_resolved(
                            doc,
                            phase,
                            props,
                            source,
                            (depth - 1) as usize,
                            out,
                            outcome,
                        ) && absorbed(before, out, outcome, after, r),
                    })
            },
            Ok(None) => after.kind == before.kind && after.need_scale == before.need_scale
                && rings_resolved(before.inner, phase, props, source, depth, after.inner, r),
        }
    }
}

/// What the passes make of what was loaded for ring renderers: the
/// first pass, and after it, for what was loaded in the second pass, the
/// second; the first failure is the outcome.
pub open spec fn rings_doc_resolved<S: StyleSource>(
    doc: MagicValue<RingRenderers>,
    phase: Phase,
    props: Properties,
    source: S,
    depth: usize,
    out: MagicValue<RingRenderers>,
    r: Result<(), String>,
) -> bool
    decreases depth, 1nat, doc,
{
    exists|mid: MagicValue<RingRenderers>, first: Result<(), String>| #[trigger]
        passing(mid, first) && rings_node_resolved(
            doc,
            Phase::Fetch,
            props,
            source,
            depth,
            mid,
            first,
        ) && (if first is Err || phase == Phase::Fetch {
            out == mid && r == first
        } else {
            rings_node_resolved(mid, Phase::Convert, props, source, depth, out, r)
        })
}

/// What one pass makes of a list of renderers: the members are resolved in
/// order (see [`node_resolved`]) up to the first failure, which is that of
/// the pass; the members after it are left as they are. Where the outcome
/// is settled before anything is loaded (see [`owed`]), it is that outcome,
/// and the list is left as it is.
pub open spec fn list_resolved<S: StyleSource>(
    before: Vec<MagicValue<GeometryRenderer>>,
    phase: Phase,
    props: Properties,
    source: S,
    depth: usize,
    after: Vec<MagicValue<GeometryRenderer>>,
    r: Result<(), String>,
) -> bool
    decreases depth, 0nat, before,
{
    after@.len() == before@.len() && (match owed(
        list_first(before, phase),
        phase,
        props,
        depth,
    ) {
        Some(v) => outcome_view(r) == v && after == before,
        None => exists|k: int| #[trigger]
            stopped(k) && 0 <= k <= before@.len() && (forall|j: int|
                0 <= j < k ==> node_resolved(
                    before@[j],
                    phase,
                    props,
                    source,
                    depth,
                    #[trigger] after@[j],
                    done(),
                )) && (if k == before@.len() {
                r is Ok
            } else {
                r is Err && node_resolved(before@[k], phase, props, source, depth, after@[k], r)
                    && forall|j: int| k < j < before@.len() ==> #[trigger] after@[j] == before@[j]
            }),
    })
}

/// What one pass makes of a renderer: its filter is resolved (see
/// [`leaf_resolved`]), then what it draws with; after a failure nothing
/// more is touched, and the renderer stays of its variant. Where the
/// outcome is settled before anything is loaded (see [`owed`]), it is that
/// outcome, and the renderer is left as it is.
pub open spec fn renderer_resolved<S: StyleSource>(
    before: GeometryRenderer,
    phase: Phase,
    props: Properties,
    source: S,
    depth: usize,
    after: GeometryRenderer,
    r: Result<(), String>,
) -> bool
    decreases depth, 0nat, before,
{
    match owed(renderer_first(before, phase), phase, props, depth) {
        Some(v) => outcome_view(r) == v && after == before,
        None => match before {
            GeometryRenderer::Point(filter, renderer) => match after {
                GeometryRenderer::Point(sieve, drawer) => (r is Err && drawer == renderer
                    && leaf_resolved(filter, phase, props, source, depth, sieve, r)) || (
                leaf_resolved(filter, phase, props, source, depth, sieve, done())
                    && point_node_resolved(renderer, phase, props, source, depth, drawer, r)),
                _ => false,
            },
            GeometryRenderer::Line(filter, renderer) => match after {
                GeometryRenderer::Line(sieve, drawer) => (r is Err && drawer == renderer
                    && leaf_resolved(filter, phase, props, source, depth, sieve, r)) || (
                leaf_resolved(filter, phase, props, source, depth, sieve, done())
                    && line_node_resolved(renderer, phase, props, source, depth, drawer, r)),
                _ => false,
            },
            GeometryRenderer::Area(filter, renderer) => match after {
                GeometryRenderer::Area(sieve, drawer) => (r is Err && drawer == renderer
                    && leaf_resolved(filter, phase, props, source, depth, sieve, r)) || (
                leaf_resolved(filter, phase, props, source, depth, sieve, done())
                    && area_node_resolved(renderer, phase, props, source, depth, drawer, r)),
                _ => false,
            },
        },
    }
}

/// What one pass makes of the renderers at the positions of a chain: the
/// lists are resolved kind by kind (see [`list_resolved`]); after a failure
/// nothing more is touched.
pub open spec fn nodes_resolved<S: StyleSource>(
    before: NodeRenderers,
    phase: Phase,
    props: Properties,
    source: S,
    depth: usize,
    after: NodeRenderers,
    r: Result<(), String>,
) -> bool
    decreases depth, 0nat, before,
{
    (r is Err && after.mid == before.mid && after.start == before.start && after.end == before.end
        && list_resolved(before.all, phase, props, source, depth, after.all, r)) || (list_resolved(
        before.all,
        phase,
        props,
        source,
        depth,
        after.all,
        done(),
    ) && ((r is Err && after.start == before.start && after.end == before.end && list_resolved(
        before.mid,
        phase,
        props,
        source,
        depth,
        after.mid,
        r,
    )) || (list_resolved(before.mid, phase, props, source, depth, after.mid, done()) && ((r is Err
        && after.end == before.end && list_resolved(
        before.start,
        phase,
        props,
        source,
        depth,
        after.start,
        r,
    )) || (list_resolved(before.start, phase, props, source, depth, after.start, done())
        && list_resolved(before.end, phase, props, source, depth, after.end, r))))))
}

/// What one pass makes of a line renderer: the stroke is resolved, then the
/// brush (see [`leaf_resolved`]), then the renderers at the positions (see
/// [`nodes_resolved`]); after a failure nothing more is touched. Where the
/// outcome is settled before anything is loaded (see [`owed`]), it is that
/// outcome, and the renderer is left as it is.
pub open spec fn line_resolved<S: StyleSource>(
    before: LineRenderer,
    phase: Phase,
    props: Properties,
    source: S,
    depth: usize,
    after: LineRenderer,
    r: Result<(), String>,
) -> bool
    decreases depth, 0nat, before,
{
    match owed(line_first(before, phase), phase, props, depth) {
        Some(v) => outcome_view(r) == v && after == before,
        None => (r is Err && after.brush == before.brush && after.node_renderers
            == before.node_renderers && leaf_resolved(
            before.stroke,
            phase,
            props,
            source,
            depth,
            after.stroke,
            r,
        )) || (leaf_resolved(before.stroke, phase, props, source, depth, after.stroke, done()) && ((
        r is Err && after.node_renderers == before.node_renderers && leaf_resolved(
            before.brush,
            phase,
            props,
            source,
            depth,
            after.brush,
            r,
        )) || (leaf_resolved(before.brush, phase, props, source, depth, after.brush, done())
            && nodes_resolved(
            before.node_renderers,
            phase,
            props,
            source,
            depth,
            after.node_renderers,
            r,
        )))),
    }
}

/// What one pass makes of the ring renderers: the lists are resolved kind
/// by kind (see [`list_resolved`]); after a failure nothing more is
/// touched. Where the outcome is settled before anything is loaded (see
/// [`owed`]), it is that outcome, and the renderers are left as they are.
pub open spec fn rings_resolved<S: StyleSource>(
    before: RingRenderers,
    phase: Phase,
    props: Properties,
    source: S,
    depth: usize,
    after: RingRenderers,
    r: Result<(), String>,
) -> bool
    decreases depth, 0nat, before,
{
    match owed(rings_first(before, phase), phase, props, depth) {
        Some(v) => outcome_view(r) == v && after == before,
        None => (r is Err && after.exterior == before.exterior && after.interior == before.interior
            && list_resolved(before.all, phase, props, source, depth, after.all, r)) || (
        list_resolved(before.all, phase, props, source, depth, after.all, done()) && ((r is Err
            && after.interior == before.interior && list_resolved(
            before.exterior,
            phase,
            props,
            source,
            depth,
            after.exterior,
            r,
        )) || (list_resolved(before.exterior, phase, props, source, depth, after.exterior, done())
            && list_resolved(before.interior, phase, props, source, depth, after.interior, r)))),
    }
}

/// What one pass makes of an area renderer: the brush is resolved (see
/// [`leaf_resolved`]), then the ring renderers (see
/// [`rings_node_resolved`]); after a failure nothing more is touched. Where
/// the outcome is settled before anything is loaded (see [`owed`]), it is
/// that outcome, and the renderer is left as it is.
pub open spec fn area_resolved<S: StyleSource>(
    before: AreaRenderer,
    phase: Phase,
    props: Properties,
    source: S,
    depth: usize,
    after: AreaRenderer,
    r: Result<(), String>,
) -> bool
    decreases depth, 0nat, before,
{
    match owed(area_first(before, phase), phase, props, depth) {
        Some(v) => outcome_view(r) == v && after == before,
        None => (r is Err && after.line_renderers == before.line_renderers && leaf_resolved(
            before.brush,
            phase,
            props,
            source,
            depth,
            after.brush,
            r,
        )) || (leaf_resolved(before.brush, phase, props, source, depth, after.brush, done())
            && rings_node_resolved(
            before.line_renderers,
            phase,
            props,
            source,
            depth,
            after.line_renderers,
            r,
        )),
    }
}

} // verus!
