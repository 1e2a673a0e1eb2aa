//! From geometries and a style to the list of what is to be painted, and
//! from the padded rows that a graphics device hands back to the picture.
use crate::geometry::{Coord, Polygon, Rect};
use crate::magic_value::PropValue;
use crate::render_option::{padded_row_bytes, RenderOption, RenderRegion, TileProj, MAX_PADDED_WIDTH};
use crate::magic_value::{same_source, MagicValue, Phase};
use crate::rendered_geometry::{framed, Measure, RenderedGeometry};
use crate::renderer::geometry_renderer::{
    all_drawn, all_settled, draw_view, fails_from, filter_takes, layer_drawn, lemma_parts_prefix,
    parts_upto, GeometryRenderer,
};
use crate::resolve::{lemma_needs_none, list_needs, StyleSource};
use crate::scene::{lemma_op_views_add, op_views, DrawOp, DrawOpView};
use vstd::prelude::*;

verus! {

/// Whether a rectangle is that of the region of a style: none for all, a
/// rectangle itself, and for a square round a point or a tile what `frame`
/// may give.
pub open spec fn region_rect<F: Fn(&RenderRegion, &TileProj) -> Rect>(
    option: RenderOption,
    frame: F,
    rect: Option<Rect>,
) -> bool {
    match option.region {
        RenderRegion::All => rect is None,
        RenderRegion::Rect(r) => rect == Some(r),
        _ => rect matches Some(r) && frame.ensures((&option.region, &option.tile_proj), r),
    }
}

/// Whether `first` are the geometries `given` once a rectangle is supplied
/// to each.
pub open spec fn all_framed(
    given: Seq<RenderedGeometry>,
    rect: Option<Rect>,
    first: Seq<RenderedGeometry>,
) -> bool {
    &&& first.len() == given.len()
    &&& forall|i: int| 0 <= i < given.len() ==> (#[trigger] first[i])@ == framed(given[i]@, rect)
}

/// Whether each of the first `n` renderers of a style drew its part: the
/// renderer at `j` finds the geometries as `states[j]` and leaves them as
/// `states[j + 1]`.
pub open spec fn layers_drawn<
    H: Fn(&Vec<Coord>) -> Polygon,
    M: Fn(&Measure) -> Option<Coord>,
    N: Fn(&PropValue) -> Result<u64, String>,
>(
    renderers: Seq<MagicValue<GeometryRenderer>>,
    states: Seq<Seq<RenderedGeometry>>,
    parts: Seq<Seq<DrawOpView>>,
    rect: Option<Rect>,
    hull: H,
    measure: M,
    number: N,
    n: nat,
) -> bool {
    forall|j: int|
        0 <= j < n ==> layer_drawn(
            renderers[j].inner,
            states[j],
            states[j + 1],
            rect,
            hull,
            measure,
            number,
            #[trigger] parts[j],
        )
}

/// Whether `ops` are what the renderers of a style without references to
/// properties draw for geometries found as `first` and left as `last`:
/// the part of each renderer, in the order of the style.
pub open spec fn style_drawn<
    H: Fn(&Vec<Coord>) -> Polygon,
    M: Fn(&Measure) -> Option<Coord>,
    N: Fn(&PropValue) -> Result<u64, String>,
>(
    renderers: Seq<MagicValue<GeometryRenderer>>,
    first: Seq<RenderedGeometry>,
    last: Seq<RenderedGeometry>,
    rect: Option<Rect>,
    hull: H,
    measure: M,
    number: N,
    ops: Seq<DrawOpView>,
) -> bool {
    exists|states: Seq<Seq<RenderedGeometry>>, parts: Seq<Seq<DrawOpView>>|
        {
            &&& states.len() == renderers.len() + 1
            &&& parts.len() == renderers.len()
            &&& states[0] == first
            &&& states[renderers.len() as int] == last
            &&& ops == parts_upto(parts, parts.len())
            &&& #[trigger] layers_drawn(
                renderers,
                states,
                parts,
                rect,
                hull,
                measure,
                number,
                renderers.len(),
            )
        }
}

/// Whether `ops` are what a style without references to properties draws
/// for the geometries `given`, left as `last`: the rectangle of the region
/// is supplied to each geometry, then the renderers draw in their order.
pub open spec fn rendered<
    F: Fn(&RenderRegion, &TileProj) -> Rect,
    H: Fn(&Vec<Coord>) -> Polygon,
    M: Fn(&Measure) -> Option<Coord>,
    N: Fn(&PropValue) -> Result<u64, String>,
>(
    option: RenderOption,
    given: Seq<RenderedGeometry>,
    last: Seq<RenderedGeometry>,
    frame: F,
    hull: H,
    measure: M,
    number: N,
    ops: Seq<DrawOpView>,
) -> bool {
    exists|rect: Option<Rect>, first: Seq<RenderedGeometry>| #[trigger]
        all_framed(given, rect, first) && region_rect(option, frame, rect) && style_drawn(
            option.renderers@,
            first,
            last,
            rect,
            hull,
            measure,
            number,
            ops,
        )
}

/// Whether each of the first `n` renderers of a style drew all the
/// geometries without failure: the renderer at `j` finds the geometries as
/// `states[j]` and leaves them as `states[j + 1]`, is afterwards as
/// `after[j]` holds it, and `parts[j]` is what it drew (see [`all_drawn`]).
pub open spec fn layers_traced<
    S: StyleSource,
    H: Fn(&Vec<Coord>) -> Polygon,
    M: Fn(&Measure) -> Option<Coord>,
    N: Fn(&PropValue) -> Result<u64, String>,
>(
    before: Seq<MagicValue<GeometryRenderer>>,
    after: Seq<MagicValue<GeometryRenderer>>,
    states: Seq<Seq<RenderedGeometry>>,
    parts: Seq<Seq<DrawOpView>>,
    source: S,
    rect: Option<Rect>,
    hull: H,
    measure: M,
    number: N,
    depth: usize,
    n: nat,
) -> bool {
    &&& states.len() == n + 1
    &&& parts.len() == n
    &&& forall|j: int|
        0 <= j < n ==> all_drawn(
            before[j].inner,
            states[j],
            states[j + 1],
            source,
            rect,
            hull,
            measure,
            number,
            depth,
            after[j].inner,
            Ok(#[trigger] parts[j]),
        )
}

/// Whether `after`, `last` and `outcome` are what the renderers of a style
/// may make of themselves and of geometries found as `first`, with what
/// is drawn or the failure.
///
/// Every renderer keeps where it comes from. On success every renderer
/// drew all the geometries, one renderer after the other, and the
/// operations are those of each in the order of the style. On failure the
/// renderers before some renderer drew without failure, the failure is
/// that of this one, and the renderers after it are left as they are.
pub open spec fn style_traced<
    S: StyleSource,
    H: Fn(&Vec<Coord>) -> Polygon,
    M: Fn(&Measure) -> Option<Coord>,
    N: Fn(&PropValue) -> Result<u64, String>,
>(
    before: Seq<MagicValue<GeometryRenderer>>,
    first: Seq<RenderedGeometry>,
    last: Seq<RenderedGeometry>,
    source: S,
    rect: Option<Rect>,
    hull: H,
    measure: M,
    number: N,
    depth: usize,
    after: Seq<MagicValue<GeometryRenderer>>,
    outcome: Result<Seq<DrawOpView>, String>,
) -> bool {
    &&& after.len() == before.len()
    &&& forall|j: int| 0 <= j < before.len() ==> same_source(before[j], #[trigger] after[j])
    &&& match outcome {
        Ok(ops) => exists|states: Seq<Seq<RenderedGeometry>>, parts: Seq<Seq<DrawOpView>>| #[trigger]
            layers_traced(
                before,
                after,
                states,
                parts,
                source,
                rect,
                hull,
                measure,
                number,
                depth,
                before.len(),
            ) && states[0] == first && states[before.len() as int] == last && ops == parts_upto(
                parts,
                before.len(),
            ),
        Err(message) => exists|
            j: nat,
            states: Seq<Seq<RenderedGeometry>>,
            parts: Seq<Seq<DrawOpView>>,
        |
            j < before.len() && #[trigger] layers_traced(
                before,
                after,
                states,
                parts,
                source,
                rect,
                hull,
                measure,
                number,
                depth,
                j,
            ) && states[0] == first && all_drawn(
                before[j as int].inner,
                states[j as int],
                last,
                source,
                rect,
                hull,
                measure,
                number,
                depth,
                after[j as int].inner,
                Err(message),
            ) && forall|k: int| j < k < before.len() ==> #[trigger] after[k] == before[k],
    }
}

/// Whether `after`, `last` and `outcome` are what a style may make of
/// itself and of the geometries `given`, with what is drawn or the
/// failure: the rectangle of the region is supplied to each geometry, then
/// the renderers draw in their order (see [`style_traced`]).
pub open spec fn rendered_by<
    S: StyleSource,
    F: Fn(&RenderRegion, &TileProj) -> Rect,
    H: Fn(&Vec<Coord>) -> Polygon,
    M: Fn(&Measure) -> Option<Coord>,
    N: Fn(&PropValue) -> Result<u64, String>,
>(
    option: RenderOption,
    given: Seq<RenderedGeometry>,
    last: Seq<RenderedGeometry>,
    source: S,
    frame: F,
    hull: H,
    measure: M,
    number: N,
    depth: usize,
    after: RenderOption,
    outcome: Result<Seq<DrawOpView>, String>,
) -> bool {
    exists|rect: Option<Rect>, first: Seq<RenderedGeometry>| #[trigger]
        all_framed(given, rect, first) && region_rect(option, frame, rect) && style_traced(
            option.renderers@,
            first,
            last,
            source,
            rect,
            hull,
            measure,
            number,
            depth,
            after.renderers@,
            outcome,
        )
}

/// What a style draws for a list of geometries, in the order of painting:
/// renderer after renderer in the order of the style, each over all the
/// geometries in their order.
///
/// The centre point that a geometry remembers for another region than that
/// of the style is forgotten first. The first failure of a renderer ends the
/// drawing. Without geometries nothing is drawn, nothing fails and the style
/// is left as it is.
///
/// The style and the geometries afterwards, and what is drawn or the
/// failure, are what [`rendered_by`] says of the answers of the source. A
/// style without references to properties is left as it is and fails only
/// where, for a renderer and a geometry that its filter takes, a radius is
/// no number.
pub fn render_to_texture<
    S: StyleSource,
    F: Fn(&RenderRegion, &TileProj) -> Rect,
    H: Fn(&Vec<Coord>) -> Polygon,
    M: Fn(&Measure) -> Option<Coord>,
    N: Fn(&PropValue) -> Result<u64, String>,
>(
    geoms: &mut Vec<RenderedGeometry>,
    option: &mut RenderOption,
    source: &S,
    frame: &F,
    hull: &H,
    measure: &M,
    number: &N,
    depth: usize,
) -> (r: Result<Vec<DrawOp>, String>)
    requires
        old(option).region.is_worked_out() ==> frame.requires(
            (&old(option).region, &old(option).tile_proj),
        ),
        forall|coords: &Vec<Coord>| hull.requires((coords,)),
        forall|task: &Measure| measure.requires((task,)),
        forall|value: &PropValue| number.requires((value,)),
    ensures
        final(geoms)@.len() == old(geoms)@.len(),
        forall|i: int|
            0 <= i < old(geoms)@.len() ==> {
                &&& (#[trigger] final(geoms)@[i])@.geometry == old(geoms)@[i]@.geometry
                &&& final(geoms)@[i]@.layer == old(geoms)@[i]@.layer
                &&& final(geoms)@[i]@.props == old(geoms)@[i]@.props
            },
        final(option).region == old(option).region,
        final(option).pixel_option == old(option).pixel_option,
        final(option).tile_proj == old(option).tile_proj,
        final(option).need_proj_geom == old(option).need_proj_geom,
        final(option).renderers@.len() == old(option).renderers@.len(),
        r matches Ok(ops) ==> all_settled(ops@),
        old(geoms)@.len() == 0 || old(option).renderers@.len() == 0 ==> (r matches Ok(ops)
            && ops@.len() == 0),
        old(geoms)@.len() == 0 ==> final(option).renderers@ == old(option).renderers@,
        !list_needs(old(option).renderers, Phase::Convert) ==> final(option).renderers@ == old(
            option,
        ).renderers@ && (r matches Ok(ops) ==> rendered(
            *old(option),
            old(geoms)@,
            final(geoms)@,
            *frame,
            *hull,
            *measure,
            *number,
            op_views(ops@),
        )),
        !list_needs(old(option).renderers, Phase::Convert) ==> (r matches Err(message)
            ==> exists|j: int, i: int|
            0 <= j < old(option).renderers@.len() && 0 <= i < old(geoms)@.len() && filter_takes(
                old(option).renderers@[j].inner.filter_view(),
                old(geoms)@[i]@.layer,
            ) && #[trigger] fails_from(
                old(option).renderers@[j].inner,
                final(geoms)@[i]@,
                *hull,
                *measure,
                *number,
                message,
            )),
        rendered_by(
            *old(option),
            old(geoms)@,
            final(geoms)@,
            *source,
            *frame,
            *hull,
            *measure,
            *number,
            depth,
            *final(option),
            draw_view(r),
        ),
{
    let rect: Option<Rect> = option.get_region_rect(frame);
    let mut i: usize = 0;
    while i < geoms.len()
        invariant
            i <= geoms.len(),
            geoms@.len() == old(geoms)@.len(),
            forall|k: int|
                0 <= k < old(geoms)@.len() ==> {
                    &&& (#[trigger] geoms@[k])@.geometry == old(geoms)@[k]@.geometry
                    &&& geoms@[k]@.layer == old(geoms)@[k]@.layer
                    &&& geoms@[k]@.props == old(geoms)@[k]@.props
                },
            forall|k: int| 0 <= k < i ==> (#[trigger] geoms@[k])@ == framed(old(geoms)@[k]@, rect),
            forall|k: int| i <= k < geoms@.len() ==> geoms@[k] == old(geoms)@[k],
        decreases geoms.len() - i,
    {
        let ghost held = geoms@;
        geoms[i].with_rect(rect);
        assert forall|k: int| 0 <= k < i + 1 implies (#[trigger] geoms@[k])@ == framed(
            old(geoms)@[k]@,
            rect,
        ) by {
            if k < i {
                assert(geoms@[k] == held[k]);
            }
        }
        assert forall|k: int| 0 <= k < old(geoms)@.len() implies {
            &&& (#[trigger] geoms@[k])@.geometry == old(geoms)@[k]@.geometry
            &&& geoms@[k]@.layer == old(geoms)@[k]@.layer
            &&& geoms@[k]@.props == old(geoms)@[k]@.props
        } by {
            if k != i {
                assert(geoms@[k] == held[k]);
            }
        }
        i += 1;
    }
    let ghost first = geoms@;
    let ghost plain_style = !list_needs(old(option).renderers, Phase::Convert);
    let ghost mut states: Seq<Seq<RenderedGeometry>> = seq![first];
    let ghost mut parts: Seq<Seq<DrawOpView>> = Seq::empty();
    assert(all_framed(old(geoms)@, rect, first));
    assert(region_rect(*old(option), *frame, rect));
    let mut ops: Vec<DrawOp> = Vec::new();
    let mut j: usize = 0;
    assert(op_views(ops@) =~= parts_upto(parts, 0));
    while j < option.renderers.len()
        invariant
            j <= option.renderers.len(),
            forall|coords: &Vec<Coord>| hull.requires((coords,)),
            forall|task: &Measure| measure.requires((task,)),
            forall|value: &PropValue| number.requires((value,)),
            geoms@.len() == old(geoms)@.len(),
            forall|k: int|
                0 <= k < old(geoms)@.len() ==> {
                    &&& (#[trigger] geoms@[k])@.geometry == old(geoms)@[k]@.geometry
                    &&& geoms@[k]@.layer == old(geoms)@[k]@.layer
                    &&& geoms@[k]@.props == old(geoms)@[k]@.props
                },
            option.region == old(option).region,
            option.pixel_option == old(option).pixel_option,
            option.tile_proj == old(option).tile_proj,
            option.need_proj_geom == old(option).need_proj_geom,
            option.renderers@.len() == old(option).renderers@.len(),
            all_settled(ops@),
            old(option).renderers@.len() == 0 ==> ops@.len() == 0,
            old(geoms)@.len() == 0 ==> ops@.len() == 0 && option.renderers@ == old(
                option,
            ).renderers@,
            plain_style == !list_needs(old(option).renderers, Phase::Convert),
            all_framed(old(geoms)@, rect, first),
            region_rect(*old(option), *frame, rect),
            states.len() == j + 1,
            parts.len() == j,
            states[0] == first,
            states[j as int] == geoms@,
            op_views(ops@) == parts_upto(parts, j as nat),
            forall|k: int|
                0 <= k < option.renderers@.len() ==> same_source(
                    old(option).renderers@[k],
                    #[trigger] option.renderers@[k],
                ),
            forall|k: int|
                j <= k < option.renderers@.len() ==> #[trigger] option.renderers@[k] == old(
                    option,
                ).renderers@[k],
            layers_traced(
                old(option).renderers@,
                option.renderers@,
                states,
                parts,
                *source,
                rect,
                *hull,
                *measure,
                *number,
                depth,
                j as nat,
            ),
            plain_style ==> {
                &&& option.renderers@ == old(option).renderers@
                &&& layers_drawn(
                    old(option).renderers@,
                    states,
                    parts,
                    rect,
                    *hull,
                    *measure,
                    *number,
                    j as nat,
                )
            },
        decreases option.renderers.len() - j,
    {
        let ghost held = option.renderers@;
        let ghost shown = geoms@;
        proof {
            if plain_style {
                lemma_needs_none(
                    old(option).renderers,
                    Phase::Convert,
                    old(option).renderers@.len(),
                    j as int,
                );
            }
        }
        let drawn = option.renderers[j].inner.draw(
            geoms,
            rect,
            source,
            hull,
            measure,
            number,
            depth,
        );
        let ghost outcome = draw_view(drawn);
        proof {
            assert forall|k: int| 0 <= k < option.renderers@.len() implies same_source(
                old(option).renderers@[k],
                #[trigger] option.renderers@[k],
            ) by {
                if k != j {
                    assert(option.renderers@[k] == held[k]);
                }
            }
            assert forall|k: int| j < k < option.renderers@.len() implies (
            #[trigger] option.renderers@[k]) == old(option).renderers@[k] by {
                assert(option.renderers@[k] == held[k]);
            }
            assert forall|k: int| 0 <= k < j implies all_drawn(
                old(option).renderers@[k].inner,
                states[k],
                states[k + 1],
                *source,
                rect,
                *hull,
                *measure,
                *number,
                depth,
                option.renderers@[k].inner,
                Ok(#[trigger] parts[k]),
            ) by {
                assert(option.renderers@[k] == held[k]);
            }
            assert(held[j as int] == old(option).renderers@[j as int]);
        }
        match drawn {
            Err(message) => {
                proof {
                    if plain_style {
                        assert(option.renderers@ =~= held);
                        let i = choose|i: int|
                            0 <= i < shown.len() && filter_takes(
                                held[j as int].inner.filter_view(),
                                shown[i]@.layer,
                            ) && #[trigger] fails_from(
                                held[j as int].inner,
                                geoms@[i]@,
                                *hull,
                                *measure,
                                *number,
                                message,
                            );
                        assert(shown[i]@.layer == old(geoms)@[i]@.layer);
                        assert(fails_from(
                            old(option).renderers@[j as int].inner,
                            geoms@[i]@,
                            *hull,
                            *measure,
                            *number,
                            message,
                        ));
                    }
                    assert(outcome == Err::<Seq<DrawOpView>, String>(message));
                    assert(layers_traced(
                        old(option).renderers@,
                        option.renderers@,
                        states,
                        parts,
                        *source,
                        rect,
                        *hull,
                        *measure,
                        *number,
                        depth,
                        j as nat,
                    ));
                    assert(style_traced(
                        old(option).renderers@,
                        first,
                        geoms@,
                        *source,
                        rect,
                        *hull,
                        *measure,
                        *number,
                        depth,
                        option.renderers@,
                        Err::<Seq<DrawOpView>, String>(message),
                    ));
                }
                return Err(message);
            },
            Ok(part) => {
                let mut part = part;
                let ghost before = ops@;
                let ghost added = part@;
                proof {
                    lemma_op_views_add(before, added);
                    assert(outcome == Ok::<Seq<DrawOpView>, String>(op_views(added)));
                }
                ops.append(&mut part);
                assert forall|k: int| 0 <= k < ops@.len() implies crate::scene::settled_op(
                    #[trigger] ops@[k]@,
                ) by {
                    if k < before.len() {
                        assert(ops@[k] == before[k]);
                    } else {
                        assert(ops@[k] == added[k - before.len()]);
                    }
                }
                assert(old(geoms)@.len() == 0 ==> option.renderers@ =~= held);
                proof {
                    let earlier_states = states;
                    let earlier_parts = parts;
                    states = states.push(geoms@);
                    parts = parts.push(op_views(added));
                    lemma_parts_prefix(earlier_parts, parts, j as nat);
                    assert forall|k: int| 0 <= k < j + 1 implies all_drawn(
                        old(option).renderers@[k].inner,
                        states[k],
                        states[k + 1],
                        *source,
                        rect,
                        *hull,
                        *measure,
                        *number,
                        depth,
                        option.renderers@[k].inner,
                        Ok(#[trigger] parts[k]),
                    ) by {
                        if k < j {
                            assert(parts[k] == earlier_parts[k]);
                            assert(states[k] == earlier_states[k]);
                            assert(states[k + 1] == earlier_states[k + 1]);
                        } else {
                            assert(states[k] == shown);
                        }
                    }
                    if plain_style {
                        assert(option.renderers@ =~= held);
                        assert forall|k: int| 0 <= k < j + 1 implies layer_drawn(
                            old(option).renderers@[k].inner,
                            states[k],
                            states[k + 1],
                            rect,
                            *hull,
                            *measure,
                            *number,
                            #[trigger] parts[k],
                        ) by {
                            if k < j {
                                assert(parts[k] == earlier_parts[k]);
                                assert(states[k] == earlier_states[k]);
                                assert(states[k + 1] == earlier_states[k + 1]);
                            } else {
                                assert(states[k] == shown);
                            }
                        }
                    }
                }
            },
        }
        j += 1;
    }
    proof {
        if plain_style {
            assert(style_drawn(
                old(option).renderers@,
                first,
                geoms@,
                rect,
                *hull,
                *measure,
                *number,
                op_views(ops@),
            ));
        }
        assert(style_traced(
            old(option).renderers@,
            first,
            geoms@,
            *source,
            rect,
            *hull,
            *measure,
            *number,
            depth,
            option.renderers@,
            Ok::<Seq<DrawOpView>, String>(op_views(ops@)),
        ));
    }
    Ok(ops)
}

/// The first `n` rows of `row` bytes each, taken from a buffer in which a
/// row begins every `padded` bytes, one after the other.
pub open spec fn rows_upto(data: Seq<u8>, row: int, padded: int, n: nat) -> Seq<u8>
    decreases n,
{
    if n == 0 {
        Seq::empty()
    } else {
        rows_upto(data, row, padded, (n - 1) as nat) + data.subrange(
            (n - 1) * padded,
            (n - 1) * padded + row,
        )
    }
}

/// Whether a buffer of `len` bytes holds `height` rows of `row` bytes each,
/// one beginning every `padded` bytes.
pub open spec fn rows_fit(len: int, row: int, padded: int, height: nat) -> bool {
    height == 0 || (height - 1) * padded + row <= len
}

/// A product with a factor that is not negative grows with the other
/// factor.
proof fn lemma_product_grows(a: int, b: int, p: int)
    requires
        0 <= a <= b,
        0 <= p,
    ensures
        a * p <= b * p,
{
    assert(a * p <= b * p) by (nonlinear_arith)
        requires
            0 <= a <= b,
            0 <= p,
    ;
}

/// The rows of a picture without their padding: `height` rows of four bytes
/// to the pixel, taken from a buffer in which a row begins every
/// `padded_byte_width` bytes. There is none where the buffer is too short to
/// hold the last row.
pub fn unpad_rows(data: &Vec<u8>, width: u32, height: u32, padded_byte_width: u32) -> (r: Option<
    Vec<u8>,
>)
    ensures
        match r {
            Some(out) => rows_fit(data@.len() as int, 4 * width, padded_byte_width as int, height as nat)
                && out@ == rows_upto(data@, 4 * width, padded_byte_width as int, height as nat)
                && out@.len() == 4 * width * height,
            None => !rows_fit(data@.len() as int, 4 * width, padded_byte_width as int, height as nat),
        },
{
    let len: u64 = data.len() as u64;
    let row: u64 = width as u64 * 4;
    let padded: u64 = padded_byte_width as u64;
    let mut out: Vec<u8> = Vec::new();
    let mut n: u32 = 0;
    while n < height
        invariant
            n <= height,
            len == data@.len(),
            len <= usize::MAX,
            row == 4 * width,
            padded == padded_byte_width,
            out@ == rows_upto(data@, row as int, padded as int, n as nat),
            rows_fit(len as int, row as int, padded as int, n as nat),
        decreases height - n,
    {
        assert(n as int * padded as int <= 0xffff_ffff * 0xffff_ffff) by (nonlinear_arith)
            requires
                0 <= n <= 0xffff_ffff,
                0 <= padded <= 0xffff_ffff,
        ;
        let start: u64 = n as u64 * padded;
        if start > len || row > len - start {
            proof {
                lemma_product_grows(n as int, height as int - 1, padded as int);
            }
            return None;
        }
        let end: u64 = start + row;
        let mut k: u64 = start;
        let ghost before = out@;
        while k < end
            invariant
                start <= k <= end,
                end <= len,
                len == data@.len(),
                len <= usize::MAX,
                out@ == before + data@.subrange(start as int, k as int),
            decreases end - k,
        {
            out.push(data[k as usize]);
            assert(out@ =~= before + data@.subrange(start as int, (k + 1) as int));
            k += 1;
        }
        n += 1;
    }
    proof {
        lemma_rows_len(data@, row as int, padded as int, height as nat);
        assert(height * (4 * width) == 4 * width * height) by (nonlinear_arith);
    }
    Some(out)
}

/// The message for a buffer that does not hold the picture.
pub open spec fn short_buffer_message() -> Seq<char> {
    "pixel buffer does not hold the picture"@
}

/// The picture of a style from the padded rows that the graphics device
/// handed back: `height` rows of four bytes to the pixel, tightly packed.
/// It fails where a padded row does not fit 32 bits and where the buffer is
/// too short to hold the last row.
pub fn render_to_buffer(data: &Vec<u8>, option: &RenderOption) -> (r: Result<Vec<u8>, String>)
    ensures
        match r {
            Ok(out) => {
                &&& option.pixel_option.width <= MAX_PADDED_WIDTH
                &&& rows_fit(
                    data@.len() as int,
                    4 * option.pixel_option.width,
                    padded_row_bytes(option.pixel_option.width),
                    option.pixel_option.height as nat,
                )
                &&& out@ == rows_upto(
                    data@,
                    4 * option.pixel_option.width,
                    padded_row_bytes(option.pixel_option.width),
                    option.pixel_option.height as nat,
                )
                &&& out@.len() == 4 * option.pixel_option.width * option.pixel_option.height
            },
            Err(message) => {
                &&& message@ == short_buffer_message()
                &&& (option.pixel_option.width > MAX_PADDED_WIDTH || !rows_fit(
                    data@.len() as int,
                    4 * option.pixel_option.width,
                    padded_row_bytes(option.pixel_option.width),
                    option.pixel_option.height as nat,
                ))
            },
        },
{
    let (width, height) = option.get_pixel_size();
    match option.checked_padded_byte_width() {
        None => Err(String::from_str("pixel buffer does not hold the picture")),
        Some(padded) => match unpad_rows(data, width, height, padded) {
            Some(out) => Ok(out),
            None => Err(String::from_str("pixel buffer does not hold the picture")),
        },
    }
}

/// The rows of a picture number `4 * width * height` bytes in all.
pub proof fn lemma_rows_len(data: Seq<u8>, row: int, padded: int, n: nat)
    requires
        0 <= row,
        0 <= padded,
        rows_fit(data.len() as int, row, padded, n),
    ensures
        rows_upto(data, row, padded, n).len() == n * row,
    decreases n,
{
    if n > 0 {
        if n > 1 {
            lemma_product_grows(n - 2, n - 1, padded);
        }
        lemma_rows_len(data, row, padded, (n - 1) as nat);
        let start = (n - 1) * padded;
        assert(start >= 0) by (nonlinear_arith)
            requires
                start == (n - 1) * padded,
                n >= 1,
                padded >= 0,
        ;
        let m = (n - 1) as nat;
        assert(data.subrange(start, start + row).len() == row);
        assert(rows_upto(data, row, padded, m).len() == m * row);
        assert(rows_upto(data, row, padded, n) == rows_upto(data, row, padded, m) + data.subrange(
            start,
            start + row,
        ));
        assert(m * row + row == n * row) by (nonlinear_arith)
            requires
                m == n - 1,
        ;
    } else {
        assert(n * row == 0) by (nonlinear_arith)
            requires
                n == 0,
        ;
    }
}

/// The byte at place `k` of row `i` of a buffer in which a row begins
/// every `padded` bytes.
pub open spec fn byte_at(data: Seq<u8>, padded: int, i: int, k: int) -> u8 {
    data[i * padded + k]
}

/// Whether every pixel of the first `n` rows of a buffer, of `row` bytes
/// each, is of one colour: four bytes to the pixel.
pub open spec fn rows_of_colour(data: Seq<u8>, row: int, padded: int, n: nat, colour: Seq<u8>) -> bool {
    forall|i: int, k: int|
        0 <= i < n && 0 <= k < row ==> #[trigger] byte_at(data, padded, i, k) == colour[k % 4]
}

/// Whether every pixel of a picture is of one colour.
pub open spec fn of_colour(picture: Seq<u8>, colour: Seq<u8>) -> bool {
    forall|j: int| 0 <= j < picture.len() ==> #[trigger] picture[j] == colour[j % 4]
}

/// A picture taken from rows in which every pixel is of one colour is of
/// that colour throughout: where nothing was painted and the graphics
/// device hands back the background, the picture is the background.
pub proof fn lemma_picture_of_colour(
    data: Seq<u8>,
    width: int,
    padded: int,
    n: nat,
    colour: Seq<u8>,
)
    requires
        colour.len() == 4,
        0 <= width,
        0 <= padded,
        rows_fit(data.len() as int, 4 * width, padded, n),
        rows_of_colour(data, 4 * width, padded, n, colour),
    ensures
        of_colour(rows_upto(data, 4 * width, padded, n), colour),
    decreases n,
{
    let row: int = 4 * width;
    if n > 0 {
        let m = (n - 1) as nat;
        if n > 1 {
            lemma_product_grows(n - 2, n - 1, padded);
        }
        lemma_rows_len(data, row, padded, m);
        lemma_rows_len(data, row, padded, n);
        assert forall|i: int, k: int| 0 <= i < m && 0 <= k < row implies #[trigger] byte_at(
            data,
            padded,
            i,
            k,
        ) == colour[k % 4] by {}
        lemma_picture_of_colour(data, width, padded, m, colour);
        let start = m * padded;
        assert(start >= 0) by (nonlinear_arith)
            requires
                start == m * padded,
                padded >= 0,
        ;
        let earlier = rows_upto(data, row, padded, m);
        let last = data.subrange(start, start + row);
        let picture = rows_upto(data, row, padded, n);
        assert(picture == earlier + last);
        let whole = m * width;
        assert(m * row == 4 * whole) by (nonlinear_arith)
            requires
                row == 4 * width,
                whole == m * width,
        ;
        assert forall|j: int| 0 <= j < picture.len() implies #[trigger] picture[j] == colour[j
            % 4] by {
            if j < earlier.len() {
                assert(picture[j] == earlier[j]);
            } else {
                let k = j - earlier.len();
                assert(picture[j] == last[k]);
                assert(last[k] == byte_at(data, padded, m as int, k));
                assert(j == k + 4 * whole);
                assert(j % 4 == k % 4);
            }
        }
    }
}

} // verus!
