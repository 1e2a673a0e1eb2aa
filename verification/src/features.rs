//! Features and collections of features as they come from a data source:
//! which geometries they give to render, and what rectangle holds them all.
use crate::geometry::{rect_of, Coord, Geometry, GeometryView, Rect};
use crate::magic_value::{PropView, Properties};
use crate::render_option::RenderRegion;
use crate::rendered_geometry::{projected_by, RenderedGeometry};
use crate::scalar;
use vstd::prelude::*;

verus! {

/// A geometry, if there is one, with the properties that describe it.
#[derive(Debug, PartialEq)]
pub struct Feature {
    pub geometry: Option<Geometry>,
    pub properties: Properties,
}

/// What a data source holds: a bare geometry, one feature, or a collection
/// of features.
#[derive(Debug, PartialEq)]
pub enum GeoJson {
    Geometry(Geometry),
    Feature(Feature),
    FeatureCollection(Vec<Feature>),
}

/// The features of a document, in order: a bare geometry counts as one
/// feature without properties.
pub open spec fn features_of(doc: GeoJson) -> Seq<(Option<GeometryView>, Seq<(Seq<char>, PropView)>)> {
    match doc {
        GeoJson::Geometry(g) => seq![(Some(g@), Seq::empty())],
        GeoJson::Feature(f) => seq![(geometry_of(f), f.properties@)],
        GeoJson::FeatureCollection(fs) => Seq::new(
            fs@.len(),
            |i: int| (geometry_of(fs@[i]), fs@[i].properties@),
        ),
    }
}

/// The geometry of a feature, if it has one.
pub open spec fn geometry_of(f: Feature) -> Option<GeometryView> {
    match f.geometry {
        Some(g) => Some(g@),
        None => None,
    }
}

/// Whether each of the first `n` features has a geometry.
pub open spec fn all_have_geometry(
    features: Seq<(Option<GeometryView>, Seq<(Seq<char>, PropView)>)>,
    n: nat,
) -> bool {
    forall|i: int| 0 <= i < n && i < features.len() ==> (#[trigger] features[i]).0 is Some
}

/// The message for a single feature without geometry.
pub open spec fn lone_feature_message() -> Seq<char> {
    "only feature has no geometry"@
}

/// The message for the feature at an index of a collection that has no
/// geometry, the index written as `index_text`.
pub open spec fn indexed_feature_message(index_text: Seq<char>) -> Seq<char> {
    "feature (index:"@ + index_text + ") has no geometry"@
}

/// The views of geometries with their properties.
pub open spec fn item_views(items: Seq<(Geometry, Properties)>) -> Seq<
    (Option<GeometryView>, Seq<(Seq<char>, PropView)>),
> {
    Seq::new(items.len(), |i: int| (Some(items[i].0@), items[i].1@))
}

/// Whether `message` is the failure of a document for want of a geometry:
/// for a single feature without one the message for that, for a collection
/// the message that tells the index of its first feature without one. A
/// bare geometry never fails.
pub open spec fn lacks_geometry(geojson: GeoJson, message: Seq<char>) -> bool {
    match geojson {
        GeoJson::Geometry(_) => false,
        GeoJson::Feature(f) => f.geometry is None && message == lone_feature_message(),
        GeoJson::FeatureCollection(fs) => exists|i: int, text: String|
            {
                &&& 0 <= i < fs@.len()
                &&& fs@[i].geometry is None
                &&& all_have_geometry(features_of(geojson), i as nat)
                &&& #[trigger] vstd::string::to_string_from_display_ensures::<usize>(
                    &(i as usize),
                    text,
                )
                &&& message == indexed_feature_message(text@)
            },
    }
}

/// The geometries of a document with their properties, in order.
///
/// It fails at the first feature without a geometry: for a single feature
/// with one message, for a feature of a collection with a message that
/// tells its index.
pub fn get_geom_from_geojson(geojson: &GeoJson) -> (r: Result<Vec<(Geometry, Properties)>, String>)
    ensures
        match r {
            Ok(items) => item_views(items@) == features_of(*geojson),
            Err(message) => lacks_geometry(*geojson, message@),
        },
{
    let mut items: Vec<(Geometry, Properties)> = Vec::new();
    match geojson {
        GeoJson::Geometry(geometry) => {
            let props = Properties::new();
            assert(props@ =~= Seq::empty());
            items.push((geometry.clone(), props));
            assert(item_views(items@) =~= features_of(*geojson));
            Ok(items)
        },
        GeoJson::Feature(feature) => match &feature.geometry {
            None => Err(String::from_str("only feature has no geometry")),
            Some(geometry) => {
                items.push((geometry.clone(), feature.properties.clone()));
                assert(item_views(items@) =~= features_of(*geojson));
                Ok(items)
            },
        },
        GeoJson::FeatureCollection(features) => {
            let mut i: usize = 0;
            while i < features.len()
                invariant
                    i <= features.len(),
                    *geojson matches GeoJson::FeatureCollection(fs) && fs == *features,
                    items@.len() == i,
                    forall|k: int|
                        0 <= k < i ==> item_views(items@)[k] == #[trigger] features_of(
                            *geojson,
                        )[k],
                decreases features.len() - i,
            {
                match &features[i].geometry {
                    None => {
                        let text: String = i.to_string();
                        let mut message = String::from_str("feature (index:");
                        message.append(text.as_str());
                        message.append(") has no geometry");
                        assert forall|k: int| 0 <= k < i implies (#[trigger] features_of(
                            *geojson,
                        )[k]).0 is Some by {
                            assert(item_views(items@)[k] == features_of(*geojson)[k]);
                        }
                        assert({
                            &&& 0 <= (i as int) && (i as int) < features@.len()
                            &&& features@[i as int].geometry is None
                            &&& all_have_geometry(features_of(*geojson), i as nat)
                            &&& vstd::string::to_string_from_display_ensures::<usize>(
                                &((i as int) as usize),
                                text,
                            )
                            &&& message@ == indexed_feature_message(text@)
                        });
                        return Err(message);
                    },
                    Some(geometry) => {
                        items.push((geometry.clone(), features[i].properties.clone()));
                    },
                }
                i += 1;
            }
            assert(item_views(items@) =~= features_of(*geojson));
            Ok(items)
        },
    }
}

/// The rectangle that grows to hold rectangles: the least and the greatest
/// ordinate met on each axis.
#[derive(Clone, Copy, Debug, PartialEq, Eq, Structural)]
pub struct Extent {
    pub x_min: u64,
    pub x_max: u64,
    pub y_min: u64,
    pub y_max: u64,
    /// Whether any rectangle was met.
    pub met: bool,
}

/// The extent before any rectangle was met: the least ordinates are the
/// greatest finite double, the greatest the least.
pub open spec fn empty_extent() -> Extent {
    Extent {
        x_min: scalar::GREATEST,
        x_max: scalar::LEAST,
        y_min: scalar::GREATEST,
        y_max: scalar::LEAST,
        met: false,
    }
}

/// The extent after one more rectangle, or after none.
pub open spec fn grown(e: Extent, rect: Option<Rect>) -> Extent {
    match rect {
        None => e,
        Some(r) => Extent {
            x_min: scalar::min_of(e.x_min, r.min.x),
            x_max: scalar::max_of(e.x_max, r.max.x),
            y_min: scalar::min_of(e.y_min, r.min.y),
            y_max: scalar::max_of(e.y_max, r.max.y),
            met: true,
        },
    }
}

/// The extent after the first `n` of a list of optional rectangles.
pub open spec fn extent_upto(rects: Seq<Option<Rect>>, n: nat) -> Extent
    decreases n,
{
    if n == 0 || n > rects.len() {
        empty_extent()
    } else {
        grown(extent_upto(rects, (n - 1) as nat), rects[n - 1])
    }
}

/// The rectangle of an extent: none if no rectangle was met.
pub open spec fn extent_rect(e: Extent) -> Option<Rect> {
    if e.met {
        Some(rect_of(Coord { x: e.x_min, y: e.y_max }, Coord { x: e.x_max, y: e.y_min }))
    } else {
        None
    }
}

/// The rectangle that holds the rectangles of a list, skipping the entries
/// that are none; none if all are.
pub open spec fn union_of(rects: Seq<Option<Rect>>) -> Option<Rect> {
    extent_rect(extent_upto(rects, rects.len()))
}

impl Extent {
    /// The extent before any rectangle was met.
    pub fn new() -> (e: Extent)
        ensures
            e == empty_extent(),
    {
        Extent {
            x_min: scalar::GREATEST,
            x_max: scalar::LEAST,
            y_min: scalar::GREATEST,
            y_max: scalar::LEAST,
            met: false,
        }
    }

    /// Grows the extent to hold one more rectangle, or leaves it for none.
    pub fn grow(&mut self, rect: &Option<Rect>)
        ensures
            *final(self) == grown(*old(self), *rect),
    {
        match rect {
            None => {},
            Some(r) => {
                self.x_min = scalar::min(self.x_min, r.min.x);
                self.x_max = scalar::max(self.x_max, r.max.x);
                self.y_min = scalar::min(self.y_min, r.min.y);
                self.y_max = scalar::max(self.y_max, r.max.y);
                self.met = true;
            },
        }
    }

    /// The rectangle of the extent: none if no rectangle was met.
    pub fn rect(&self) -> (r: Option<Rect>)
        ensures
            r == extent_rect(*self),
    {
        if self.met {
            Some(
                Rect::new(
                    Coord { x: self.x_min, y: self.y_max },
                    Coord { x: self.x_max, y: self.y_min },
                ),
            )
        } else {
            None
        }
    }
}

/// The rectangle that holds the rectangles of a list, skipping the entries
/// that are none; none if all are.
pub fn union_rect(rects: &Vec<Option<Rect>>) -> (r: Option<Rect>)
    ensures
        r == union_of(rects@),
{
    let mut extent = Extent::new();
    let mut i: usize = 0;
    while i < rects.len()
        invariant
            i <= rects.len(),
            extent == extent_upto(rects@, i as nat),
        decreases rects.len() - i,
    {
        extent.grow(&rects[i]);
        i += 1;
    }
    extent.rect()
}

/// Whether `answers` are what `bounds` may give for the geometries of the
/// features, one for one, with none for a feature without geometry.
pub open spec fn bounds_follow<B: Fn(&Geometry) -> Option<Rect>>(
    features: Seq<(Option<GeometryView>, Seq<(Seq<char>, PropView)>)>,
    bounds: B,
    answers: Seq<Option<Rect>>,
) -> bool {
    &&& answers.len() == features.len()
    &&& forall|i: int|
        0 <= i < features.len() ==> bound_follows(features[i].0, bounds, #[trigger] answers[i])
}

/// Whether `answer` is what `bounds` may give for a geometry, or none for
/// no geometry.
pub open spec fn bound_follows<B: Fn(&Geometry) -> Option<Rect>>(
    geometry: Option<GeometryView>,
    bounds: B,
    answer: Option<Rect>,
) -> bool {
    match geometry {
        None => answer is None,
        Some(g) => exists|geom: Geometry| geom@ == g && #[trigger] bounds.ensures((&geom,), answer),
    }
}

/// Whether `rect` is the union of what `bounds` may give for the features
/// of a document.
pub open spec fn rect_follows<B: Fn(&Geometry) -> Option<Rect>>(
    doc: GeoJson,
    bounds: B,
    rect: Option<Rect>,
) -> bool {
    exists|answers: Seq<Option<Rect>>| #[trigger]
        bounds_follow(features_of(doc), bounds, answers) && rect == union_of(answers)
}

/// The bounding rectangles of the features of a document as `bounds` gives
/// them, one for one, with none for a feature without geometry.
pub fn feature_bounds<B: Fn(&Geometry) -> Option<Rect>>(geojson: &GeoJson, bounds: &B) -> (answers:
    Vec<Option<Rect>>)
    requires
        forall|geom: &Geometry| bounds.requires((geom,)),
    ensures
        bounds_follow(features_of(*geojson), *bounds, answers@),
{
    let mut answers: Vec<Option<Rect>> = Vec::new();
    match geojson {
        GeoJson::Geometry(geometry) => {
            let answer = bounds(geometry);
            answers.push(answer);
        },
        GeoJson::Feature(feature) => match &feature.geometry {
            Some(geometry) => {
                let answer = bounds(geometry);
                answers.push(answer);
            },
            None => {
                answers.push(None);
            },
        },
        GeoJson::FeatureCollection(features) => {
            let mut i: usize = 0;
            while i < features.len()
                invariant
                    i <= features.len(),
                    forall|geom: &Geometry| bounds.requires((geom,)),
                    *geojson matches GeoJson::FeatureCollection(fs) && fs == *features,
                    answers@.len() == i,
                    forall|k: int|
                        0 <= k < i ==> bound_follows(
                            features_of(*geojson)[k].0,
                            *bounds,
                            #[trigger] answers@[k],
                        ),
                decreases features.len() - i,
            {
                let ghost before = answers@;
                match &features[i].geometry {
                    Some(geometry) => {
                        let answer = bounds(geometry);
                        answers.push(answer);
                    },
                    None => {
                        answers.push(None);
                    },
                }
                assert forall|k: int| 0 <= k < i + 1 implies bound_follows(
                    features_of(*geojson)[k].0,
                    *bounds,
                    #[trigger] answers@[k],
                ) by {
                    if k < i {
                        assert(answers@[k] == before[k]);
                    }
                }
                i += 1;
            }
        },
    }
    answers
}

/// The rectangle that holds the features of a document where the region to
/// render is all of them: the union of their bounding rectangles as
/// `bounds` gives them, none if none has one. For every other region there
/// is none.
pub fn get_render_rect<B: Fn(&Geometry) -> Option<Rect>>(
    geojson: &GeoJson,
    region: &RenderRegion,
    bounds: &B,
) -> (r: Option<Rect>)
    requires
        forall|geom: &Geometry| bounds.requires((geom,)),
    ensures
        *region != RenderRegion::All ==> r is None,
        *region == RenderRegion::All ==> rect_follows(*geojson, *bounds, r),
{
    match region {
        RenderRegion::All => {
            let answers = feature_bounds(geojson, bounds);
            let r = union_rect(&answers);
            assert(bounds_follow(features_of(*geojson), *bounds, answers@) && r == union_of(
                answers@,
            ));
            r
        },
        _ => None,
    }
}

/// Whether `rects` are what [`get_render_rect`] may give for each document
/// of a list.
pub open spec fn rects_follow<B: Fn(&Geometry) -> Option<Rect>>(
    docs: Seq<(String, GeoJson)>,
    bounds: B,
    rects: Seq<Option<Rect>>,
) -> bool {
    &&& rects.len() == docs.len()
    &&& forall|i: int| 0 <= i < docs.len() ==> rect_follows(docs[i].1, bounds, #[trigger] rects[i])
}

/// The rectangle that holds the features of all the documents where the
/// region to render is all of them: the union of the rectangles of the
/// documents, none if none has one. For every other region there is none.
pub fn get_all_render_rect<B: Fn(&Geometry) -> Option<Rect>>(
    geojson: &Vec<(String, GeoJson)>,
    region: &RenderRegion,
    bounds: &B,
) -> (r: Option<Rect>)
    requires
        forall|geom: &Geometry| bounds.requires((geom,)),
    ensures
        *region != RenderRegion::All ==> r is None,
        *region == RenderRegion::All ==> exists|rects: Seq<Option<Rect>>| #[trigger]
            rects_follow(geojson@, *bounds, rects) && r == union_of(rects),
{
    match region {
        RenderRegion::All => {
            let mut rects: Vec<Option<Rect>> = Vec::new();
            let mut i: usize = 0;
            while i < geojson.len()
                invariant
                    i <= geojson.len(),
                    forall|geom: &Geometry| bounds.requires((geom,)),
                    rects@.len() == i,
                    forall|k: int|
                        0 <= k < i ==> rect_follows(geojson@[k].1, *bounds, #[trigger] rects@[k]),
                decreases geojson.len() - i,
            {
                let ghost before = rects@;
                let rect = get_render_rect(&geojson[i].1, &RenderRegion::All, bounds);
                rects.push(rect);
                assert forall|k: int| 0 <= k < i + 1 implies rect_follows(
                    geojson@[k].1,
                    *bounds,
                    #[trigger] rects@[k],
                ) by {
                    if k < i {
                        assert(rects@[k] == before[k]);
                    }
                }
                i += 1;
            }
            let r = union_rect(&rects);
            assert(rects_follow(geojson@, *bounds, rects@) && r == union_of(rects@));
            r
        },
        _ => None,
    }
}

/// A geometry with its tags: the layer, the geometry and the properties.
pub type Tagged = (Option<Seq<char>>, GeometryView, Seq<(Seq<char>, PropView)>);

/// The features of one document tagged with the name of the document.
pub open spec fn tagged(
    name: Seq<char>,
    features: Seq<(Option<GeometryView>, Seq<(Seq<char>, PropView)>)>,
) -> Seq<Tagged> {
    Seq::new(features.len(), |i: int| (Some(name), features[i].0->Some_0, features[i].1))
}

/// The features of the first `n` documents of a list, each tagged with the
/// name of its document, document after document.
pub open spec fn tagged_upto(docs: Seq<(String, GeoJson)>, n: nat) -> Seq<Tagged>
    decreases n,
{
    if n == 0 || n > docs.len() {
        Seq::empty()
    } else {
        tagged_upto(docs, (n - 1) as nat) + tagged(docs[n - 1].0@, features_of(docs[n - 1].1))
    }
}

/// The tags of geometries made ready for drawing.
pub open spec fn tags_of(geoms: Seq<RenderedGeometry>) -> Seq<Tagged> {
    Seq::new(geoms.len(), |i: int| (geoms[i]@.layer, geoms[i]@.geometry, geoms[i]@.props@))
}

/// Whether every feature of every document has a geometry.
pub open spec fn complete(docs: Seq<(String, GeoJson)>) -> bool {
    forall|i: int|
        0 <= i < docs.len() ==> all_have_geometry(
            features_of(#[trigger] docs[i].1),
            features_of(docs[i].1).len(),
        )
}

/// Whether nothing has been worked out of any of the geometries yet.
pub open spec fn all_fresh(geoms: Seq<RenderedGeometry>) -> bool {
    forall|i: int|
        0 <= i < geoms.len() ==> (#[trigger] geoms[i])@.lines is None && geoms[i]@.areas is None
            && geoms[i]@.center is None
}

/// Whether `message` is the failure of a list of documents at the document
/// `d`: every document before it is complete, and the message is the
/// failure of this one for want of a geometry.
pub open spec fn fails_at_document(docs: Seq<(String, GeoJson)>, d: int, message: Seq<char>) -> bool {
    &&& 0 <= d < docs.len()
    &&& complete(docs.take(d))
    &&& lacks_geometry(docs[d].1, message)
}

/// The geometries of the documents of a list ready for drawing, in order:
/// each with the name of its document as layer and with its properties, and
/// with nothing worked out yet. It fails where a feature of a document has
/// no geometry, with the failure of [`get_geom_from_geojson`] for the first
/// such document.
pub fn get_rendered_geometry(geojson: &Vec<(String, GeoJson)>) -> (r: Result<
    Vec<RenderedGeometry>,
    String,
>)
    ensures
        r is Ok <==> complete(geojson@),
        r matches Ok(geoms) ==> tags_of(geoms@) == tagged_upto(geojson@, geojson@.len())
            && all_fresh(geoms@),
        match r {
            Err(message) => exists|d: int| #[trigger] fails_at_document(geojson@, d, message@),
            Ok(_) => true,
        },
{
    let mut geoms: Vec<RenderedGeometry> = Vec::new();
    let mut i: usize = 0;
    assert(tags_of(geoms@) =~= tagged_upto(geojson@, 0));
    while i < geojson.len()
        invariant
            i <= geojson.len(),
            tags_of(geoms@) == tagged_upto(geojson@, i as nat),
            all_fresh(geoms@),
            forall|k: int|
                0 <= k < i ==> all_have_geometry(
                    features_of(#[trigger] geojson@[k].1),
                    features_of(geojson@[k].1).len(),
                ),
        decreases geojson.len() - i,
    {
        match get_geom_from_geojson(&geojson[i].1) {
            Err(message) => {
                assert(!all_have_geometry(
                    features_of(geojson@[i as int].1),
                    features_of(geojson@[i as int].1).len(),
                )) by {
                    match geojson@[i as int].1 {
                        GeoJson::Geometry(_) => {},
                        GeoJson::Feature(f) => {
                            assert(features_of(geojson@[i as int].1)[0].0 is None);
                        },
                        GeoJson::FeatureCollection(fs) => {
                            let k = choose|k: int|
                                0 <= k < fs@.len() && (#[trigger] fs@[k]).geometry is None;
                            assert(features_of(geojson@[i as int].1)[k].0 is None);
                        },
                    }
                }
                assert(complete(geojson@.take(i as int))) by {
                    assert forall|k: int| 0 <= k < i implies all_have_geometry(
                        features_of(#[trigger] geojson@.take(i as int)[k].1),
                        features_of(geojson@.take(i as int)[k].1).len(),
                    ) by {
                        assert(geojson@.take(i as int)[k] == geojson@[k]);
                    }
                }
                assert(fails_at_document(geojson@, i as int, message@));
                let failure: Result<Vec<RenderedGeometry>, String> = Err(message);
                assert(failure matches Err(text) && fails_at_document(geojson@, i as int, text@));
                return failure;
            },
            Ok(items) => {
                let ghost before = geoms@;
                let ghost features = features_of(geojson@[i as int].1);
                let ghost name = geojson@[i as int].0@;
                assert forall|k: int| 0 <= k < features.len() implies (
                #[trigger] features[k]).0 is Some by {
                    assert(item_views(items@)[k] == features[k]);
                }
                let mut j: usize = 0;
                assert(tags_of(geoms@) =~= tags_of(before) + tagged(name, features).take(0));
                while j < items.len()
                    invariant
                        j <= items.len(),
                        i < geojson.len(),
                        name == geojson@[i as int].0@,
                        item_views(items@) == features,
                        all_fresh(geoms@),
                        tags_of(geoms@) == tags_of(before) + tagged(name, features).take(j as int),
                    decreases items.len() - j,
                {
                    let ghost held = geoms@;
                    let geom = RenderedGeometry::new(
                        Some(geojson[i].0.clone()),
                        items[j].1.clone(),
                        items[j].0.clone(),
                    );
                    geoms.push(geom);
                    assert(item_views(items@)[j as int] == features[j as int]);
                    assert(features.len() == items@.len());
                    let ghost goal = tags_of(before) + tagged(name, features).take((j + 1) as int);
                    let ghost prior = tags_of(before) + tagged(name, features).take(j as int);
                    assert(tagged(name, features).len() == features.len());
                    assert(tagged(name, features).take(j as int).len() == j);
                    assert(tagged(name, features).take((j + 1) as int).len() == j + 1);
                    assert(tags_of(held).len() == held.len());
                    assert(prior.len() == tags_of(before).len() + j);
                    assert(tags_of(geoms@).len() == goal.len());
                    assert forall|k: int| 0 <= k < goal.len() implies tags_of(geoms@)[k]
                        == goal[k] by {
                        if k < held.len() {
                            assert(geoms@[k] == held[k]);
                            assert(tags_of(held)[k] == prior[k]);
                        } else {
                            assert(geoms@[k]@.layer == Some(name));
                            assert(tagged(name, features)[j as int] == (
                                Some(name),
                                features[j as int].0->Some_0,
                                features[j as int].1,
                            ));
                        }
                    }
                    assert(tags_of(geoms@) =~= goal);
                    assert forall|k: int| 0 <= k < geoms@.len() implies (
                    #[trigger] geoms@[k])@.lines is None && geoms@[k]@.areas is None
                        && geoms@[k]@.center is None by {
                        if k < held.len() {
                            assert(geoms@[k] == held[k]);
                        }
                    }
                    j += 1;
                }
                assert(tagged(name, features).take(items@.len() as int) =~= tagged(name, features));
            },
        }
        i += 1;
    }
    Ok(geoms)
}

/// The same features with their geometries in another projection, as
/// `project` gives each, in order and with nothing worked out yet.
pub fn reproject_all<P: Fn(&Geometry) -> Geometry>(geoms: &Vec<RenderedGeometry>, project: &P) -> (r:
    Vec<RenderedGeometry>)
    requires
        forall|g: &Geometry| project.requires((g,)),
    ensures
        r@.len() == geoms@.len(),
        forall|i: int|
            0 <= i < geoms@.len() ==> (#[trigger] r@[i])@.layer == geoms@[i]@.layer && r@[i]@.props@
                == geoms@[i]@.props@ && projected_by(
                *project,
                geoms@[i]@.geometry,
                r@[i]@.geometry,
            ),
        all_fresh(r@),
{
    let mut out: Vec<RenderedGeometry> = Vec::new();
    let mut i: usize = 0;
    while i < geoms.len()
        invariant
            i <= geoms.len(),
            out@.len() == i,
            forall|g: &Geometry| project.requires((g,)),
            forall|k: int|
                0 <= k < i ==> (#[trigger] out@[k])@.layer == geoms@[k]@.layer && out@[k]@.props@
                    == geoms@[k]@.props@ && projected_by(
                    *project,
                    geoms@[k]@.geometry,
                    out@[k]@.geometry,
                ),
            all_fresh(out@),
        decreases geoms.len() - i,
    {
        let ghost held = out@;
        out.push(geoms[i].reprojected(project));
        assert forall|k: int| 0 <= k < i + 1 implies (#[trigger] out@[k])@.layer
            == geoms@[k]@.layer && out@[k]@.props@ == geoms@[k]@.props@ && projected_by(
            *project,
            geoms@[k]@.geometry,
            out@[k]@.geometry,
        ) by {
            if k < i {
                assert(out@[k] == held[k]);
            }
        }
        assert forall|k: int| 0 <= k < out@.len() implies (#[trigger] out@[k])@.lines is None
            && out@[k]@.areas is None && out@[k]@.center is None by {
            if k < i {
                assert(out@[k] == held[k]);
            }
        }
        i += 1;
    }
    out
}

} // verus!
