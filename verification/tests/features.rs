use geello::features::{
    feature_bounds, get_all_render_rect, get_geom_from_geojson, get_render_rect,
    get_rendered_geometry, reproject_all, union_rect, Extent, Feature, GeoJson,
};
use geello::geometry::{Coord, Geometry, LineString, Rect};
use geello::magic_value::{PropValue, Properties};
use geello::render_option::RenderRegion;
use geello::renderer::geometry_renderer::RenderedGeometryFilter;
use geo::BoundingRect;

fn c(x: f64, y: f64) -> Coord {
    Coord::new(x.to_bits(), y.to_bits())
}

fn chain(points: &[(f64, f64)]) -> Geometry {
    Geometry::LineString(LineString::new(points.iter().map(|p| c(p.0, p.1)).collect()))
}

fn named(name: &str) -> Properties {
    let mut props = Properties::new();
    props.insert("name".to_string(), PropValue::String(name.to_string()));
    props
}

fn feature(geometry: Option<Geometry>, name: &str) -> Feature {
    Feature { geometry, properties: named(name) }
}

fn bounds(geometry: &Geometry) -> Option<Rect> {
    let coords: Vec<(f64, f64)> = match geometry {
        Geometry::Point(p) => vec![(f64::from_bits(p.x), f64::from_bits(p.y))],
        Geometry::LineString(l) => {
            l.0.iter().map(|p| (f64::from_bits(p.x), f64::from_bits(p.y))).collect()
        }
        _ => vec![],
    };
    geo::LineString::from(coords)
        .bounding_rect()
        .map(|r| Rect { min: c(r.min().x, r.min().y), max: c(r.max().x, r.max().y) })
}

#[test]
fn a_bare_geometry_is_one_geometry_without_properties() {
    let doc = GeoJson::Geometry(Geometry::Point(c(1.0, 2.0)));
    assert_eq!(
        get_geom_from_geojson(&doc),
        Ok(vec![(Geometry::Point(c(1.0, 2.0)), Properties::new())])
    );
}

#[test]
fn a_feature_gives_its_geometry_with_its_properties() {
    let doc = GeoJson::Feature(feature(Some(Geometry::Point(c(1.0, 2.0))), "A"));
    assert_eq!(get_geom_from_geojson(&doc), Ok(vec![(Geometry::Point(c(1.0, 2.0)), named("A"))]));
}

#[test]
fn a_feature_without_geometry_is_a_failure() {
    let doc = GeoJson::Feature(feature(None, "A"));
    assert_eq!(get_geom_from_geojson(&doc), Err("only feature has no geometry".to_string()));
}

#[test]
fn a_collection_gives_its_geometries_in_order() {
    let doc = GeoJson::FeatureCollection(vec![
        feature(Some(Geometry::Point(c(1.0, 2.0))), "A"),
        feature(Some(chain(&[(0.0, 0.0), (1.0, 1.0)])), "B"),
    ]);
    assert_eq!(
        get_geom_from_geojson(&doc),
        Ok(vec![
            (Geometry::Point(c(1.0, 2.0)), named("A")),
            (chain(&[(0.0, 0.0), (1.0, 1.0)]), named("B")),
        ])
    );
    assert_eq!(get_geom_from_geojson(&GeoJson::FeatureCollection(vec![])), Ok(vec![]));
}

#[test]
fn the_first_feature_without_geometry_is_told_by_its_index() {
    let doc = GeoJson::FeatureCollection(vec![
        feature(Some(Geometry::Point(c(1.0, 2.0))), "A"),
        feature(None, "B"),
        feature(Some(Geometry::Point(c(1.0, 2.0))), "C"),
        feature(None, "D"),
    ]);
    assert_eq!(
        get_geom_from_geojson(&doc),
        Err("feature (index:1) has no geometry".to_string())
    );
}

#[test]
fn an_extent_grows_to_hold_rects() {
    let mut extent = Extent::new();
    assert_eq!(extent.rect(), None);
    extent.grow(&None);
    assert_eq!(extent.rect(), None);
    extent.grow(&Some(Rect::new(c(0.0, 0.0), c(1.0, 1.0))));
    extent.grow(&Some(Rect::new(c(-2.0, 0.5), c(0.5, 3.0))));
    assert_eq!(extent.rect(), Some(Rect { min: c(-2.0, 0.0), max: c(1.0, 3.0) }));
}

#[test]
fn the_union_skips_what_has_no_rect() {
    assert_eq!(union_rect(&vec![]), None);
    assert_eq!(union_rect(&vec![None, None]), None);
    assert_eq!(
        union_rect(&vec![
            None,
            Some(Rect::new(c(1.0, 1.0), c(2.0, 2.0))),
            None,
            Some(Rect::new(c(1.5, -1.0), c(5.0, 1.5))),
        ]),
        Some(Rect { min: c(1.0, -1.0), max: c(5.0, 2.0) })
    );
}

#[test]
fn the_union_of_one_rect_is_the_rect() {
    let rect = Rect::new(c(-1e300, -5.0), c(1e300, 7.0));
    assert_eq!(union_rect(&vec![Some(rect)]), Some(rect));
}

#[test]
fn the_bounds_of_features_are_asked_one_for_one() {
    let doc = GeoJson::FeatureCollection(vec![
        feature(Some(Geometry::Point(c(1.0, 2.0))), "A"),
        feature(None, "B"),
        feature(Some(chain(&[(0.0, 0.0), (3.0, 1.0)])), "C"),
    ]);
    assert_eq!(
        feature_bounds(&doc, &bounds),
        vec![
            Some(Rect { min: c(1.0, 2.0), max: c(1.0, 2.0) }),
            None,
            Some(Rect { min: c(0.0, 0.0), max: c(3.0, 1.0) }),
        ]
    );
}

#[test]
fn the_rect_of_a_document_holds_all_its_features() {
    let doc = GeoJson::FeatureCollection(vec![
        feature(Some(Geometry::Point(c(1.0, 2.0))), "A"),
        feature(None, "B"),
        feature(Some(chain(&[(0.0, 0.0), (3.0, 1.0)])), "C"),
    ]);
    assert_eq!(
        get_render_rect(&doc, &RenderRegion::All, &bounds),
        Some(Rect { min: c(0.0, 0.0), max: c(3.0, 2.0) })
    );
    assert_eq!(get_render_rect(&GeoJson::Feature(feature(None, "A")), &RenderRegion::All, &bounds), None);
    assert_eq!(
        get_render_rect(&GeoJson::FeatureCollection(vec![]), &RenderRegion::All, &bounds),
        None
    );
}

#[test]
fn only_for_all_is_a_rect_worked_out() {
    let doc = GeoJson::Geometry(Geometry::Point(c(1.0, 2.0)));
    let tile = RenderRegion::TileIndex(0, 0, 0);
    assert_eq!(get_render_rect(&doc, &tile, &bounds), None);
    assert_eq!(get_all_render_rect(&vec![("a".to_string(), doc)], &tile, &bounds), None);
}

#[test]
fn the_rect_of_all_documents_holds_them_all() {
    let docs = vec![
        ("a".to_string(), GeoJson::Geometry(Geometry::Point(c(1.0, 2.0)))),
        ("b".to_string(), GeoJson::FeatureCollection(vec![])),
        ("c".to_string(), GeoJson::Geometry(chain(&[(-4.0, 0.0), (0.0, 9.0)]))),
    ];
    assert_eq!(
        get_all_render_rect(&docs, &RenderRegion::All, &bounds),
        Some(Rect { min: c(-4.0, 0.0), max: c(1.0, 9.0) })
    );
    assert_eq!(get_all_render_rect(&vec![], &RenderRegion::All, &bounds), None);
}

#[test]
fn geometries_are_tagged_with_their_document_and_properties() {
    let docs = vec![
        (
            "roads".to_string(),
            GeoJson::FeatureCollection(vec![
                feature(Some(Geometry::Point(c(1.0, 2.0))), "A"),
                feature(Some(Geometry::Point(c(3.0, 4.0))), "B"),
            ]),
        ),
        ("rivers".to_string(), GeoJson::Geometry(Geometry::Point(c(5.0, 6.0)))),
    ];
    let geoms = get_rendered_geometry(&docs).unwrap();
    assert_eq!(geoms.len(), 3);
    assert_eq!(geoms[1].geometry(), &Geometry::Point(c(3.0, 4.0)));
    assert_eq!(geoms[1].props(), &named("B"));
    assert_eq!(geoms[2].props(), &Properties::new());
    let roads = RenderedGeometryFilter::Layer("roads".to_string());
    assert!(geoms[0].fit_filter(&roads));
    assert!(geoms[1].fit_filter(&roads));
    assert!(!geoms[2].fit_filter(&roads));
}

#[test]
fn a_document_without_geometry_ends_the_tagging() {
    let docs = vec![
        ("a".to_string(), GeoJson::Geometry(Geometry::Point(c(1.0, 2.0)))),
        ("b".to_string(), GeoJson::FeatureCollection(vec![feature(None, "X")])),
    ];
    assert_eq!(
        get_rendered_geometry(&docs).err(),
        Some("feature (index:0) has no geometry".to_string())
    );
    assert_eq!(get_rendered_geometry(&vec![]).map(|g| g.len()), Ok(0));
}

#[test]
fn the_failure_is_that_of_the_first_document_that_lacks_a_geometry() {
    let docs = vec![
        ("a".to_string(), GeoJson::Geometry(Geometry::Point(c(1.0, 2.0)))),
        (
            "b".to_string(),
            GeoJson::FeatureCollection(vec![
                feature(Some(Geometry::Point(c(1.0, 2.0))), "X"),
                feature(Some(Geometry::Point(c(1.0, 2.0))), "Y"),
                feature(None, "Z"),
                feature(None, "W"),
            ]),
        ),
        ("c".to_string(), GeoJson::Feature(feature(None, "V"))),
    ];
    assert_eq!(
        get_rendered_geometry(&docs).err(),
        Some("feature (index:2) has no geometry".to_string())
    );
    assert_eq!(get_geom_from_geojson(&docs[1].1).err(), get_rendered_geometry(&docs).err());
    let single = vec![
        ("a".to_string(), GeoJson::Geometry(Geometry::Point(c(1.0, 2.0)))),
        ("c".to_string(), GeoJson::Feature(feature(None, "V"))),
        ("b".to_string(), GeoJson::FeatureCollection(vec![feature(None, "Z")])),
    ];
    assert_eq!(
        get_rendered_geometry(&single).err(),
        Some("only feature has no geometry".to_string())
    );
}

#[test]
fn features_are_put_into_another_projection_one_by_one() {
    let docs = vec![(
        "roads".to_string(),
        GeoJson::FeatureCollection(vec![
            feature(Some(Geometry::Point(c(1.0, 2.0))), "A"),
            feature(Some(Geometry::Point(c(3.0, 4.0))), "B"),
        ]),
    )];
    let mut geoms = get_rendered_geometry(&docs).unwrap();
    geoms[0].lines();
    let swapped = reproject_all(&geoms, &|g: &Geometry| match g {
        Geometry::Point(p) => Geometry::Point(Coord::new(p.y, p.x)),
        other => other.clone(),
    });
    assert_eq!(swapped.len(), 2);
    assert_eq!(swapped[0].geometry(), &Geometry::Point(c(2.0, 1.0)));
    assert_eq!(swapped[1].geometry(), &Geometry::Point(c(4.0, 3.0)));
    assert_eq!(swapped[0].props(), &named("A"));
    assert_eq!(swapped[1].props(), &named("B"));
    assert!(swapped[0].fit_filter(&RenderedGeometryFilter::Layer("roads".to_string())));
    assert!(!swapped[0].fit_filter(&RenderedGeometryFilter::Layer("rivers".to_string())));
    assert_eq!(geoms[0].geometry(), &Geometry::Point(c(1.0, 2.0)));
    let one = geoms[1].reprojected(&|_: &Geometry| Geometry::Point(c(9.0, 9.0)));
    assert_eq!(one.geometry(), &Geometry::Point(c(9.0, 9.0)));
    assert_eq!(one.props(), &named("B"));
}
