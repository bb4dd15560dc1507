use rusqlite_gpkg::bounds::{
    bounds_from_geometry, coord_max, coord_min, is_empty, st_is_empty, st_max_x, st_max_y,
    st_min_x, st_min_y, BoundingBox, Coord, Geometry,
};

fn coord(x: f64, y: f64) -> Coord {
    Coord { x: x.to_bits(), y: y.to_bits() }
}

fn floats(b: &BoundingBox) -> (f64, f64, f64, f64) {
    (
        f64::from_bits(b.minx),
        f64::from_bits(b.maxx),
        f64::from_bits(b.miny),
        f64::from_bits(b.maxy),
    )
}

#[test]
fn point_has_degenerate_bounds() {
    let g = Geometry::Point(Some(coord(1.5, -2.0)));
    let b = bounds_from_geometry(&g).expect("a point is not empty");
    assert_eq!(floats(&b), (1.5, 1.5, -2.0, -2.0));
    assert!(!is_empty(&g));
}

#[test]
fn empty_linestring_reduces_to_empty() {
    let g = Geometry::LineString(vec![]);
    assert!(bounds_from_geometry(&g).is_none());
    assert!(is_empty(&g));
    assert_eq!(st_is_empty(Some(&g)), Some(1));
    assert_eq!(st_min_x(Some(&g)), None);
}

#[test]
fn multipoint_bounds_cover_both_points() {
    let g = Geometry::MultiPoint(vec![Some(coord(1.0, 5.0)), Some(coord(-2.0, 3.0))]);
    let b = bounds_from_geometry(&g).expect("bounds");
    assert_eq!(floats(&b), (-2.0, 1.0, 3.0, 5.0));
}

#[test]
fn geometry_collection_merges_member_bounds() {
    let g = Geometry::GeometryCollection(vec![
        Geometry::Point(Some(coord(5.0, -1.0))),
        Geometry::LineString(vec![coord(-2.0, 2.0), coord(1.0, 3.0)]),
    ]);
    let b = bounds_from_geometry(&g).expect("bounds");
    assert_eq!(floats(&b), (-2.0, 5.0, -1.0, 3.0));
}

#[test]
fn deeply_nested_collections_reduce() {
    let mut g = Geometry::Point(Some(coord(4.0, -4.0)));
    for _ in 0..40 {
        g = Geometry::GeometryCollection(vec![g]);
    }
    let outer = Geometry::GeometryCollection(vec![
        g,
        Geometry::GeometryCollection(vec![]),
        Geometry::Point(Some(coord(-1.0, 9.0))),
    ]);
    let b = bounds_from_geometry(&outer).expect("bounds");
    assert_eq!(floats(&b), (-1.0, 4.0, -4.0, 9.0));
}

#[test]
fn polygon_folds_exterior_and_interior_rings() {
    let g = Geometry::Polygon(vec![
        vec![coord(0.0, 0.0), coord(3.0, 0.0), coord(3.0, 3.0), coord(0.0, 3.0)],
        vec![coord(1.0, 1.0), coord(2.0, 2.0)],
    ]);
    let b = bounds_from_geometry(&g).expect("bounds");
    assert_eq!(floats(&b), (0.0, 3.0, 0.0, 3.0));
}

#[test]
fn multilinestring_and_multipolygon_fold_every_member() {
    let mls = Geometry::MultiLineString(vec![
        vec![coord(0.0, 0.0), coord(2.0, 1.0)],
        vec![coord(-3.0, 4.0), coord(-1.0, 2.0)],
    ]);
    let b = bounds_from_geometry(&mls).expect("bounds");
    assert_eq!(floats(&b), (-3.0, 2.0, 0.0, 4.0));

    let mpoly = Geometry::MultiPolygon(vec![
        vec![vec![coord(0.0, 0.0), coord(3.0, 3.0)]],
        vec![vec![coord(10.0, 10.0), coord(12.0, 12.0)]],
    ]);
    let b = bounds_from_geometry(&mpoly).expect("bounds");
    assert_eq!(floats(&b), (0.0, 12.0, 0.0, 12.0));
}

#[test]
fn empty_point_and_empty_members_are_skipped() {
    assert!(is_empty(&Geometry::Point(None)));
    let g = Geometry::MultiPoint(vec![None, Some(coord(7.0, 8.0)), None]);
    let b = bounds_from_geometry(&g).expect("bounds");
    assert_eq!(floats(&b), (7.0, 7.0, 8.0, 8.0));
}

#[test]
fn scalar_functions_are_nullable_in_and_out() {
    assert_eq!(st_min_x(None), None);
    assert_eq!(st_max_x(None), None);
    assert_eq!(st_min_y(None), None);
    assert_eq!(st_max_y(None), None);
    assert_eq!(st_is_empty(None), None);

    let g = Geometry::Point(Some(coord(1.5, -2.0)));
    assert_eq!(st_min_x(Some(&g)).map(f64::from_bits), Some(1.5));
    assert_eq!(st_max_x(Some(&g)).map(f64::from_bits), Some(1.5));
    assert_eq!(st_min_y(Some(&g)).map(f64::from_bits), Some(-2.0));
    assert_eq!(st_max_y(Some(&g)).map(f64::from_bits), Some(-2.0));
    assert_eq!(st_is_empty(Some(&g)), Some(0));
}

#[test]
fn coordinate_order_matches_float_order() {
    let cases = [
        (-4.0f64, 6.25f64),
        (0.0, -0.0),
        (1.5, 1.5),
        (f64::NEG_INFINITY, f64::INFINITY),
        (-1e300, 1e-300),
    ];
    for (a, b) in cases {
        let (lo, hi) = if a.total_cmp(&b).is_le() { (a, b) } else { (b, a) };
        let min = f64::from_bits(coord_min(a.to_bits(), b.to_bits()));
        let max = f64::from_bits(coord_max(a.to_bits(), b.to_bits()));
        assert_eq!(min.total_cmp(&lo), std::cmp::Ordering::Equal);
        assert_eq!(max.total_cmp(&hi), std::cmp::Ordering::Equal);
    }
}
