//! The scalar bound functions and the generated spatial-index SQL, exercised
//! through a real SQLite connection: the host-side glue below registers the
//! five functions over the crate's codec and bounds engine, exactly as an
//! embedding application does.

use geo_traits::GeometryType as GeoType;
use geo_traits::{
    CoordTrait, GeometryCollectionTrait, GeometryTrait, LineStringTrait, MultiLineStringTrait,
    MultiPointTrait, MultiPolygonTrait, PointTrait, PolygonTrait,
};
use geo_types::{Geometry as GtGeometry, GeometryCollection, LineString, MultiLineString, MultiPoint, Point};
use rusqlite::functions::FunctionFlags;
use rusqlite::types::ValueRef;
use rusqlite::Connection;

use rusqlite_gpkg::bounds::{st_is_empty, st_max_x, st_max_y, st_min_x, st_min_y, Coord, Geometry};
use rusqlite_gpkg::codec::{decode, encode};
use rusqlite_gpkg::ogc_sql::{
    gpkg_rtree_create_sql, gpkg_rtree_load_sql, gpkg_rtree_triggers_sql,
};

fn coord_of<C: CoordTrait<T = f64>>(c: &C) -> Coord {
    let (x, y) = c.x_y();
    Coord { x: x.to_bits(), y: y.to_bits() }
}

fn ring_coords<L: LineStringTrait<T = f64>>(line: &L) -> Vec<Coord> {
    line.coords().map(|c| coord_of(&c)).collect()
}

fn polygon_rings<P: PolygonTrait<T = f64>>(poly: &P) -> Vec<Vec<Coord>> {
    let mut rings = Vec::new();
    if let Some(exterior) = poly.exterior() {
        rings.push(ring_coords(&exterior));
    }
    for interior in poly.interiors() {
        rings.push(ring_coords(&interior));
    }
    rings
}

/// Reads a parsed well-known-binary value into the crate's geometry model.
fn to_model<G: GeometryTrait<T = f64>>(geom: &G) -> Geometry {
    match geom.as_type() {
        GeoType::Point(point) => Geometry::Point(point.coord().map(|c| coord_of(&c))),
        GeoType::LineString(line) => Geometry::LineString(ring_coords(line)),
        GeoType::Polygon(poly) => Geometry::Polygon(polygon_rings(poly)),
        GeoType::MultiPoint(multi) => {
            Geometry::MultiPoint(multi.points().map(|p| p.coord().map(|c| coord_of(&c))).collect())
        },
        GeoType::MultiLineString(multi) => Geometry::MultiLineString(
            multi.line_strings().map(|l| ring_coords(&l)).collect(),
        ),
        GeoType::MultiPolygon(multi) => {
            Geometry::MultiPolygon(multi.polygons().map(|p| polygon_rings(&p)).collect())
        },
        GeoType::GeometryCollection(collection) => Geometry::GeometryCollection(
            collection.geometries().map(|g| to_model(&g)).collect(),
        ),
        _ => panic!("no GeoPackage geometry type should reach here"),
    }
}

fn user_error(message: String) -> rusqlite::Error {
    rusqlite::Error::UserFunctionError(message.into())
}

fn model_from_blob(blob: &[u8]) -> rusqlite::Result<Geometry> {
    let (_srs_id, payload) =
        decode(&blob.to_vec()).map_err(|e| user_error(format!("{e:?}")))?;
    let wkb = wkb::reader::Wkb::try_new(&payload).map_err(|e| user_error(format!("{e}")))?;
    Ok(to_model(&wkb))
}

fn register_component(
    conn: &Connection,
    name: &'static str,
    f: fn(Option<&Geometry>) -> Option<u64>,
) -> rusqlite::Result<()> {
    conn.create_scalar_function(name, 1, FunctionFlags::SQLITE_DETERMINISTIC, move |ctx| {
        match ctx.get_raw(0) {
            ValueRef::Null => Ok(None),
            ValueRef::Blob(blob) => {
                let g = model_from_blob(blob)?;
                Ok(f(Some(&g)).map(f64::from_bits))
            },
            _ => Err(rusqlite::Error::InvalidFunctionParameterType(
                0,
                rusqlite::types::Type::Blob,
            )),
        }
    })
}

fn register_spatial_functions(conn: &Connection) -> rusqlite::Result<()> {
    register_component(conn, "ST_MinX", st_min_x)?;
    register_component(conn, "ST_MaxX", st_max_x)?;
    register_component(conn, "ST_MinY", st_min_y)?;
    register_component(conn, "ST_MaxY", st_max_y)?;
    conn.create_scalar_function(
        "ST_IsEmpty",
        1,
        FunctionFlags::SQLITE_DETERMINISTIC,
        |ctx| match ctx.get_raw(0) {
            ValueRef::Null => Ok(None),
            ValueRef::Blob(blob) => {
                let g = model_from_blob(blob)?;
                Ok(st_is_empty(Some(&g)))
            },
            _ => Err(rusqlite::Error::InvalidFunctionParameterType(
                0,
                rusqlite::types::Type::Blob,
            )),
        },
    )
}

fn gpkg_blob_from_geometry<G: GeometryTrait<T = f64>>(geometry: G) -> Vec<u8> {
    let mut buf = Vec::new();
    wkb::writer::write_geometry(&mut buf, &geometry, &Default::default()).expect("write wkb");
    encode(&buf, 4326)
}

#[test]
fn st_bounds_for_point() {
    let conn = Connection::open_in_memory().expect("open");
    register_spatial_functions(&conn).expect("register");

    let point = Point::new(1.5, -2.0);
    let blob = gpkg_blob_from_geometry(point);

    let (minx, maxx, miny, maxy, empty): (f64, f64, f64, f64, i64) = conn
        .query_row(
            "SELECT ST_MinX(?1), ST_MaxX(?1), ST_MinY(?1), ST_MaxY(?1), ST_IsEmpty(?1)",
            [&blob],
            |row| {
                Ok((
                    row.get(0)?,
                    row.get(1)?,
                    row.get(2)?,
                    row.get(3)?,
                    row.get(4)?,
                ))
            },
        )
        .expect("query");

    assert_eq!(minx, 1.5);
    assert_eq!(maxx, 1.5);
    assert_eq!(miny, -2.0);
    assert_eq!(maxy, -2.0);
    assert_eq!(empty, 0);
}

#[test]
fn st_is_empty_for_empty_linestring() {
    let conn = Connection::open_in_memory().expect("open");
    register_spatial_functions(&conn).expect("register");

    let line: LineString<f64> = LineString::new(Vec::new());
    let blob = gpkg_blob_from_geometry(line);

    let (minx, empty): (Option<f64>, i64) = conn
        .query_row("SELECT ST_MinX(?1), ST_IsEmpty(?1)", [&blob], |row| {
            Ok((row.get(0)?, row.get(1)?))
        })
        .expect("query");

    assert!(minx.is_none());
    assert_eq!(empty, 1);
}

#[test]
fn st_bounds_for_multipoint() {
    let conn = Connection::open_in_memory().expect("open");
    register_spatial_functions(&conn).expect("register");

    let mp = MultiPoint::from(vec![Point::new(1.0, 5.0), Point::new(-2.0, 3.0)]);
    let blob = gpkg_blob_from_geometry(mp);

    let (minx, maxx, miny, maxy): (f64, f64, f64, f64) = conn
        .query_row(
            "SELECT ST_MinX(?1), ST_MaxX(?1), ST_MinY(?1), ST_MaxY(?1)",
            [&blob],
            |row| Ok((row.get(0)?, row.get(1)?, row.get(2)?, row.get(3)?)),
        )
        .expect("query");

    assert_eq!(minx, -2.0);
    assert_eq!(maxx, 1.0);
    assert_eq!(miny, 3.0);
    assert_eq!(maxy, 5.0);
}

#[test]
fn st_bounds_for_multilinestring() {
    let conn = Connection::open_in_memory().expect("open");
    register_spatial_functions(&conn).expect("register");

    let line_a = LineString::from(vec![(0.0, 0.0), (2.0, 1.0)]);
    let line_b = LineString::from(vec![(-3.0, 4.0), (-1.0, 2.0)]);
    let mls = MultiLineString(vec![line_a, line_b]);
    let blob = gpkg_blob_from_geometry(mls);

    let (minx, maxx, miny, maxy): (f64, f64, f64, f64) = conn
        .query_row(
            "SELECT ST_MinX(?1), ST_MaxX(?1), ST_MinY(?1), ST_MaxY(?1)",
            [&blob],
            |row| Ok((row.get(0)?, row.get(1)?, row.get(2)?, row.get(3)?)),
        )
        .expect("query");

    assert_eq!(minx, -3.0);
    assert_eq!(maxx, 2.0);
    assert_eq!(miny, 0.0);
    assert_eq!(maxy, 4.0);
}

#[test]
fn st_bounds_for_geometry_collection() {
    let conn = Connection::open_in_memory().expect("open");
    register_spatial_functions(&conn).expect("register");

    let point = GtGeometry::Point(Point::new(5.0, -1.0));
    let line = GtGeometry::LineString(LineString::from(vec![(-2.0, 2.0), (1.0, 3.0)]));
    let collection = GeometryCollection::from(vec![point, line]);
    let blob = gpkg_blob_from_geometry(collection);

    let (minx, maxx, miny, maxy): (f64, f64, f64, f64) = conn
        .query_row(
            "SELECT ST_MinX(?1), ST_MaxX(?1), ST_MinY(?1), ST_MaxY(?1)",
            [&blob],
            |row| Ok((row.get(0)?, row.get(1)?, row.get(2)?, row.get(3)?)),
        )
        .expect("query");

    assert_eq!(minx, -2.0);
    assert_eq!(maxx, 5.0);
    assert_eq!(miny, -1.0);
    assert_eq!(maxy, 3.0);
}

#[test]
fn rtree_updates_on_insert_update_delete() {
    let conn = Connection::open_in_memory().expect("open");
    register_spatial_functions(&conn).expect("register");

    conn.execute_batch(
        "CREATE TABLE rtree_points (fid INTEGER PRIMARY KEY AUTOINCREMENT, \"geom\" BLOB)",
    )
    .expect("create base table");
    conn.execute_batch(&gpkg_rtree_create_sql("rtree_points", "geom"))
        .expect("create index table");
    conn.execute_batch(&gpkg_rtree_load_sql("rtree_points", "geom", "fid"))
        .expect("bulk load");
    conn.execute_batch(&gpkg_rtree_triggers_sql("rtree_points", "geom", "fid"))
        .expect("create triggers");

    let blob_a = gpkg_blob_from_geometry(Point::new(1.5, -2.0));
    conn.execute("INSERT INTO rtree_points (geom) VALUES (?1)", [&blob_a])
        .expect("insert");
    let id = conn.last_insert_rowid();

    let (minx, maxx, miny, maxy): (f64, f64, f64, f64) = conn
        .query_row(
            "SELECT minx, maxx, miny, maxy FROM rtree_rtree_points_geom WHERE id = ?1",
            [id],
            |row| Ok((row.get(0)?, row.get(1)?, row.get(2)?, row.get(3)?)),
        )
        .expect("index row after insert");
    assert_eq!(minx, 1.5);
    assert_eq!(maxx, 1.5);
    assert_eq!(miny, -2.0);
    assert_eq!(maxy, -2.0);

    let blob_b = gpkg_blob_from_geometry(Point::new(-4.0, 6.25));
    conn.execute(
        "UPDATE rtree_points SET geom = ?1 WHERE fid = ?2",
        rusqlite::params_from_iter([
            rusqlite::types::Value::Blob(blob_b),
            rusqlite::types::Value::Integer(id),
        ]),
    )
    .expect("update");
    let (minx, maxx, miny, maxy): (f64, f64, f64, f64) = conn
        .query_row(
            "SELECT minx, maxx, miny, maxy FROM rtree_rtree_points_geom WHERE id = ?1",
            [id],
            |row| Ok((row.get(0)?, row.get(1)?, row.get(2)?, row.get(3)?)),
        )
        .expect("index row after update");
    assert_eq!(minx, -4.0);
    assert_eq!(maxx, -4.0);
    assert_eq!(miny, 6.25);
    assert_eq!(maxy, 6.25);

    conn.execute("DELETE FROM rtree_points", [])
        .expect("truncate");
    let count: i64 = conn
        .query_row("SELECT COUNT(*) FROM rtree_rtree_points_geom", [], |row| row.get(0))
        .expect("count");
    assert_eq!(count, 0);
}
