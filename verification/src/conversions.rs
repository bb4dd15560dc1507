//! Bidirectional mappings between the crate's enums and their GeoPackage
//! metadata encodings: geometry type names, the (z, m) dimension flag pair,
//! and SQLite column type names.

use vstd::prelude::*;
use vstd::string::StrSliceExecFns;

use crate::error::GpkgError;
use crate::types::{ColumnType, Dimension, GeometryType};

verus! {

/// The code of `c` with ASCII lower-case letters folded to upper case.
pub open spec fn upper_code(c: char) -> u32 {
    if 97 <= c as u32 && c as u32 <= 122 {
        (c as u32 - 32) as u32
    } else {
        c as u32
    }
}

/// Character sequences equal up to ASCII case.
pub open spec fn seq_eq_ignore_ascii_case(a: Seq<char>, b: Seq<char>) -> bool {
    &&& a.len() == b.len()
    &&& forall|j: int| 0 <= j < a.len() ==> upper_code(a[j]) == upper_code(b[j])
}

/// Compares two strings for equality up to ASCII case.
pub fn eq_ignore_ascii_case(a: &str, b: &str) -> (r: bool)
    ensures
        r == seq_eq_ignore_ascii_case(a@, b@),
{
    let alen = a.unicode_len();
    let blen = b.unicode_len();
    if alen != blen {
        return false;
    }
    let mut i: usize = 0;
    while i < alen
        invariant
            alen == a@.len(),
            blen == b@.len(),
            alen == blen,
            i <= alen,
            forall|j: int| 0 <= j < i ==> upper_code(a@[j]) == upper_code(b@[j]),
        decreases alen - i,
    {
        let ca = a.get_char(i) as u32;
        let cb = b.get_char(i) as u32;
        let ua = if 97 <= ca && ca <= 122 {
            ca - 32
        } else {
            ca
        };
        let ub = if 97 <= cb && cb <= 122 {
            cb - 32
        } else {
            cb
        };
        if ua != ub {
            assert(upper_code(a@[i as int]) != upper_code(b@[i as int]));
            return false;
        }
        i = i + 1;
    }
    true
}

/// The canonical metadata name of each geometry type.
pub open spec fn spec_geometry_type_str(t: GeometryType) -> Seq<char> {
    match t {
        GeometryType::GeometryCollection => "GEOMETRYCOLLECTION"@,
        GeometryType::Point => "POINT"@,
        GeometryType::LineString => "LINESTRING"@,
        GeometryType::Polygon => "POLYGON"@,
        GeometryType::MultiPoint => "MULTIPOINT"@,
        GeometryType::MultiLineString => "MULTILINESTRING"@,
        GeometryType::MultiPolygon => "MULTIPOLYGON"@,
    }
}

/// Returns the canonical metadata name of a geometry type.
pub fn geometry_type_to_str(geometry_type: GeometryType) -> (r: &'static str)
    ensures
        r@ == spec_geometry_type_str(geometry_type),
{
    match geometry_type {
        GeometryType::GeometryCollection => "GEOMETRYCOLLECTION",
        GeometryType::Point => "POINT",
        GeometryType::LineString => "LINESTRING",
        GeometryType::Polygon => "POLYGON",
        GeometryType::MultiPoint => "MULTIPOINT",
        GeometryType::MultiLineString => "MULTILINESTRING",
        GeometryType::MultiPolygon => "MULTIPOLYGON",
    }
}

/// The geometry type a metadata name maps to, case-insensitively.
/// The generic name `GEOMETRY` maps to the collection type.
pub open spec fn spec_geometry_type_from(s: Seq<char>) -> Option<GeometryType> {
    if seq_eq_ignore_ascii_case(s, "GEOMETRY"@) || seq_eq_ignore_ascii_case(
        s,
        "GEOMETRYCOLLECTION"@,
    ) {
        Some(GeometryType::GeometryCollection)
    } else if seq_eq_ignore_ascii_case(s, "POINT"@) {
        Some(GeometryType::Point)
    } else if seq_eq_ignore_ascii_case(s, "LINESTRING"@) {
        Some(GeometryType::LineString)
    } else if seq_eq_ignore_ascii_case(s, "POLYGON"@) {
        Some(GeometryType::Polygon)
    } else if seq_eq_ignore_ascii_case(s, "MULTIPOINT"@) {
        Some(GeometryType::MultiPoint)
    } else if seq_eq_ignore_ascii_case(s, "MULTILINESTRING"@) {
        Some(GeometryType::MultiLineString)
    } else if seq_eq_ignore_ascii_case(s, "MULTIPOLYGON"@) {
        Some(GeometryType::MultiPolygon)
    } else {
        None
    }
}

/// Parses a geometry type metadata name, case-insensitively.
pub fn geometry_type_from_str(geometry_type_str: &str) -> (r: Result<GeometryType, GpkgError>)
    ensures
        match spec_geometry_type_from(geometry_type_str@) {
            Some(t) => r matches Ok(rt) && rt == t,
            None => r matches Err(GpkgError::UnsupportedGeometryType(msg)) && msg@
                == geometry_type_str@,
        },
{
    let s = geometry_type_str;
    if eq_ignore_ascii_case(s, "GEOMETRY") || eq_ignore_ascii_case(s, "GEOMETRYCOLLECTION") {
        Ok(GeometryType::GeometryCollection)
    } else if eq_ignore_ascii_case(s, "POINT") {
        Ok(GeometryType::Point)
    } else if eq_ignore_ascii_case(s, "LINESTRING") {
        Ok(GeometryType::LineString)
    } else if eq_ignore_ascii_case(s, "POLYGON") {
        Ok(GeometryType::Polygon)
    } else if eq_ignore_ascii_case(s, "MULTIPOINT") {
        Ok(GeometryType::MultiPoint)
    } else if eq_ignore_ascii_case(s, "MULTILINESTRING") {
        Ok(GeometryType::MultiLineString)
    } else if eq_ignore_ascii_case(s, "MULTIPOLYGON") {
        Ok(GeometryType::MultiPolygon)
    } else {
        Err(GpkgError::UnsupportedGeometryType(s.to_owned()))
    }
}

/// The (z, m) metadata pair of each dimension variant: a total, injective
/// mapping over the four supported variants.
pub open spec fn spec_dimension_zm(d: Dimension) -> (i8, i8) {
    match d {
        Dimension::Xy => (0i8, 0i8),
        Dimension::Xyz => (1i8, 0i8),
        Dimension::Xym => (0i8, 1i8),
        Dimension::Xyzm => (1i8, 1i8),
    }
}

/// Returns the (z, m) metadata pair of a dimension variant.
pub fn dimension_to_zm(dimension: Dimension) -> (r: (i8, i8))
    ensures
        r == spec_dimension_zm(dimension),
{
    match dimension {
        Dimension::Xy => (0, 0),
        Dimension::Xyz => (1, 0),
        Dimension::Xym => (0, 1),
        Dimension::Xyzm => (1, 1),
    }
}

/// The dimension variant of a (z, m) pair; exactly the four pairs over {0, 1}
/// are legal. The value 2 ("optional") is defined by the GeoPackage
/// specification but intentionally unsupported here, so it maps to `None`
/// like every other value.
pub open spec fn spec_dimension_from_zm(z: i8, m: i8) -> Option<Dimension> {
    if z == 0 && m == 0 {
        Some(Dimension::Xy)
    } else if z == 1 && m == 0 {
        Some(Dimension::Xyz)
    } else if z == 0 && m == 1 {
        Some(Dimension::Xym)
    } else if z == 1 && m == 1 {
        Some(Dimension::Xyzm)
    } else {
        None
    }
}

/// Parses a (z, m) metadata pair into a dimension variant, rejecting every
/// pair outside the four legal combinations.
pub fn dimension_from_zm(z: i8, m: i8) -> (r: Result<Dimension, GpkgError>)
    ensures
        match spec_dimension_from_zm(z, m) {
            Some(d) => r matches Ok(rd) && rd == d,
            None => r matches Err(GpkgError::InvalidDimension { z: ez, m: em }) && ez == z && em
                == m,
        },
{
    match (z, m) {
        (0, 0) => Ok(Dimension::Xy),
        (1, 0) => Ok(Dimension::Xyz),
        (0, 1) => Ok(Dimension::Xym),
        (1, 1) => Ok(Dimension::Xyzm),
        _ => Err(GpkgError::InvalidDimension { z, m }),
    }
}

/// The dimension mapping round-trips: encoding any variant as a (z, m) pair
/// and parsing it back yields the same variant, so the mapping is injective
/// and total over the four variants.
pub proof fn lemma_dimension_zm_roundtrip(d: Dimension)
    ensures
        spec_dimension_from_zm(spec_dimension_zm(d).0, spec_dimension_zm(d).1) == Some(d),
{
}

/// The SQLite column type name this crate writes for each column type.
pub open spec fn spec_column_type_str(t: ColumnType) -> Seq<char> {
    match t {
        ColumnType::Integer => "INTEGER"@,
        ColumnType::Double => "DOUBLE"@,
        ColumnType::Varchar => "TEXT"@,
        ColumnType::Boolean => "BOOLEAN"@,
        ColumnType::Geometry => "GEOMETRY"@,
    }
}

/// Returns the SQLite column type name written for a column type.
pub fn column_type_to_str(column_type: ColumnType) -> (r: &'static str)
    ensures
        r@ == spec_column_type_str(column_type),
{
    match column_type {
        ColumnType::Integer => "INTEGER",
        ColumnType::Double => "DOUBLE",
        ColumnType::Varchar => "TEXT",
        ColumnType::Boolean => "BOOLEAN",
        ColumnType::Geometry => "GEOMETRY",
    }
}

/// The column type a declared SQLite type name maps to, case-insensitively,
/// following the GeoPackage SQLite container rules.
pub open spec fn spec_column_type_from(s: Seq<char>) -> Option<ColumnType> {
    if seq_eq_ignore_ascii_case(s, "TINYINT"@) || seq_eq_ignore_ascii_case(s, "SMALLINT"@)
        || seq_eq_ignore_ascii_case(s, "MEDIUMINT"@) || seq_eq_ignore_ascii_case(s, "INT"@)
        || seq_eq_ignore_ascii_case(s, "INTEGER"@) {
        Some(ColumnType::Integer)
    } else if seq_eq_ignore_ascii_case(s, "DOUBLE"@) || seq_eq_ignore_ascii_case(s, "FLOAT"@)
        || seq_eq_ignore_ascii_case(s, "REAL"@) {
        Some(ColumnType::Double)
    } else if seq_eq_ignore_ascii_case(s, "TEXT"@) {
        Some(ColumnType::Varchar)
    } else if seq_eq_ignore_ascii_case(s, "BOOLEAN"@) {
        Some(ColumnType::Boolean)
    } else if seq_eq_ignore_ascii_case(s, "BLOB"@) {
        Some(ColumnType::Geometry)
    } else if spec_geometry_type_from(s) is Some {
        Some(ColumnType::Geometry)
    } else {
        None
    }
}

/// Parses a declared SQLite column type name, case-insensitively.
pub fn column_type_from_str(column_type_str: &str) -> (r: Option<ColumnType>)
    ensures
        r == spec_column_type_from(column_type_str@),
{
    let s = column_type_str;
    if eq_ignore_ascii_case(s, "TINYINT") || eq_ignore_ascii_case(s, "SMALLINT")
        || eq_ignore_ascii_case(s, "MEDIUMINT") || eq_ignore_ascii_case(s, "INT")
        || eq_ignore_ascii_case(s, "INTEGER") {
        Some(ColumnType::Integer)
    } else if eq_ignore_ascii_case(s, "DOUBLE") || eq_ignore_ascii_case(s, "FLOAT")
        || eq_ignore_ascii_case(s, "REAL") {
        Some(ColumnType::Double)
    } else if eq_ignore_ascii_case(s, "TEXT") {
        Some(ColumnType::Varchar)
    } else if eq_ignore_ascii_case(s, "BOOLEAN") {
        Some(ColumnType::Boolean)
    } else if eq_ignore_ascii_case(s, "BLOB") {
        Some(ColumnType::Geometry)
    } else if eq_ignore_ascii_case(s, "GEOMETRY") || eq_ignore_ascii_case(s, "POINT")
        || eq_ignore_ascii_case(s, "LINESTRING") || eq_ignore_ascii_case(s, "POLYGON")
        || eq_ignore_ascii_case(s, "MULTIPOINT") || eq_ignore_ascii_case(s, "MULTILINESTRING")
        || eq_ignore_ascii_case(s, "MULTIPOLYGON") || eq_ignore_ascii_case(
        s,
        "GEOMETRYCOLLECTION",
    ) {
        Some(ColumnType::Geometry)
    } else {
        None
    }
}

} // verus!
