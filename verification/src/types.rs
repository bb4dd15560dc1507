//! Shared data model: column types, column specifications, geometry shape and
//! dimension variants, and layer metadata.

use vstd::prelude::*;

verus! {

/// Logical column types used by GeoPackage layers and DDL helpers.
#[derive(Clone, Copy, Debug, PartialEq, Eq, Structural)]
pub enum ColumnType {
    /// Boolean value stored as an integer 0/1.
    Boolean,
    /// UTF-8 text column.
    Varchar,
    /// Floating point column (SQLite REAL).
    Double,
    /// Integer column (SQLite INTEGER).
    Integer,
    /// Geometry column stored as a GeoPackage BLOB.
    Geometry,
}

/// Column definition used when creating or describing layer properties.
#[derive(Clone, Debug)]
pub struct ColumnSpec {
    pub name: String,
    pub column_type: ColumnType,
}

/// The geometry shape variants of the GeoPackage binary format.
///
/// This set is closed: the wire format fixes exactly these seven shapes.
#[derive(Clone, Copy, Debug, PartialEq, Eq, Structural)]
pub enum GeometryType {
    Point,
    LineString,
    Polygon,
    MultiPoint,
    MultiLineString,
    MultiPolygon,
    GeometryCollection,
}

/// Coordinate dimension variants: plain XY, with elevation (Z), with a
/// measure (M), or both.
#[derive(Clone, Copy, Debug, PartialEq, Eq, Structural)]
pub enum Dimension {
    Xy,
    Xyz,
    Xym,
    Xyzm,
}

/// Layer-wide metadata and property column definitions.
#[derive(Clone, Debug)]
pub struct LayerMetadata {
    pub primary_key_column: String,
    pub geometry_column: String,
    pub geometry_type: GeometryType,
    pub geometry_dimension: Dimension,
    pub srs_id: u32,
    pub other_columns: Vec<ColumnSpec>,
}

} // verus!
