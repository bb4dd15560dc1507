//! GeoPackage spatial-feature storage core: the binary geometry codec, the
//! bounding-box reduction engine, and the spatial-index DDL/trigger generator,
//! all with machine-checked contracts.
//!
//! The embedding relational engine, feature CRUD plumbing and I/O live outside
//! this crate; they consume the codec, the scalar bound computations and the
//! generated SQL text.

pub mod bounds;
pub mod codec;
pub mod conversions;
pub mod error;
pub mod index;
pub mod ogc_sql;
pub mod types;
pub mod vfs;
