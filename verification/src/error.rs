//! The crate's error type.

use vstd::prelude::*;

verus! {

/// Declares the error type of the `wkb` crate, so that a payload parse
/// failure can be carried in [`GpkgError`] unchanged.
#[verifier::external_type_specification]
#[verifier::external_body]
pub struct ExWkbError(wkb::error::WkbError);

/// Crate error type for GeoPackage operations.
#[derive(Debug)]
pub enum GpkgError {
    /// Wraps errors returned by the `wkb` payload parser, propagated unchanged.
    Wkb(wkb::error::WkbError),
    /// A geometry type in metadata could not be mapped to a supported geometry type.
    UnsupportedGeometryType(String),
    /// Invalid or mixed `z` / `m` dimension flags in GeoPackage metadata.
    InvalidDimension { z: i8, m: i8 },
    /// Invalid GeoPackage geometry flags byte.
    InvalidGpkgGeometryFlags(u8),
    /// GeoPackage geometry blob is too short for the fixed header.
    InvalidGpkgGeometryLength { len: usize, minimum: usize },
    /// GeoPackage geometry blob is too short for the declared envelope payload.
    InvalidGpkgGeometryEnvelope { len: usize, required: usize },
}

} // verus!
