//! The GeoPackage binary geometry codec.
//!
//! A geometry value is stored as a fixed 8-byte header — two magic bytes, a
//! version byte, a flags byte and a 4-byte little-endian spatial reference
//! system id — followed by an optional envelope and the raw well-known-binary
//! payload. The encoder always writes the minimal no-envelope form; the
//! decoder accepts every legal envelope indicator.

use vstd::prelude::*;

use crate::error::GpkgError;

verus! {

/// First magic byte, ASCII 'G'.
pub const MAGIC_0: u8 = 0x47;

/// Second magic byte, ASCII 'P'.
pub const MAGIC_1: u8 = 0x50;

/// Version byte written by the encoder.
pub const VERSION: u8 = 0x00;

/// Flags byte written by the encoder: little-endian byte order, no envelope,
/// empty flag unset.
pub const ENCODE_FLAGS: u8 = 0x01;

/// The envelope-content indicator held in bits 1 to 3 of the flags byte.
pub open spec fn envelope_indicator(flags: u8) -> int {
    (flags as int / 2) % 8
}

/// The size in bytes of the envelope selected by an indicator value. Exactly
/// five indicator values are legal: no envelope, x/y, x/y/z, x/y/m, and
/// x/y/z/m pairs of float64 values.
pub open spec fn envelope_size_of_indicator(ind: int) -> Option<int> {
    if ind == 0 {
        Some(0)
    } else if ind == 1 {
        Some(32)
    } else if ind == 2 {
        Some(48)
    } else if ind == 3 {
        Some(48)
    } else if ind == 4 {
        Some(64)
    } else {
        None
    }
}

/// The value of four bytes read as a little-endian 32-bit integer.
pub open spec fn le_u32_value(b0: u8, b1: u8, b2: u8, b3: u8) -> int {
    b0 as int + b1 as int * 0x100 + b2 as int * 0x10000 + b3 as int * 0x1000000
}

/// The envelope size a blob's flags byte declares, if its indicator is legal.
pub open spec fn blob_envelope_size(b: Seq<u8>) -> Option<int>
    recommends
        b.len() >= 4,
{
    envelope_size_of_indicator(envelope_indicator(b[3]))
}

/// Whether a blob is long enough for the header and the envelope its flags
/// byte declares, with a legal envelope indicator.
pub open spec fn header_ok(b: Seq<u8>) -> bool {
    &&& b.len() >= 8
    &&& blob_envelope_size(b) is Some
    &&& b.len() >= 8 + blob_envelope_size(b).unwrap()
}

/// The spatial reference system id held in bytes 4 to 7 of a blob.
pub open spec fn srs_id_of(b: Seq<u8>) -> int
    recommends
        b.len() >= 8,
{
    le_u32_value(b[4], b[5], b[6], b[7])
}

/// The well-known-binary payload of a blob: everything past the header and
/// the declared envelope.
pub open spec fn payload_of(b: Seq<u8>) -> Seq<u8>
    recommends
        header_ok(b),
{
    b.skip(8 + blob_envelope_size(b).unwrap())
}

/// The exact bytes `encode` emits: the minimal 8-byte header followed by the
/// payload verbatim.
pub open spec fn spec_encode(payload: Seq<u8>, srs_id: u32) -> Seq<u8> {
    seq![
        MAGIC_0,
        MAGIC_1,
        VERSION,
        ENCODE_FLAGS,
        (srs_id as int % 0x100) as u8,
        ((srs_id as int / 0x100) % 0x100) as u8,
        ((srs_id as int / 0x10000) % 0x100) as u8,
        ((srs_id as int / 0x1000000) % 0x100) as u8,
    ] + payload
}

/// Whether a byte sequence is well-formed well-known-binary: the verdict of
/// the `wkb` crate's validating parser, which depends on the bytes alone.
pub uninterp spec fn wkb_ok(payload: Seq<u8>) -> bool;

/// Relies on `wkb::reader::Wkb::try_new`: a validating pass over the buffer
/// that returns `Ok` exactly when the bytes are well-formed well-known-binary
/// — the verdict named `wkb_ok` — and the parser's error otherwise.
#[verifier::external_body]
fn wkb_parse_check(payload: &[u8]) -> (r: Result<(), wkb::error::WkbError>)
    ensures
        r is Ok == wkb_ok(payload@),
{
    match wkb::reader::Wkb::try_new(payload) {
        Ok(_) => Ok(()),
        Err(e) => Err(e),
    }
}

/// Decodes a GeoPackage geometry blob into its spatial reference system id
/// and its well-known-binary payload.
///
/// The header is checked exactly: once the flags byte exists, an envelope
/// indicator outside the five legal values is rejected first; a blob shorter
/// than the fixed header, or shorter than the declared envelope, each yield
/// their own error. The envelope bytes themselves are only skipped, never
/// read. The payload is handed to the well-known-binary parser once for
/// validation, and the call succeeds exactly when the header is legal and the
/// parser accepts the payload; the parser's failure is propagated unchanged.
pub fn decode(blob: &Vec<u8>) -> (r: Result<(u32, Vec<u8>), GpkgError>)
    ensures
        blob@.len() < 4 ==> (r matches Err(GpkgError::InvalidGpkgGeometryLength {
            len,
            minimum,
        }) && len == blob@.len() && minimum == 8),
        blob@.len() >= 4 && blob_envelope_size(blob@) is None ==> (r matches Err(
            GpkgError::InvalidGpkgGeometryFlags(f),
        ) && f == blob@[3]),
        4 <= blob@.len() < 8 && blob_envelope_size(blob@) is Some ==> (r matches Err(
            GpkgError::InvalidGpkgGeometryLength { len, minimum },
        ) && len == blob@.len() && minimum == 8),
        blob@.len() >= 8 && blob_envelope_size(blob@) is Some && blob@.len() < 8
            + blob_envelope_size(blob@).unwrap() ==> (r matches Err(
            GpkgError::InvalidGpkgGeometryEnvelope { len, required },
        ) && len == blob@.len() && required == 8 + blob_envelope_size(blob@).unwrap()),
        header_ok(blob@) ==> match r {
            Ok((srs, payload)) => srs == srs_id_of(blob@) && payload@ == payload_of(blob@),
            Err(e) => e is Wkb,
        },
        header_ok(blob@) ==> (r is Ok <==> wkb_ok(payload_of(blob@))),
        r is Ok ==> header_ok(blob@),
{
    if blob.len() < 4 {
        return Err(GpkgError::InvalidGpkgGeometryLength { len: blob.len(), minimum: 8 });
    }
    let flags = blob[3];
    let ind = (flags / 2) % 8;
    let envelope_size: usize = if ind == 0 {
        0
    } else if ind == 1 {
        32
    } else if ind == 2 || ind == 3 {
        48
    } else if ind == 4 {
        64
    } else {
        return Err(GpkgError::InvalidGpkgGeometryFlags(flags));
    };
    if blob.len() < 8 {
        return Err(GpkgError::InvalidGpkgGeometryLength { len: blob.len(), minimum: 8 });
    }
    let offset = 8 + envelope_size;
    if blob.len() < offset {
        return Err(GpkgError::InvalidGpkgGeometryEnvelope { len: blob.len(), required: offset });
    }

    let srs_id: u32 = blob[4] as u32 + blob[5] as u32 * 0x100 + blob[6] as u32 * 0x10000 + blob[7]
        as u32 * 0x1000000;

    let mut payload: Vec<u8> = Vec::new();
    let mut i = offset;
    while i < blob.len()
        invariant
            offset <= i <= blob@.len(),
            payload@ == blob@.subrange(offset as int, i as int),
        decreases blob@.len() - i,
    {
        payload.push(blob[i]);
        i = i + 1;
    }
    assert(payload@ == payload_of(blob@));

    match wkb_parse_check(payload.as_slice()) {
        Ok(_) => Ok((srs_id, payload)),
        Err(e) => Err(GpkgError::Wkb(e)),
    }
}

/// Encodes a well-known-binary payload and a spatial reference system id as a
/// GeoPackage geometry blob, always in the minimal no-envelope form.
pub fn encode(payload: &Vec<u8>, srs_id: u32) -> (r: Vec<u8>)
    ensures
        r@ == spec_encode(payload@, srs_id),
{
    let mut geom: Vec<u8> = Vec::new();
    geom.push(MAGIC_0);
    geom.push(MAGIC_1);
    geom.push(VERSION);
    geom.push(ENCODE_FLAGS);
    geom.push((srs_id % 0x100) as u8);
    geom.push((srs_id / 0x100 % 0x100) as u8);
    geom.push((srs_id / 0x10000 % 0x100) as u8);
    geom.push((srs_id / 0x1000000 % 0x100) as u8);
    let mut i: usize = 0;
    while i < payload.len()
        invariant
            i <= payload@.len(),
            geom@ == spec_encode(payload@, srs_id).take(8 + i),
        decreases payload@.len() - i,
    {
        geom.push(payload[i]);
        i = i + 1;
    }
    assert(geom@ =~= spec_encode(payload@, srs_id));
    geom
}

/// Round trip: the header that `encode` writes is legal, declares no
/// envelope, and decodes back to exactly the spatial reference system id and
/// payload that were encoded. Together with `decode`'s contract, decoding an
/// encoded blob returns `Ok` with that id and payload exactly when the
/// payload is well-formed well-known-binary.
pub proof fn lemma_encode_decode(payload: Seq<u8>, srs_id: u32)
    ensures
        header_ok(spec_encode(payload, srs_id)),
        srs_id_of(spec_encode(payload, srs_id)) == srs_id as int,
        payload_of(spec_encode(payload, srs_id)) == payload,
{
    let b = spec_encode(payload, srs_id);
    assert(b[3] == ENCODE_FLAGS);
    assert(envelope_indicator(ENCODE_FLAGS) == 0);
    assert(header_ok(b));
    let s = srs_id as int;
    assert(le_u32_value((s % 0x100) as u8, ((s / 0x100) % 0x100) as u8, ((s / 0x10000)
        % 0x100) as u8, ((s / 0x1000000) % 0x100) as u8) == s) by {
        lemma_le_u32_decompose(srs_id);
    }
    assert(payload_of(b) =~= payload);
}

/// A 32-bit value equals the little-endian recombination of its four bytes.
proof fn lemma_le_u32_decompose(v: u32)
    ensures
        (v as int % 0x100) + ((v as int / 0x100) % 0x100) * 0x100 + ((v as int / 0x10000) % 0x100)
            * 0x10000 + ((v as int / 0x1000000) % 0x100) * 0x1000000 == v as int,
{
    let x = v as int;
    assert((x % 0x100) + ((x / 0x100) % 0x100) * 0x100 + ((x / 0x10000) % 0x100) * 0x10000 + ((x
        / 0x1000000) % 0x100) * 0x1000000 == x) by (nonlinear_arith)
        requires
            0 <= x < 0x100000000,
    ;
}

} // verus!
