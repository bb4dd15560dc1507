//! The bounding-box reduction engine.
//!
//! A geometry value is modelled by its shape variant and its coordinates.
//! Each coordinate component is carried as the IEEE-754 bit pattern of a
//! float64 value, and components are compared in the IEEE-754 total order,
//! which agrees with the ordinary float comparison on every number the wire
//! format can carry, finite or infinite, and places the negative zero below
//! the positive one. A not-a-number pattern orders beyond the infinity of its
//! sign, so it widens a bound instead of contaminating every later
//! comparison. The reduction computes the minimum enclosing axis-aligned
//! rectangle of all coordinates, or `None` when the geometry has none.

use vstd::prelude::*;

verus! {

/// A coordinate: the IEEE-754 bit patterns of its x and y float64 components.
#[derive(Clone, Copy, Debug, PartialEq, Eq, Structural)]
pub struct Coord {
    pub x: u64,
    pub y: u64,
}

/// An axis-aligned bounding rectangle, each component the IEEE-754 bit
/// pattern of a float64 value. The distinguished "no coordinates observed"
/// outcome is carried as `Option::<BoundingBox>::None` by the reduction,
/// distinct from a degenerate zero-area box.
#[derive(Clone, Copy, Debug, PartialEq, Eq, Structural)]
pub struct BoundingBox {
    pub minx: u64,
    pub maxx: u64,
    pub miny: u64,
    pub maxy: u64,
}

/// A geometry value, as far as the reduction reads it: the closed set of
/// seven shape variants of the wire format, over x/y coordinates. Rings of a
/// polygon are listed exterior first. Collections nest arbitrarily deep.
#[derive(Debug)]
pub enum Geometry {
    Point(Option<Coord>),
    LineString(Vec<Coord>),
    Polygon(Vec<Vec<Coord>>),
    MultiPoint(Vec<Option<Coord>>),
    MultiLineString(Vec<Vec<Coord>>),
    MultiPolygon(Vec<Vec<Vec<Coord>>>),
    GeometryCollection(Vec<Geometry>),
}

/// The key under which the IEEE-754 total order on float64 bit patterns is
/// the unsigned integer order: non-negative floats (sign bit clear) are
/// shifted above all negative ones, and negative floats order by falling bit
/// pattern.
pub open spec fn spec_order_key(b: u64) -> int {
    if b < 0x8000_0000_0000_0000 {
        b as int + 0x8000_0000_0000_0000
    } else {
        0xFFFF_FFFF_FFFF_FFFF - b as int
    }
}

/// The total order on float64 bit patterns.
pub open spec fn le_f64(a: u64, b: u64) -> bool {
    spec_order_key(a) <= spec_order_key(b)
}

/// The lesser of two float64 bit patterns in the total order.
pub open spec fn min_f64(a: u64, b: u64) -> u64 {
    if le_f64(a, b) {
        a
    } else {
        b
    }
}

/// The greater of two float64 bit patterns in the total order.
pub open spec fn max_f64(a: u64, b: u64) -> u64 {
    if le_f64(a, b) {
        b
    } else {
        a
    }
}

/// Returns the lesser of two float64 bit patterns in the total order.
pub fn coord_min(a: u64, b: u64) -> (r: u64)
    ensures
        r == min_f64(a, b),
{
    if order_key(a) <= order_key(b) {
        a
    } else {
        b
    }
}

/// Returns the greater of two float64 bit patterns in the total order.
pub fn coord_max(a: u64, b: u64) -> (r: u64)
    ensures
        r == max_f64(a, b),
{
    if order_key(a) <= order_key(b) {
        b
    } else {
        a
    }
}

fn order_key(b: u64) -> (k: u64)
    ensures
        k == spec_order_key(b),
{
    if b < 0x8000_0000_0000_0000 {
        b + 0x8000_0000_0000_0000
    } else {
        0xFFFF_FFFF_FFFF_FFFF - b
    }
}

/// One coordinate folded into the running bounds: the first coordinate seeds
/// a degenerate box, every further one widens each side as needed.
pub open spec fn merge_coord(acc: Option<BoundingBox>, c: Coord) -> Option<BoundingBox> {
    match acc {
        None => Some(BoundingBox { minx: c.x, maxx: c.x, miny: c.y, maxy: c.y }),
        Some(b) => Some(
            BoundingBox {
                minx: min_f64(b.minx, c.x),
                maxx: max_f64(b.maxx, c.x),
                miny: min_f64(b.miny, c.y),
                maxy: max_f64(b.maxy, c.y),
            },
        ),
    }
}

/// One reduction result merged into the running bounds: merging with the
/// empty outcome is the identity, otherwise each side widens as needed.
pub open spec fn merge_boxes(acc: Option<BoundingBox>, other: Option<BoundingBox>) -> Option<
    BoundingBox,
> {
    match other {
        None => acc,
        Some(o) => match acc {
            None => Some(o),
            Some(b) => Some(
                BoundingBox {
                    minx: min_f64(b.minx, o.minx),
                    maxx: max_f64(b.maxx, o.maxx),
                    miny: min_f64(b.miny, o.miny),
                    maxy: max_f64(b.maxy, o.maxy),
                },
            ),
        },
    }
}

/// A coordinate sequence folded into the running bounds, in order.
pub open spec fn coords_fold(acc: Option<BoundingBox>, cs: Seq<Coord>) -> Option<BoundingBox>
    decreases cs.len(),
{
    if cs.len() == 0 {
        acc
    } else {
        merge_coord(coords_fold(acc, cs.drop_last()), cs.last())
    }
}

/// A sequence of possibly-empty points folded into the running bounds.
pub open spec fn opt_coords_fold(acc: Option<BoundingBox>, pts: Seq<Option<Coord>>) -> Option<
    BoundingBox,
>
    decreases pts.len(),
{
    if pts.len() == 0 {
        acc
    } else {
        match pts.last() {
            Some(c) => merge_coord(opt_coords_fold(acc, pts.drop_last()), c),
            None => opt_coords_fold(acc, pts.drop_last()),
        }
    }
}

/// A sequence of rings (or of line strings) folded into the running bounds.
pub open spec fn rings_fold(acc: Option<BoundingBox>, rings: Seq<Vec<Coord>>) -> Option<
    BoundingBox,
>
    decreases rings.len(),
{
    if rings.len() == 0 {
        acc
    } else {
        coords_fold(rings_fold(acc, rings.drop_last()), rings.last()@)
    }
}

/// A sequence of polygons folded into the running bounds.
pub open spec fn polys_fold(acc: Option<BoundingBox>, polys: Seq<Vec<Vec<Coord>>>) -> Option<
    BoundingBox,
>
    decreases polys.len(),
{
    if polys.len() == 0 {
        acc
    } else {
        rings_fold(polys_fold(acc, polys.drop_last()), polys.last()@)
    }
}

/// The minimum enclosing rectangle of a geometry value, or `None` when it has
/// no coordinates. This is the reduction the scalar bound functions and the
/// spatial index are specified against.
pub open spec fn bounds_of(g: Geometry) -> Option<BoundingBox>
    decreases g,
{
    match g {
        Geometry::Point(oc) => match oc {
            Some(c) => merge_coord(None, c),
            None => None,
        },
        Geometry::LineString(cs) => coords_fold(None, cs@),
        Geometry::Polygon(rings) => rings_fold(None, rings@),
        Geometry::MultiPoint(pts) => opt_coords_fold(None, pts@),
        Geometry::MultiLineString(lines) => rings_fold(None, lines@),
        Geometry::MultiPolygon(polys) => polys_fold(None, polys@),
        Geometry::GeometryCollection(gs) => collection_fold(None, gs@),
    }
}

/// The members of a collection reduced one by one, each result merged into
/// the running bounds; empty members leave it unchanged.
pub open spec fn collection_fold(acc: Option<BoundingBox>, gs: Seq<Geometry>) -> Option<
    BoundingBox,
>
    decreases gs,
{
    if gs.len() == 0 {
        acc
    } else {
        merge_boxes(collection_fold(acc, gs.drop_last()), bounds_of(gs.last()))
    }
}

/// A geometry is empty exactly when the reduction observes no coordinates.
pub open spec fn spec_is_empty(g: Geometry) -> bool {
    bounds_of(g) is None
}

proof fn lemma_take_step<T>(s: Seq<T>, i: int)
    requires
        0 <= i < s.len(),
    ensures
        s.take(i + 1).drop_last() =~= s.take(i),
        s.take(i + 1).last() == s[i],
{
}

fn add_coord(bounds: &mut Option<BoundingBox>, x: u64, y: u64)
    ensures
        *final(bounds) == merge_coord(*old(bounds), Coord { x, y }),
{
    match bounds {
        Some(existing) => {
            let b = *existing;
            *bounds = Some(
                BoundingBox {
                    minx: coord_min(b.minx, x),
                    maxx: coord_max(b.maxx, x),
                    miny: coord_min(b.miny, y),
                    maxy: coord_max(b.maxy, y),
                },
            );
        },
        None => {
            *bounds = Some(BoundingBox { minx: x, maxx: x, miny: y, maxy: y });
        },
    }
}

fn add_line_string(bounds: &mut Option<BoundingBox>, line: &Vec<Coord>)
    ensures
        *final(bounds) == coords_fold(*old(bounds), line@),
{
    let mut i: usize = 0;
    while i < line.len()
        invariant
            i <= line@.len(),
            *bounds == coords_fold(*old(bounds), line@.take(i as int)),
        decreases line@.len() - i,
    {
        proof {
            lemma_take_step(line@, i as int);
        }
        let c = line[i];
        add_coord(bounds, c.x, c.y);
        i = i + 1;
    }
    assert(line@.take(line@.len() as int) =~= line@);
}

fn add_rings(bounds: &mut Option<BoundingBox>, rings: &Vec<Vec<Coord>>)
    ensures
        *final(bounds) == rings_fold(*old(bounds), rings@),
{
    let mut i: usize = 0;
    while i < rings.len()
        invariant
            i <= rings@.len(),
            *bounds == rings_fold(*old(bounds), rings@.take(i as int)),
        decreases rings@.len() - i,
    {
        proof {
            lemma_take_step(rings@, i as int);
        }
        add_line_string(bounds, &rings[i]);
        i = i + 1;
    }
    assert(rings@.take(rings@.len() as int) =~= rings@);
}

fn merge_bounds(bounds: &mut Option<BoundingBox>, other: BoundingBox)
    ensures
        *final(bounds) == merge_boxes(*old(bounds), Some(other)),
{
    match bounds {
        Some(existing) => {
            let b = *existing;
            *bounds = Some(
                BoundingBox {
                    minx: coord_min(b.minx, other.minx),
                    maxx: coord_max(b.maxx, other.maxx),
                    miny: coord_min(b.miny, other.miny),
                    maxy: coord_max(b.maxy, other.maxy),
                },
            );
        },
        None => {
            *bounds = Some(other);
        },
    }
}

/// Computes the minimum enclosing rectangle of a geometry value, or `None`
/// when the geometry has no coordinates. Handles arbitrarily deep collection
/// nesting; the recursion is bounded by the value's own structure.
pub fn bounds_from_geometry(g: &Geometry) -> (r: Option<BoundingBox>)
    ensures
        r == bounds_of(*g),
    decreases *g,
{
    let mut bounds: Option<BoundingBox> = None;
    match g {
        Geometry::Point(oc) => {
            match oc {
                Some(c) => add_coord(&mut bounds, c.x, c.y),
                None => {},
            }
        },
        Geometry::LineString(cs) => {
            add_line_string(&mut bounds, cs);
        },
        Geometry::Polygon(rings) => {
            add_rings(&mut bounds, rings);
        },
        Geometry::MultiPoint(pts) => {
            let mut i: usize = 0;
            while i < pts.len()
                invariant
                    i <= pts@.len(),
                    bounds == opt_coords_fold(None, pts@.take(i as int)),
                decreases pts@.len() - i,
            {
                proof {
                    lemma_take_step(pts@, i as int);
                }
                match pts[i] {
                    Some(c) => add_coord(&mut bounds, c.x, c.y),
                    None => {},
                }
                i = i + 1;
            }
            assert(pts@.take(pts@.len() as int) =~= pts@);
        },
        Geometry::MultiLineString(lines) => {
            add_rings(&mut bounds, lines);
        },
        Geometry::MultiPolygon(polys) => {
            let mut i: usize = 0;
            while i < polys.len()
                invariant
                    i <= polys@.len(),
                    bounds == polys_fold(None, polys@.take(i as int)),
                decreases polys@.len() - i,
            {
                proof {
                    lemma_take_step(polys@, i as int);
                }
                add_rings(&mut bounds, &polys[i]);
                i = i + 1;
            }
            assert(polys@.take(polys@.len() as int) =~= polys@);
        },
        Geometry::GeometryCollection(gs) => {
            let mut i: usize = 0;
            while i < gs.len()
                invariant
                    *g == Geometry::GeometryCollection(*gs),
                    i <= gs@.len(),
                    bounds == collection_fold(None, gs@.take(i as int)),
                decreases gs@.len() - i,
            {
                proof {
                    lemma_take_step(gs@, i as int);
                    assert(decreases_to!(*g => g->GeometryCollection_0));
                    assert(decreases_to!(*gs => gs@));
                    assert(decreases_to!(gs@ => gs@[i as int]));
                    assert(decreases_to!(*g => gs@[i as int]));
                }
                let sub = bounds_from_geometry(&gs[i]);
                match sub {
                    Some(sb) => merge_bounds(&mut bounds, sb),
                    None => {},
                }
                i = i + 1;
            }
            assert(gs@.take(gs@.len() as int) =~= gs@);
        },
    }
    bounds
}

/// Whether a geometry value is empty: no coordinates anywhere in it.
pub fn is_empty(g: &Geometry) -> (r: bool)
    ensures
        r == spec_is_empty(*g),
{
    match bounds_from_geometry(g) {
        Some(_) => false,
        None => true,
    }
}

/// The least x coordinate of a geometry value, or `None` when the argument is
/// absent (an SQL null) or the geometry is empty.
pub fn st_min_x(geom: Option<&Geometry>) -> (r: Option<u64>)
    ensures
        match geom {
            None => r is None,
            Some(g) => match bounds_of(*g) {
                Some(b) => r == Some(b.minx),
                None => r is None,
            },
        },
{
    match geom {
        None => None,
        Some(g) => match bounds_from_geometry(g) {
            Some(b) => Some(b.minx),
            None => None,
        },
    }
}

/// The greatest x coordinate of a geometry value, or `None` when the argument
/// is absent or the geometry is empty.
pub fn st_max_x(geom: Option<&Geometry>) -> (r: Option<u64>)
    ensures
        match geom {
            None => r is None,
            Some(g) => match bounds_of(*g) {
                Some(b) => r == Some(b.maxx),
                None => r is None,
            },
        },
{
    match geom {
        None => None,
        Some(g) => match bounds_from_geometry(g) {
            Some(b) => Some(b.maxx),
            None => None,
        },
    }
}

/// The least y coordinate of a geometry value, or `None` when the argument is
/// absent or the geometry is empty.
pub fn st_min_y(geom: Option<&Geometry>) -> (r: Option<u64>)
    ensures
        match geom {
            None => r is None,
            Some(g) => match bounds_of(*g) {
                Some(b) => r == Some(b.miny),
                None => r is None,
            },
        },
{
    match geom {
        None => None,
        Some(g) => match bounds_from_geometry(g) {
            Some(b) => Some(b.miny),
            None => None,
        },
    }
}

/// The greatest y coordinate of a geometry value, or `None` when the argument
/// is absent or the geometry is empty.
pub fn st_max_y(geom: Option<&Geometry>) -> (r: Option<u64>)
    ensures
        match geom {
            None => r is None,
            Some(g) => match bounds_of(*g) {
                Some(b) => r == Some(b.maxy),
                None => r is None,
            },
        },
{
    match geom {
        None => None,
        Some(g) => match bounds_from_geometry(g) {
            Some(b) => Some(b.maxy),
            None => None,
        },
    }
}

/// Emptiness as a nullable SQL integer: `None` for an absent argument,
/// otherwise 1 when the geometry is empty and 0 when it is not.
pub fn st_is_empty(geom: Option<&Geometry>) -> (r: Option<i64>)
    ensures
        match geom {
            None => r is None,
            Some(g) => r == Some(if spec_is_empty(*g) { 1i64 } else { 0i64 }),
        },
{
    match geom {
        None => None,
        Some(g) => {
            if is_empty(g) {
                Some(1)
            } else {
                Some(0)
            }
        },
    }
}

} // verus!
