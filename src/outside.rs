//! The calls into the grid-indexing and geometry crates that the conversion
//! relies on, with what they are trusted to do.
//!
//! Coordinates reach verified code only through the IEEE-754 encodings of
//! their longitude and latitude, so every name below is stated over those
//! encodings.

use vstd::prelude::*;

use crate::geometry::{coords_bits, polygon_bits, Polygon};

verus! {

/// A coordinate of the geometry crate: `x` is the longitude and `y` the
/// latitude, in degrees. Verified code reads it only through `coord_bits`.
///
/// The geometry crate's coordinate type is generic over a numeric trait of
/// that crate, which cannot be declared here; the value is therefore held in
/// a struct of this library whose contents stay hidden.
#[verifier::external_body]
#[derive(Debug)]
pub struct Coord {
    pub inner: geo_types::Coord,
}

impl Clone for Coord {
    /// Relies on `geo_types::Coord` being `Copy`: the clone is the same value.
    #[verifier::external_body]
    fn clone(&self) -> (r: Coord)
        ensures
            r == *self,
    {
        *self
    }
}

impl Copy for Coord {}

/// The cell tiler of the grid-indexing crate.
#[verifier::external_type_specification]
#[verifier::external_body]
pub struct ExTiler(h3o::geom::Tiler);

/// The containment modes of the grid-indexing crate's tiler.
#[verifier::external_type_specification]
pub struct ExContainmentMode(h3o::geom::ContainmentMode);

/// The IEEE-754 encodings of a coordinate's longitude and latitude.
pub uninterp spec fn coord_bits(c: Coord) -> (u64, u64);

/// The cell of the given resolution that contains a (finite) coordinate.
pub uninterp spec fn cell_at(c: (u64, u64), res: u8) -> u64;

/// The cells of the grid path that the plotter draws for the segment from
/// `a` to `b`, or `None` where the plotter refuses the segment or fails on
/// its path.
pub uninterp spec fn segment_cells(a: (u64, u64), b: (u64, u64), res: u8) -> Option<Seq<u64>>;

/// The exterior ring of the polygon that the rectangle with opposite corners
/// `a` and `b` turns into.
pub uninterp spec fn rect_ring(a: (u64, u64), b: (u64, u64)) -> Seq<(u64, u64)>;

/// The polygons that a tiler holds, in the order in which they were added.
pub uninterp spec fn tiler_polygons(t: h3o::geom::Tiler) -> Seq<
    (Seq<(u64, u64)>, Seq<Seq<(u64, u64)>>),
>;

/// The resolution and containment mode that a tiler was built with.
pub uninterp spec fn tiler_settings(t: h3o::geom::Tiler) -> (u8, h3o::geom::ContainmentMode);

/// Whether the tiler takes a polygon (its rings long enough and their
/// coordinates valid).
pub uninterp spec fn polygon_accepted(p: (Seq<(u64, u64)>, Seq<Seq<(u64, u64)>>)) -> bool;

/// The cells that the tiler yields for a batch of polygons, duplicates
/// included.
pub uninterp spec fn coverage(
    ps: Seq<(Seq<(u64, u64)>, Seq<Seq<(u64, u64)>>)>,
    res: u8,
    mode: h3o::geom::ContainmentMode,
) -> Seq<u64>;

/// Whether an encoding is that of a finite double (its exponent is not all
/// ones).
pub open spec fn finite(bits: u64) -> bool {
    bits & 0x7ff0_0000_0000_0000 != 0x7ff0_0000_0000_0000
}

/// Relies on `f64::to_bits`: the encodings of `x` and `y`, bit for bit.
#[verifier::external_body]
pub(crate) fn bits_of(c: &Coord) -> (r: (u64, u64))
    ensures
        r == coord_bits(*c),
{
    (c.inner.x.to_bits(), c.inner.y.to_bits())
}

/// Relies on `LatLng::try_from(geo::Coord)`, which fails exactly when the
/// latitude or the longitude is not finite, and on `LatLng::to_cell`.
#[verifier::external_body]
pub(crate) fn point_to_cell(c: &Coord, res: u8) -> (r: Option<u64>)
    requires
        res <= 15,
    ensures
        r == (if finite(coord_bits(*c).0) && finite(coord_bits(*c).1) {
            Some(cell_at(coord_bits(*c), res))
        } else {
            None::<u64>
        }),
{
    let resolution = h3o::Resolution::try_from(res).expect("resolution in 0..=15");
    h3o::LatLng::try_from(c.inner).ok().map(|ll| u64::from(ll.to_cell(resolution)))
}

/// Relies on `PlotterBuilder::new(..).build()`, `Plotter::add` and
/// `Plotter::plot`: the cells of one segment's grid path, or `None` where
/// `add` refuses the segment or `plot` yields an error.
#[verifier::external_body]
pub(crate) fn plot_segment(a: &Coord, b: &Coord, res: u8) -> (r: Option<Vec<u64>>)
    requires
        res <= 15,
    ensures
        match r {
            Some(cells) => segment_cells(coord_bits(*a), coord_bits(*b), res) == Some(cells@),
            None => segment_cells(coord_bits(*a), coord_bits(*b), res) is None,
        },
{
    let resolution = h3o::Resolution::try_from(res).expect("resolution in 0..=15");
    let mut plotter = h3o::geom::PlotterBuilder::new(resolution).build();
    plotter.add(geo_types::Line::new(a.inner, b.inner)).ok()?;
    plotter.plot().map(|cell| cell.map(u64::from)).collect::<Result<Vec<u64>, _>>().ok()
}

/// Relies on `geo_types::Rect::new` and `Rect::to_polygon`: a polygon with
/// the rectangle's closed ring as exterior and no interior.
#[verifier::external_body]
pub(crate) fn rect_to_polygon(a: &Coord, b: &Coord) -> (p: Polygon)
    ensures
        coords_bits(p.exterior@) == rect_ring(coord_bits(*a), coord_bits(*b)),
        p.interiors@.len() == 0,
{
    let (ring, _) = geo_types::Rect::new(a.inner, b.inner).to_polygon().into_inner();
    Polygon {
        exterior: ring.0.into_iter().map(|inner| Coord { inner }).collect(),
        interiors: Vec::new(),
    }
}

/// Relies on `TilerBuilder::new`, `TilerBuilder::containment_mode` and
/// `TilerBuilder::build`: an empty tiler with these settings.
#[verifier::external_body]
pub(crate) fn new_tiler(res: u8, mode: h3o::geom::ContainmentMode) -> (t: h3o::geom::Tiler)
    requires
        res <= 15,
    ensures
        tiler_polygons(t) == Seq::<(Seq<(u64, u64)>, Seq<Seq<(u64, u64)>>)>::empty(),
        tiler_settings(t) == (res, mode),
{
    let resolution = h3o::Resolution::try_from(res).expect("resolution in 0..=15");
    h3o::geom::TilerBuilder::new(resolution).containment_mode(mode).build()
}

/// Relies on `Tiler::add`: it checks the polygon's rings first and keeps the
/// polygon only when they are valid, leaving the tiler as it was otherwise.
#[verifier::external_body]
pub(crate) fn tiler_add(t: &mut h3o::geom::Tiler, p: &Polygon) -> (r: bool)
    ensures
        r == polygon_accepted(polygon_bits(*p)),
        r ==> tiler_polygons(*final(t)) == tiler_polygons(*old(t)).push(polygon_bits(*p)),
        !r ==> tiler_polygons(*final(t)) == tiler_polygons(*old(t)),
        tiler_settings(*final(t)) == tiler_settings(*old(t)),
{
    let ring = |r: &Vec<Coord>| geo_types::LineString(r.iter().map(|c| c.inner).collect());
    let interiors = p.interiors.iter().map(ring).collect();
    t.add(geo_types::Polygon::new(ring(&p.exterior), interiors)).is_ok()
}

/// Relies on `Tiler::into_coverage`: the coverage of the polygons held.
#[verifier::external_body]
pub(crate) fn tiler_coverage(t: h3o::geom::Tiler) -> (r: Vec<u64>)
    ensures
        r@ == coverage(tiler_polygons(t), tiler_settings(t).0, tiler_settings(t).1),
{
    t.into_coverage().map(u64::from).collect()
}

} // verus!
