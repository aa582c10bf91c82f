//! The geometries that the conversion accepts, and its error type.

use vstd::prelude::*;

use crate::outside::{coord_bits, Coord};

verus! {

/// A polygon: an exterior ring and any number of interior rings (holes).
/// Each ring lists its vertices in order; a closed ring repeats its first
/// vertex at the end.
#[derive(Debug)]
pub struct Polygon {
    pub exterior: Vec<Coord>,
    pub interiors: Vec<Vec<Coord>>,
}

/// A geometry to convert into cells.
#[derive(Debug)]
pub enum Geometry {
    Point(Coord),
    /// A single segment, from its start to its end.
    Line(Coord, Coord),
    /// A path through its vertices, in order.
    LineString(Vec<Coord>),
    Polygon(Polygon),
    MultiPoint(Vec<Coord>),
    MultiLineString(Vec<Vec<Coord>>),
    MultiPolygon(Vec<Polygon>),
    /// An axis-aligned rectangle given by two opposite corners.
    Rect(Coord, Coord),
    /// A triangle given by its three vertices.
    Triangle(Coord, Coord, Coord),
    /// Any number of geometries, possibly collections themselves.
    GeometryCollection(Vec<Geometry>),
}

/// Which cells a tiled area selects.
#[derive(Clone, Copy, Debug, PartialEq, Eq, Structural)]
pub enum Mode {
    /// Cells whose centroid lies inside the area.
    ContainsCentroid,
    /// Cells whose boundary lies entirely inside the area.
    ContainsBoundary,
    /// Cells whose boundary meets the area, even partially.
    IntersectsBoundary,
    /// As `IntersectsBoundary`, and also the cell that covers an area lying
    /// wholly inside it.
    Covers,
}

/// The tiler's mode for a containment mode.
pub open spec fn tiler_mode(mode: Mode) -> h3o::geom::ContainmentMode {
    match mode {
        Mode::ContainsCentroid => h3o::geom::ContainmentMode::ContainsCentroid,
        Mode::ContainsBoundary => h3o::geom::ContainmentMode::ContainsBoundary,
        Mode::IntersectsBoundary => h3o::geom::ContainmentMode::IntersectsBoundary,
        Mode::Covers => h3o::geom::ContainmentMode::Covers,
    }
}

impl From<Mode> for h3o::geom::ContainmentMode {
    /// The tiler's mode of the same name.
    fn from(value: Mode) -> (r: h3o::geom::ContainmentMode) {
        match value {
            Mode::ContainsCentroid => h3o::geom::ContainmentMode::ContainsCentroid,
            Mode::ContainsBoundary => h3o::geom::ContainmentMode::ContainsBoundary,
            Mode::IntersectsBoundary => h3o::geom::ContainmentMode::IntersectsBoundary,
            Mode::Covers => h3o::geom::ContainmentMode::Covers,
        }
    }
}

impl vstd::std_specs::convert::FromSpecImpl<Mode> for h3o::geom::ContainmentMode {
    open spec fn obeys_from_spec() -> bool {
        true
    }

    open spec fn from_spec(v: Mode) -> h3o::geom::ContainmentMode {
        tiler_mode(v)
    }
}

impl Default for Mode {
    fn default() -> (r: Mode)
        ensures
            r == Mode::ContainsCentroid,
    {
        Mode::ContainsCentroid
    }
}

/// The kind of a geometry that is not a collection.
#[derive(Clone, Copy, Debug, PartialEq, Eq, Structural)]
pub enum Shape {
    Point,
    Line,
    LineString,
    Polygon,
    MultiPoint,
    MultiLineString,
    MultiPolygon,
    Rect,
    Triangle,
}

/// What went wrong with a member of a shape.
#[derive(Clone, Copy, Debug, PartialEq, Eq, Structural)]
pub enum ErrorKind {
    /// A point or vertex outside the latitude/longitude domain.
    InvalidCoordinate,
    /// A segment that the line plotter refused.
    InvalidSegment,
    /// A polygon that the tiler refused.
    InvalidPolygon,
}

/// A failed conversion: the kind of failure, the shape in which it occurred,
/// and the position of the failing member within that shape (the point of a
/// multi-point, the segment of a line string, the line string of a
/// multi-line string, the polygon of a multi-polygon; 0 for a shape with a
/// single member).
#[derive(Clone, Copy, Debug, PartialEq, Eq, Structural)]
pub struct ConversionError {
    pub kind: ErrorKind,
    pub shape: Shape,
    pub member: usize,
}

/// The encodings of a sequence of coordinates.
pub open spec fn coords_bits(cs: Seq<Coord>) -> Seq<(u64, u64)> {
    cs.map_values(|c: Coord| coord_bits(c))
}

/// A polygon as its rings' encodings: the exterior, then the interiors.
pub open spec fn polygon_bits(p: Polygon) -> (Seq<(u64, u64)>, Seq<Seq<(u64, u64)>>) {
    (coords_bits(p.exterior@), p.interiors@.map_values(|r: Vec<Coord>| coords_bits(r@)))
}

} // verus!
