//! What converting a geometry yields, stated over the encodings of its
//! coordinates and the results of the outside calls.

use vstd::prelude::*;

use crate::coord::{all_in_domain, bits_in_domain};
use crate::geometry::{
    coords_bits, polygon_bits, tiler_mode, ConversionError, Mode, ErrorKind, Geometry,
    Shape,
};
use crate::outside::{cell_at, coord_bits, coverage, polygon_accepted, rect_ring, segment_cells, Coord};

verus! {

broadcast use vstd::std_specs::vec::axiom_vec_decreases_to_view;

/// The failure of one member of a shape: what went wrong, and where.
pub type MemberError = (ErrorKind, int);

/// What the point lookup gives: the cell that contains a coordinate of the
/// domain, and nothing for any other coordinate.
pub open spec fn point_lookup(c: (u64, u64), res: u8) -> Option<u64> {
    if bits_in_domain(c) {
        Some(cell_at(c, res))
    } else {
        None
    }
}

/// The cells of a sequence of points, or the first point outside the domain.
pub open spec fn points_cells(cs: Seq<(u64, u64)>, res: u8) -> Result<Set<u64>, MemberError>
    decreases cs.len(),
{
    if cs.len() == 0 {
        Ok(Set::empty())
    } else {
        match points_cells(cs.drop_last(), res) {
            Err(e) => Err(e),
            Ok(s) => if bits_in_domain(cs.last()) {
                Ok(s.insert(cell_at(cs.last(), res)))
            } else {
                Err((ErrorKind::InvalidCoordinate, cs.len() - 1))
            },
        }
    }
}

/// The cells of one segment: both ends must lie in the domain, and the
/// plotter must draw its path.
pub open spec fn segment_result(a: (u64, u64), b: (u64, u64), res: u8) -> Result<Set<u64>, ErrorKind> {
    if !(bits_in_domain(a) && bits_in_domain(b)) {
        Err(ErrorKind::InvalidCoordinate)
    } else {
        match segment_cells(a, b, res) {
            None => Err(ErrorKind::InvalidSegment),
            Some(path) => Ok(path.to_set()),
        }
    }
}

/// The consecutive pairs of a path's vertices: none for fewer than two.
pub open spec fn segments(cs: Seq<(u64, u64)>) -> Seq<((u64, u64), (u64, u64))> {
    Seq::new(
        if cs.len() >= 1 { (cs.len() - 1) as nat } else { 0 },
        |i: int| (cs[i], cs[i + 1]),
    )
}

/// The union of the cells of a sequence of segments, or the first failing one.
pub open spec fn segments_cells(segs: Seq<((u64, u64), (u64, u64))>, res: u8) -> Result<
    Set<u64>,
    MemberError,
>
    decreases segs.len(),
{
    if segs.len() == 0 {
        Ok(Set::empty())
    } else {
        match segments_cells(segs.drop_last(), res) {
            Err(e) => Err(e),
            Ok(s) => match segment_result(segs.last().0, segs.last().1, res) {
                Err(k) => Err((k, segs.len() - 1)),
                Ok(t) => Ok(s.union(t)),
            },
        }
    }
}

/// The union of the cells of several paths, or the first failing path.
pub open spec fn paths_cells(ls: Seq<Seq<(u64, u64)>>, res: u8) -> Result<Set<u64>, MemberError>
    decreases ls.len(),
{
    if ls.len() == 0 {
        Ok(Set::empty())
    } else {
        match paths_cells(ls.drop_last(), res) {
            Err(e) => Err(e),
            Ok(s) => match segments_cells(segments(ls.last()), res) {
                Err((k, _)) => Err((k, ls.len() - 1)),
                Ok(t) => Ok(s.union(t)),
            },
        }
    }
}

/// Whether every vertex of a polygon, on every ring, lies in the domain.
pub open spec fn polygon_in_domain(p: (Seq<(u64, u64)>, Seq<Seq<(u64, u64)>>)) -> bool {
    all_in_domain(p.0) && forall|i: int| 0 <= i < p.1.len() ==> all_in_domain(#[trigger] p.1[i])
}

/// The first polygon of a batch that is outside the domain or that the
/// tiler refuses, if any.
pub open spec fn polygons_failure(ps: Seq<(Seq<(u64, u64)>, Seq<Seq<(u64, u64)>>)>) -> Option<
    MemberError,
>
    decreases ps.len(),
{
    if ps.len() == 0 {
        None
    } else {
        match polygons_failure(ps.drop_last()) {
            Some(e) => Some(e),
            None => if !polygon_in_domain(ps.last()) {
                Some((ErrorKind::InvalidCoordinate, ps.len() - 1))
            } else if !polygon_accepted(ps.last()) {
                Some((ErrorKind::InvalidPolygon, ps.len() - 1))
            } else {
                None
            },
        }
    }
}

/// The cells of a batch of polygons tiled together.
pub open spec fn polygons_cells(
    ps: Seq<(Seq<(u64, u64)>, Seq<Seq<(u64, u64)>>)>,
    res: u8,
    mode: Mode,
) -> Result<Set<u64>, MemberError> {
    match polygons_failure(ps) {
        Some(e) => Err(e),
        None => Ok(coverage(ps, res, tiler_mode(mode)).to_set()),
    }
}

/// A member's failure, placed in its shape.
pub open spec fn in_shape(r: Result<Set<u64>, MemberError>, shape: Shape) -> Result<
    Set<u64>,
    ConversionError,
> {
    match r {
        Ok(s) => Ok(s),
        Err((kind, member)) => Err(ConversionError { kind, shape, member: member as usize }),
    }
}

/// The polygon of a triangle: its vertices, closed on the first.
pub open spec fn triangle_ring(a: Coord, b: Coord, c: Coord) -> Seq<(u64, u64)> {
    seq![coord_bits(a), coord_bits(b), coord_bits(c), coord_bits(a)]
}

/// The result of converting a geometry at a resolution, under a containment
/// mode for its areas.
pub open spec fn cells(g: Geometry, res: u8, mode: Mode) -> Result<
    Set<u64>,
    ConversionError,
>
    decreases g,
{
    match g {
        Geometry::Point(c) => in_shape(points_cells(seq![coord_bits(c)], res), Shape::Point),
        Geometry::Line(a, b) => in_shape(
            segments_cells(seq![(coord_bits(a), coord_bits(b))], res),
            Shape::Line,
        ),
        Geometry::LineString(cs) => in_shape(
            segments_cells(segments(coords_bits(cs@)), res),
            Shape::LineString,
        ),
        Geometry::Polygon(p) => in_shape(
            polygons_cells(seq![polygon_bits(p)], res, mode),
            Shape::Polygon,
        ),
        Geometry::MultiPoint(cs) => in_shape(points_cells(coords_bits(cs@), res), Shape::MultiPoint),
        Geometry::MultiLineString(ls) => in_shape(
            paths_cells(ls@.map_values(|l: Vec<Coord>| coords_bits(l@)), res),
            Shape::MultiLineString,
        ),
        Geometry::MultiPolygon(ps) => in_shape(
            polygons_cells(ps@.map_values(|p: crate::geometry::Polygon| polygon_bits(p)), res, mode),
            Shape::MultiPolygon,
        ),
        Geometry::Rect(a, b) => in_shape(
            polygons_cells(
                seq![(rect_ring(coord_bits(a), coord_bits(b)), Seq::<Seq<(u64, u64)>>::empty())],
                res,
                mode,
            ),
            Shape::Rect,
        ),
        Geometry::Triangle(a, b, c) => in_shape(
            polygons_cells(
                seq![(triangle_ring(a, b, c), Seq::<Seq<(u64, u64)>>::empty())],
                res,
                mode,
            ),
            Shape::Triangle,
        ),
        Geometry::GeometryCollection(gs) => collection_cells(gs@, res, mode),
    }
}

/// The union of the cells of a sequence of geometries, or the failure of the
/// first one that fails.
pub open spec fn collection_cells(gs: Seq<Geometry>, res: u8, mode: Mode) -> Result<
    Set<u64>,
    ConversionError,
>
    decreases gs,
{
    if gs.len() == 0 {
        Ok(Set::empty())
    } else {
        match collection_cells(gs.drop_last(), res, mode) {
            Err(e) => Err(e),
            Ok(s) => match cells(gs.last(), res, mode) {
                Err(e) => Err(e),
                Ok(t) => Ok(s.union(t)),
            },
        }
    }
}

/// A failure in a prefix of a sequence of points is the failure of the whole.
pub proof fn lemma_points_prefix(cs: Seq<(u64, u64)>, res: u8, k: int)
    requires
        0 <= k <= cs.len(),
        points_cells(cs.take(k), res) is Err,
    ensures
        points_cells(cs, res) == points_cells(cs.take(k), res),
    decreases cs.len() - k,
{
    if k < cs.len() {
        assert(cs.take(k + 1).drop_last() =~= cs.take(k));
        lemma_points_prefix(cs, res, k + 1);
    } else {
        assert(cs.take(k) =~= cs);
    }
}

/// A failure in a prefix of a sequence of segments is the failure of the
/// whole.
pub proof fn lemma_segments_prefix(segs: Seq<((u64, u64), (u64, u64))>, res: u8, k: int)
    requires
        0 <= k <= segs.len(),
        segments_cells(segs.take(k), res) is Err,
    ensures
        segments_cells(segs, res) == segments_cells(segs.take(k), res),
    decreases segs.len() - k,
{
    if k < segs.len() {
        assert(segs.take(k + 1).drop_last() =~= segs.take(k));
        lemma_segments_prefix(segs, res, k + 1);
    } else {
        assert(segs.take(k) =~= segs);
    }
}

/// A failure in a prefix of a sequence of paths is the failure of the whole.
pub proof fn lemma_paths_prefix(ls: Seq<Seq<(u64, u64)>>, res: u8, k: int)
    requires
        0 <= k <= ls.len(),
        paths_cells(ls.take(k), res) is Err,
    ensures
        paths_cells(ls, res) == paths_cells(ls.take(k), res),
    decreases ls.len() - k,
{
    if k < ls.len() {
        assert(ls.take(k + 1).drop_last() =~= ls.take(k));
        lemma_paths_prefix(ls, res, k + 1);
    } else {
        assert(ls.take(k) =~= ls);
    }
}

/// A failure in a prefix of a batch of polygons is the failure of the whole.
pub proof fn lemma_polygons_prefix(ps: Seq<(Seq<(u64, u64)>, Seq<Seq<(u64, u64)>>)>, k: int)
    requires
        0 <= k <= ps.len(),
        polygons_failure(ps.take(k)) is Some,
    ensures
        polygons_failure(ps) == polygons_failure(ps.take(k)),
    decreases ps.len() - k,
{
    if k < ps.len() {
        assert(ps.take(k + 1).drop_last() =~= ps.take(k));
        lemma_polygons_prefix(ps, k + 1);
    } else {
        assert(ps.take(k) =~= ps);
    }
}

/// A failure in a prefix of a collection is the failure of the whole.
pub proof fn lemma_collection_prefix(gs: Seq<Geometry>, res: u8, mode: Mode, k: int)
    requires
        0 <= k <= gs.len(),
        collection_cells(gs.take(k), res, mode) is Err,
    ensures
        collection_cells(gs, res, mode) == collection_cells(gs.take(k), res, mode),
    decreases gs.len() - k,
{
    if k < gs.len() {
        assert(gs.take(k + 1).drop_last() =~= gs.take(k));
        lemma_collection_prefix(gs, res, mode, k + 1);
    } else {
        assert(gs.take(k) =~= gs);
    }
}

} // verus!
