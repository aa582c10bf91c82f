//! Converting a geometry into the set of cells that represent it.

use std::collections::HashSet;
use vstd::prelude::*;

use crate::coord::{in_domain, lemma_in_domain_finite, ring_in_domain};
use crate::geometry::{
    coords_bits, polygon_bits, ConversionError, Mode, ErrorKind, Geometry, Polygon, Shape,
};
use crate::model::{
    cells, collection_cells, in_shape, lemma_collection_prefix, lemma_paths_prefix,
    lemma_points_prefix, lemma_polygons_prefix, lemma_segments_prefix, point_lookup, paths_cells, points_cells, polygon_in_domain, polygons_cells, polygons_failure,
    segment_result, segments, segments_cells, MemberError,
};
use crate::outside::{
    cell_at, coord_bits, coverage, finite, new_tiler, plot_segment, point_to_cell, polygon_accepted, tiler_add,
    rect_to_polygon, tiler_coverage, tiler_polygons, tiler_settings, Coord,
};

verus! {

broadcast use vstd::std_specs::hash::group_hash_axioms, vstd::std_specs::vec::group_vec_axioms;

/// Adds every cell of a sequence to a set.
fn insert_all(acc: &mut HashSet<u64>, cells: &Vec<u64>)
    ensures
        final(acc)@ == old(acc)@.union(cells@.to_set()),
{
    let ghost start = acc@;
    let mut i: usize = 0;
    while i < cells.len()
        invariant
            i <= cells.len(),
            acc@ == start.union(cells@.take(i as int).to_set()),
        decreases cells.len() - i,
    {
        proof {
            assert(cells@.take(i as int + 1) =~= cells@.take(i as int).push(cells@[i as int]));
            cells@.take(i as int).lemma_push_to_set_commute(cells@[i as int]);
            assert(start.union(cells@.take(i as int).to_set()).insert(cells@[i as int])
                =~= start.union(cells@.take(i as int + 1).to_set()));
        }
        acc.insert(cells[i]);
        i = i + 1;
    }
    assert(cells@.take(cells.len() as int) =~= cells@);
}

/// Adds the cell of every point to `acc`; fails on the first point outside
/// the domain, with its position.
fn add_points(cs: &Vec<Coord>, res: u8, acc: &mut HashSet<u64>) -> (r: Result<(), (ErrorKind, usize)>)
    requires
        res <= 15,
    ensures
        match (r, points_cells(coords_bits(cs@), res)) {
            (Ok(_), Ok(s)) => final(acc)@ == old(acc)@.union(s),
            (Err((k, i)), Err((k2, i2))) => k == k2 && i as int == i2,
            _ => false,
        },
{
    let ghost bits = coords_bits(cs@);
    let ghost start = acc@;
    let ghost mut s: Set<u64> = Set::empty();
    let mut i: usize = 0;
    while i < cs.len()
        invariant
            i <= cs.len(),
            res <= 15,
            bits == coords_bits(cs@),
            points_cells(bits.take(i as int), res) == Ok::<Set<u64>, MemberError>(s),
            acc@ == start.union(s),
        decreases cs.len() - i,
    {
        assert(bits.take(i as int + 1).drop_last() =~= bits.take(i as int));
        assert(bits.take(i as int + 1).last() == coord_bits(cs@[i as int]));
        if !in_domain(&cs[i]) {
            proof {
                lemma_points_prefix(bits, res, i as int + 1);
            }
            return Err((ErrorKind::InvalidCoordinate, i));
        }
        proof {
            lemma_in_domain_finite(coord_bits(cs@[i as int]));
        }
        if let Some(cell) = point_to_cell(&cs[i], res) {
            acc.insert(cell);
            proof {
                assert(start.union(s).insert(cell) =~= start.union(s.insert(cell)));
                s = s.insert(cell);
            }
        }
        i = i + 1;
    }
    assert(bits.take(cs.len() as int) =~= bits);
    Ok(())
}

/// Adds the cells of one segment to `acc`.
fn add_segment(a: &Coord, b: &Coord, res: u8, acc: &mut HashSet<u64>) -> (r: Result<(), ErrorKind>)
    requires
        res <= 15,
    ensures
        match (r, segment_result(coord_bits(*a), coord_bits(*b), res)) {
            (Ok(_), Ok(t)) => final(acc)@ == old(acc)@.union(t),
            (Err(k), Err(k2)) => k == k2,
            _ => false,
        },
{
    if !(in_domain(a) && in_domain(b)) {
        return Err(ErrorKind::InvalidCoordinate);
    }
    match plot_segment(a, b, res) {
        None => Err(ErrorKind::InvalidSegment),
        Some(path) => {
            insert_all(acc, &path);
            Ok(())
        },
    }
}

/// Adds the cells of every segment of a path to `acc`; fails on the first
/// failing segment, with its position.
fn add_path(cs: &Vec<Coord>, res: u8, acc: &mut HashSet<u64>) -> (r: Result<(), (ErrorKind, usize)>)
    requires
        res <= 15,
    ensures
        match (r, segments_cells(segments(coords_bits(cs@)), res)) {
            (Ok(_), Ok(s)) => final(acc)@ == old(acc)@.union(s),
            (Err((k, i)), Err((k2, i2))) => k == k2 && i as int == i2,
            _ => false,
        },
{
    let ghost segs = segments(coords_bits(cs@));
    let ghost start = acc@;
    let ghost mut s: Set<u64> = Set::empty();
    if cs.len() == 0 {
        assert(segs.take(0) =~= segs);
        return Ok(());
    }
    let n: usize = cs.len() - 1;
    let mut i: usize = 0;
    while i < n
        invariant
            i <= n,
            n == cs.len() - 1,
            n == segs.len(),
            res <= 15,
            segs == segments(coords_bits(cs@)),
            segments_cells(segs.take(i as int), res) == Ok::<Set<u64>, MemberError>(s),
            acc@ == start.union(s),
        decreases n - i,
    {
        assert(segs.take(i as int + 1).drop_last() =~= segs.take(i as int));
        assert(segs.take(i as int + 1).last() == (coord_bits(cs@[i as int]), coord_bits(
            cs@[i as int + 1],
        )));
        let ghost before = acc@;
        match add_segment(&cs[i], &cs[i + 1], res, acc) {
            Err(k) => {
                proof {
                    lemma_segments_prefix(segs, res, i as int + 1);
                }
                return Err((k, i));
            },
            Ok(()) => {
                proof {
                    let t = segment_result(segs[i as int].0, segs[i as int].1, res)->Ok_0;
                    assert(start.union(s).union(t) =~= start.union(s.union(t)));
                    s = s.union(t);
                }
            },
        }
        i = i + 1;
    }
    assert(segs.take(n as int) =~= segs);
    Ok(())
}

/// Adds the cells of every path to `acc`; fails on the first failing path,
/// with its position.
fn add_paths(ls: &Vec<Vec<Coord>>, res: u8, acc: &mut HashSet<u64>) -> (r: Result<
    (),
    (ErrorKind, usize),
>)
    requires
        res <= 15,
    ensures
        match (r, paths_cells(ls@.map_values(|l: Vec<Coord>| coords_bits(l@)), res)) {
            (Ok(_), Ok(s)) => final(acc)@ == old(acc)@.union(s),
            (Err((k, i)), Err((k2, i2))) => k == k2 && i as int == i2,
            _ => false,
        },
{
    let ghost paths = ls@.map_values(|l: Vec<Coord>| coords_bits(l@));
    let ghost start = acc@;
    let ghost mut s: Set<u64> = Set::empty();
    let mut i: usize = 0;
    while i < ls.len()
        invariant
            i <= ls.len(),
            res <= 15,
            paths == ls@.map_values(|l: Vec<Coord>| coords_bits(l@)),
            paths_cells(paths.take(i as int), res) == Ok::<Set<u64>, MemberError>(s),
            acc@ == start.union(s),
        decreases ls.len() - i,
    {
        assert(paths.take(i as int + 1).drop_last() =~= paths.take(i as int));
        assert(paths.take(i as int + 1).last() == coords_bits(ls@[i as int]@));
        match add_path(&ls[i], res, acc) {
            Err((k, _)) => {
                proof {
                    lemma_paths_prefix(paths, res, i as int + 1);
                }
                return Err((k, i));
            },
            Ok(()) => {
                proof {
                    let t = segments_cells(segments(paths[i as int]), res)->Ok_0;
                    assert(start.union(s).union(t) =~= start.union(s.union(t)));
                    s = s.union(t);
                }
            },
        }
        i = i + 1;
    }
    assert(paths.take(ls.len() as int) =~= paths);
    Ok(())
}

/// Tests whether every vertex of a polygon lies in the domain.
fn polygon_in_domain_exec(p: &Polygon) -> (r: bool)
    ensures
        r == polygon_in_domain(polygon_bits(*p)),
{
    let ghost pb = polygon_bits(*p);
    if !ring_in_domain(&p.exterior) {
        return false;
    }
    let mut i: usize = 0;
    while i < p.interiors.len()
        invariant
            i <= p.interiors.len(),
            pb == polygon_bits(*p),
            crate::coord::all_in_domain(pb.0),
            forall|j: int| 0 <= j < i ==> crate::coord::all_in_domain(#[trigger] pb.1[j]),
        decreases p.interiors.len() - i,
    {
        if !ring_in_domain(&p.interiors[i]) {
            assert(!crate::coord::all_in_domain(pb.1[i as int]));
            return false;
        }
        i = i + 1;
    }
    true
}

/// Checks a polygon and hands it to the tiler.
fn tile_polygon(t: &mut h3o::geom::Tiler, p: &Polygon) -> (r: Result<(), ErrorKind>)
    ensures
        tiler_settings(*final(t)) == tiler_settings(*old(t)),
        match r {
            Ok(_) => {
                &&& polygon_in_domain(polygon_bits(*p))
                &&& polygon_accepted(polygon_bits(*p))
                &&& tiler_polygons(*final(t)) == tiler_polygons(*old(t)).push(polygon_bits(*p))
            },
            Err(k) => if !polygon_in_domain(polygon_bits(*p)) {
                k == ErrorKind::InvalidCoordinate
            } else {
                !polygon_accepted(polygon_bits(*p)) && k == ErrorKind::InvalidPolygon
            },
        },
{
    if !polygon_in_domain_exec(p) {
        return Err(ErrorKind::InvalidCoordinate);
    }
    if tiler_add(t, p) {
        Ok(())
    } else {
        Err(ErrorKind::InvalidPolygon)
    }
}

/// Adds the tiler's coverage to `acc`.
fn add_coverage(t: h3o::geom::Tiler, acc: &mut HashSet<u64>)
    ensures
        final(acc)@ == old(acc)@.union(
            coverage(tiler_polygons(t), tiler_settings(t).0, tiler_settings(t).1).to_set(),
        ),
{
    let cells = tiler_coverage(t);
    insert_all(acc, &cells);
}

/// Tiles one polygon, the only member of a shape, and adds its cells to
/// `acc`.
fn add_polygon(
    p: &Polygon,
    shape: Shape,
    res: u8,
    mode: Mode,
    acc: &mut HashSet<u64>,
) -> (r: Result<(), ConversionError>)
    requires
        res <= 15,
    ensures
        match (r, in_shape(polygons_cells(seq![polygon_bits(*p)], res, mode), shape)) {
            (Ok(_), Ok(s)) => final(acc)@ == old(acc)@.union(s),
            (Err(e), Err(e2)) => e == e2,
            _ => false,
        },
{
    let ghost ps = seq![polygon_bits(*p)];
    assert(ps.drop_last() =~= Seq::empty());
    assert(polygons_failure(ps.drop_last()) is None);
    assert(ps.last() == polygon_bits(*p));
    let mut t = new_tiler(res, h3o::geom::ContainmentMode::from(mode));
    match tile_polygon(&mut t, p) {
        Err(kind) => Err(ConversionError { kind, shape, member: 0 }),
        Ok(()) => {
            assert(tiler_polygons(t) =~= ps);
            add_coverage(t, acc);
            Ok(())
        },
    }
}

/// Tiles a batch of polygons together and adds their cells to `acc`; fails
/// on the first polygon that is outside the domain or refused.
fn add_polygons(
    ps: &Vec<Polygon>,
    res: u8,
    mode: Mode,
    acc: &mut HashSet<u64>,
) -> (r: Result<(), (ErrorKind, usize)>)
    requires
        res <= 15,
    ensures
        match (r, polygons_cells(ps@.map_values(|p: Polygon| polygon_bits(p)), res, mode)) {
            (Ok(_), Ok(s)) => final(acc)@ == old(acc)@.union(s),
            (Err((k, i)), Err((k2, i2))) => k == k2 && i as int == i2,
            _ => false,
        },
{
    let ghost all = ps@.map_values(|p: Polygon| polygon_bits(p));
    let mut t = new_tiler(res, h3o::geom::ContainmentMode::from(mode));
    let mut i: usize = 0;
    while i < ps.len()
        invariant
            i <= ps.len(),
            all == ps@.map_values(|p: Polygon| polygon_bits(p)),
            polygons_failure(all.take(i as int)) is None,
            tiler_polygons(t) == all.take(i as int),
            tiler_settings(t) == (res, crate::geometry::tiler_mode(mode)),
        decreases ps.len() - i,
    {
        assert(all.take(i as int + 1).drop_last() =~= all.take(i as int));
        assert(all.take(i as int + 1).last() == polygon_bits(ps@[i as int]));
        match tile_polygon(&mut t, &ps[i]) {
            Err(k) => {
                proof {
                    lemma_polygons_prefix(all, i as int + 1);
                }
                return Err((k, i));
            },
            Ok(()) => {
                assert(tiler_polygons(t) =~= all.take(i as int + 1));
            },
        }
        i = i + 1;
    }
    assert(all.take(ps.len() as int) =~= all);
    add_coverage(t, acc);
    Ok(())
}

/// Places a member's failure in its shape.
fn member_error(e: (ErrorKind, usize), shape: Shape) -> (r: ConversionError)
    ensures
        r == (ConversionError { kind: e.0, shape, member: e.1 }),
{
    ConversionError { kind: e.0, shape, member: e.1 }
}

/// Adds the cells of a geometry to `acc`, or fails as `cells` says.
fn add_cells(g: &Geometry, res: u8, mode: Mode, acc: &mut HashSet<u64>) -> (r: Result<
    (),
    ConversionError,
>)
    requires
        res <= 15,
    ensures
        match (r, cells(*g, res, mode)) {
            (Ok(_), Ok(s)) => final(acc)@ == old(acc)@.union(s),
            (Err(e), Err(e2)) => e == e2,
            _ => false,
        },
    decreases g,
{
    match g {
        Geometry::Point(c) => {
            let points = vec![*c];
            assert(coords_bits(points@) =~= seq![coord_bits(*c)]);
            match add_points(&points, res, acc) {
                Ok(()) => Ok(()),
                Err(e) => Err(member_error(e, Shape::Point)),
            }
        },
        Geometry::MultiPoint(cs) => match add_points(cs, res, acc) {
            Ok(()) => Ok(()),
            Err(e) => Err(member_error(e, Shape::MultiPoint)),
        },
        Geometry::Line(a, b) => {
            let ghost segs = seq![(coord_bits(*a), coord_bits(*b))];
            assert(segs.drop_last() =~= Seq::empty());
            assert(segments_cells(segs.drop_last(), res) == Ok::<Set<u64>, MemberError>(
                Set::empty(),
            ));
            let ghost start = acc@;
            match add_segment(a, b, res, acc) {
                Ok(()) => {
                    assert(start.union(Set::empty().union(
                        segment_result(coord_bits(*a), coord_bits(*b), res)->Ok_0,
                    )) =~= acc@);
                    Ok(())
                },
                Err(kind) => Err(ConversionError { kind, shape: Shape::Line, member: 0 }),
            }
        },
        Geometry::LineString(cs) => match add_path(cs, res, acc) {
            Ok(()) => Ok(()),
            Err(e) => Err(member_error(e, Shape::LineString)),
        },
        Geometry::MultiLineString(ls) => match add_paths(ls, res, acc) {
            Ok(()) => Ok(()),
            Err(e) => Err(member_error(e, Shape::MultiLineString)),
        },
        Geometry::Polygon(p) => add_polygon(p, Shape::Polygon, res, mode, acc),
        Geometry::MultiPolygon(ps) => match add_polygons(ps, res, mode, acc) {
            Ok(()) => Ok(()),
            Err(e) => Err(member_error(e, Shape::MultiPolygon)),
        },
        Geometry::Rect(a, b) => {
            let p = rect_to_polygon(a, b);
            assert(p.interiors@.map_values(|r: Vec<Coord>| coords_bits(r@)) =~= Seq::empty());
            add_polygon(&p, Shape::Rect, res, mode, acc)
        },
        Geometry::Triangle(a, b, c) => {
            let p = Polygon { exterior: vec![*a, *b, *c, *a], interiors: Vec::new() };
            assert(coords_bits(p.exterior@) =~= crate::model::triangle_ring(*a, *b, *c));
            assert(p.interiors@.map_values(|r: Vec<Coord>| coords_bits(r@)) =~= Seq::empty());
            add_polygon(&p, Shape::Triangle, res, mode, acc)
        },
        Geometry::GeometryCollection(gs) => {
            let ghost start = acc@;
            let ghost mut s: Set<u64> = Set::empty();
            let mut i: usize = 0;
            while i < gs.len()
                invariant
                    i <= gs.len(),
                    res <= 15,
                    *g == Geometry::GeometryCollection(*gs),
                    collection_cells(gs@.take(i as int), res, mode) == Ok::<
                        Set<u64>,
                        ConversionError,
                    >(s),
                    acc@ == start.union(s),
                decreases gs.len() - i,
            {
                assert(gs@.take(i as int + 1).drop_last() =~= gs@.take(i as int));
                assert(gs@.take(i as int + 1).last() == gs@[i as int]);
                match add_cells(&gs[i], res, mode, acc) {
                    Err(e) => {
                        proof {
                            lemma_collection_prefix(gs@, res, mode, i as int + 1);
                        }
                        return Err(e);
                    },
                    Ok(()) => {
                        proof {
                            let t = cells(gs@[i as int], res, mode)->Ok_0;
                            assert(start.union(s).union(t) =~= start.union(s.union(t)));
                            s = s.union(t);
                        }
                    },
                }
                i = i + 1;
            }
            assert(gs@.take(gs.len() as int) =~= gs@);
            Ok(())
        },
    }
}

/// Converts a geometry into the set of cells that represent it at
/// `resolution` (0 to 15), tiling its areas under `mode`.
///
/// Points map to the cell that contains them; lines to the cells of the
/// grid path of each of their segments; polygons, rectangles and triangles
/// to their tiling; a collection to the union of its members' cells. The
/// conversion fails on the first member (in order) that cannot be
/// converted, and then returns no cells at all.
pub fn geometry_to_cells(geometry: &Geometry, resolution: u8, mode: Mode) -> (r: Result<
    HashSet<u64>,
    ConversionError,
>)
    requires
        resolution <= 15,
    ensures
        match r {
            Ok(set) => cells(*geometry, resolution, mode) == Ok::<Set<u64>, ConversionError>(set@),
            Err(e) => cells(*geometry, resolution, mode) == Err::<Set<u64>, ConversionError>(e),
        },
{
    let mut acc: HashSet<u64> = HashSet::new();
    match add_cells(geometry, resolution, mode, &mut acc) {
        Ok(()) => {
            let ghost s = cells(*geometry, resolution, mode)->Ok_0;
            assert(Set::<u64>::empty().union(s) =~= s);
            assert(acc@ =~= s);
            Ok(acc)
        },
        Err(e) => Err(e),
    }
}

/// Looks up the cell of the given resolution that contains a coordinate;
/// `None` for a coordinate outside the latitude/longitude domain.
pub fn lookup_point(c: &Coord, resolution: u8) -> (r: Option<u64>)
    requires
        resolution <= 15,
    ensures
        r == point_lookup(coord_bits(*c), resolution),
{
    if !in_domain(c) {
        return None;
    }
    proof {
        lemma_in_domain_finite(coord_bits(*c));
    }
    point_to_cell(c, resolution)
}

/// Looks up the cell of the given resolution that contains a coordinate,
/// whatever its range; `None` only for a coordinate that is not finite.
pub fn lookup_cell(c: &Coord, resolution: u8) -> (r: Option<u64>)
    requires
        resolution <= 15,
    ensures
        r == (if finite(coord_bits(*c).0) && finite(coord_bits(*c).1) {
            Some(cell_at(coord_bits(*c), resolution))
        } else {
            None::<u64>
        }),
{
    point_to_cell(c, resolution)
}

} // verus!
