//! Properties of the conversion, proved from its definition.

use vstd::prelude::*;

use crate::coord::bits_in_domain;
use crate::geometry::{
    coords_bits, polygon_bits, ConversionError, Mode, ErrorKind, Geometry, Polygon, Shape,
};
use crate::model::{
    cells, collection_cells, lemma_collection_prefix, lemma_points_prefix, point_lookup,
    points_cells, triangle_ring, MemberError,
};
use crate::outside::{cell_at, coord_bits, rect_ring, Coord};

verus! {

/// Whether two conversions agree: the same cells when both succeed, the same
/// kind of failure at the same member when both fail.
pub open spec fn same_outcome(
    r1: Result<Set<u64>, ConversionError>,
    r2: Result<Set<u64>, ConversionError>,
) -> bool {
    match (r1, r2) {
        (Ok(s1), Ok(s2)) => s1 == s2,
        (Err(e1), Err(e2)) => e1.kind == e2.kind && e1.member == e2.member,
        _ => false,
    }
}

/// The cells that the point lookup gives for each of a sequence of
/// coordinates in the domain.
pub open spec fn lookups(cs: Seq<(u64, u64)>, res: u8) -> Seq<u64> {
    cs.map_values(|c: (u64, u64)| cell_at(c, res))
}

/// A point converts to the single cell that the point lookup gives, and
/// fails, with an invalid coordinate, exactly where the lookup gives none.
pub proof fn lemma_point_is_lookup(c: Coord, res: u8, mode: Mode)
    ensures
        cells(Geometry::Point(c), res, mode) == match point_lookup(coord_bits(c), res) {
            Some(cell) => Ok::<Set<u64>, ConversionError>(set![cell]),
            None => Err(
                ConversionError { kind: ErrorKind::InvalidCoordinate, shape: Shape::Point, member: 0 },
            ),
        },
{
    let s = seq![coord_bits(c)];
    assert(s.drop_last() =~= Seq::empty());
    assert(points_cells(s.drop_last(), res) == Ok::<Set<u64>, MemberError>(Set::empty()));
    assert(s.last() == coord_bits(c));
    assert(Set::<u64>::empty().insert(cell_at(s.last(), res)) =~= set![cell_at(s.last(), res)]);
}

/// Points of the domain convert to the set of their lookups.
proof fn lemma_points_in_domain(cs: Seq<(u64, u64)>, res: u8)
    requires
        forall|i: int| 0 <= i < cs.len() ==> bits_in_domain(#[trigger] cs[i]),
    ensures
        points_cells(cs, res) == Ok::<Set<u64>, MemberError>(lookups(cs, res).to_set()),
    decreases cs.len(),
{
    if cs.len() > 0 {
        let init = cs.drop_last();
        lemma_points_in_domain(init, res);
        assert(lookups(cs, res) =~= lookups(init, res).push(cell_at(cs.last(), res)));
        lookups(init, res).lemma_push_to_set_commute(cell_at(cs.last(), res));
    } else {
        assert(lookups(cs, res).to_set() =~= Set::empty());
    }
}

/// A multi-point converts to the union of the lookups of its points, a set
/// of at most as many cells as there are points. It fails, returning no
/// cells, exactly when one of its points is outside the domain, and then
/// names the first such point, whatever the points before it gave.
pub proof fn lemma_multi_point_is_union(cs: Vec<Coord>, res: u8, mode: Mode)
    ensures
        ({
            let bits = coords_bits(cs@);
            &&& (forall|i: int| 0 <= i < bits.len() ==> #[trigger] point_lookup(bits[i], res) is Some)
                ==> {
                &&& cells(Geometry::MultiPoint(cs), res, mode) == Ok::<Set<u64>, ConversionError>(
                    lookups(bits, res).to_set(),
                )
                &&& lookups(bits, res).to_set().len() <= cs.len()
            }
            &&& forall|i: int|
                0 <= i < bits.len() && #[trigger] point_lookup(bits[i], res) is None && (forall|j: int|
                    0 <= j < i ==> point_lookup(bits[j], res) is Some) ==> cells(
                    Geometry::MultiPoint(cs),
                    res,
                    mode,
                ) == Err::<Set<u64>, ConversionError>(
                    ConversionError {
                        kind: ErrorKind::InvalidCoordinate,
                        shape: Shape::MultiPoint,
                        member: i as usize,
                    },
                )
        }),
{
    let bits = coords_bits(cs@);
    if forall|i: int| 0 <= i < bits.len() ==> #[trigger] point_lookup(bits[i], res) is Some {
        assert forall|i: int| 0 <= i < bits.len() implies bits_in_domain(#[trigger] bits[i]) by {
            assert(point_lookup(bits[i], res) is Some);
        }
        lemma_points_in_domain(bits, res);
        lookups(bits, res).lemma_cardinality_of_set();
    }
    assert forall|i: int|
        0 <= i < bits.len() && #[trigger] point_lookup(bits[i], res) is None && (forall|j: int|
            0 <= j < i ==> point_lookup(bits[j], res) is Some) implies cells(
        Geometry::MultiPoint(cs),
        res,
        mode,
    ) == Err::<Set<u64>, ConversionError>(
        ConversionError {
            kind: ErrorKind::InvalidCoordinate,
            shape: Shape::MultiPoint,
            member: i as usize,
        },
    ) by {
        let init = bits.take(i);
        assert forall|j: int| 0 <= j < init.len() implies bits_in_domain(#[trigger] init[j]) by {
            assert(point_lookup(bits[j], res) is Some);
        }
        lemma_points_in_domain(init, res);
        assert(bits.take(i + 1).drop_last() =~= init);
        lemma_points_prefix(bits, res, i + 1);
    }
}

/// A collection converts to the union of its members' cells when every
/// member converts, and otherwise fails as its first failing member does.
pub proof fn lemma_collection_is_union(gs: Vec<Geometry>, res: u8, mode: Mode)
    ensures
        ({
            let r = cells(Geometry::GeometryCollection(gs), res, mode);
            &&& r is Ok <==> forall|i: int| 0 <= i < gs.len() ==> #[trigger] cells(gs@[i], res, mode) is Ok
            &&& r is Ok ==> forall|x: u64|
                r->Ok_0.contains(x) <==> exists|i: int|
                    0 <= i < gs.len() && #[trigger] cells(gs@[i], res, mode)->Ok_0.contains(x)
            &&& r is Err ==> exists|i: int|
                0 <= i < gs.len() && #[trigger] cells(gs@[i], res, mode) == r && forall|j: int|
                    0 <= j < i ==> cells(gs@[j], res, mode) is Ok
        }),
{
    lemma_collection_seq(gs@, res, mode);
}

/// The same, for the members as a sequence.
proof fn lemma_collection_seq(gs: Seq<Geometry>, res: u8, mode: Mode)
    ensures
        ({
            let r = collection_cells(gs, res, mode);
            &&& r is Ok <==> forall|i: int| 0 <= i < gs.len() ==> #[trigger] cells(gs[i], res, mode) is Ok
            &&& r is Ok ==> forall|x: u64|
                r->Ok_0.contains(x) <==> exists|i: int|
                    0 <= i < gs.len() && #[trigger] cells(gs[i], res, mode)->Ok_0.contains(x)
            &&& r is Err ==> exists|i: int|
                0 <= i < gs.len() && #[trigger] cells(gs[i], res, mode) == r && forall|j: int|
                    0 <= j < i ==> cells(gs[j], res, mode) is Ok
        }),
    decreases gs.len(),
{
    if gs.len() > 0 {
        let init = gs.drop_last();
        let n = gs.len() - 1;
        lemma_collection_seq(init, res, mode);
        assert forall|i: int| 0 <= i < init.len() implies init[i] == gs[i] by {}
        let r = collection_cells(gs, res, mode);
        if collection_cells(init, res, mode) is Ok {
            if cells(gs.last(), res, mode) is Ok {
                assert forall|x: u64|
                    r->Ok_0.contains(x) implies exists|i: int|
                        0 <= i < gs.len() && #[trigger] cells(gs[i], res, mode)->Ok_0.contains(x) by {
                    if !cells(gs[n], res, mode)->Ok_0.contains(x) {
                        let i = choose|i: int|
                            0 <= i < init.len() && #[trigger] cells(init[i], res, mode)->Ok_0.contains(x);
                        assert(cells(gs[i], res, mode)->Ok_0.contains(x));
                    }
                }
                assert forall|x: u64|
                    (exists|i: int|
                        0 <= i < gs.len() && #[trigger] cells(gs[i], res, mode)->Ok_0.contains(x))
                        implies r->Ok_0.contains(x) by {
                    let i = choose|i: int|
                        0 <= i < gs.len() && #[trigger] cells(gs[i], res, mode)->Ok_0.contains(x);
                    if i < n {
                        assert(cells(init[i], res, mode)->Ok_0.contains(x));
                    }
                }
            } else {
                assert(cells(gs[n], res, mode) == r);
            }
        } else {
            let i = choose|i: int|
                0 <= i < init.len() && #[trigger] cells(init[i], res, mode) == collection_cells(init, res, mode)
                    && forall|j: int| 0 <= j < i ==> cells(init[j], res, mode) is Ok;
            assert(cells(gs[i], res, mode) == r);
            assert(!(cells(init[i], res, mode) is Ok));
        }
    }
}

/// A rectangle converts as the polygon that it turns into does.
pub proof fn lemma_rect_as_polygon(a: Coord, b: Coord, p: Polygon, res: u8, mode: Mode)
    requires
        polygon_bits(p) == (rect_ring(coord_bits(a), coord_bits(b)), Seq::<Seq<(u64, u64)>>::empty()),
    ensures
        same_outcome(
            cells(Geometry::Rect(a, b), res, mode),
            cells(Geometry::Polygon(p), res, mode),
        ),
{
}

/// A triangle converts as the polygon that it turns into (its three
/// vertices, closed on the first) does.
pub proof fn lemma_triangle_as_polygon(a: Coord, b: Coord, c: Coord, p: Polygon, res: u8, mode: Mode)
    requires
        polygon_bits(p) == (triangle_ring(a, b, c), Seq::<Seq<(u64, u64)>>::empty()),
    ensures
        same_outcome(
            cells(Geometry::Triangle(a, b, c), res, mode),
            cells(Geometry::Polygon(p), res, mode),
        ),
{
}

} // verus!
