use std::collections::HashSet;

use h3o::geom::{ContainmentMode as TilerMode, PlotterBuilder, TilerBuilder};
use h3o::{LatLng, Resolution};
use h3o_cli::convert::{geometry_to_cells, lookup_cell, lookup_point};
use h3o_cli::geometry::{ConversionError, ErrorKind, Geometry, Mode, Polygon, Shape};
use h3o_cli::outside::Coord;

fn at(lng: f64, lat: f64) -> Coord {
    Coord { inner: geo_types::Coord { x: lng, y: lat } }
}

fn ring(points: &[(f64, f64)]) -> Vec<Coord> {
    points.iter().map(|&(x, y)| at(x, y)).collect()
}

fn square(x0: f64, y0: f64, side: f64) -> Polygon {
    Polygon {
        exterior: ring(&[
            (x0, y0),
            (x0 + side, y0),
            (x0 + side, y0 + side),
            (x0, y0 + side),
            (x0, y0),
        ]),
        interiors: Vec::new(),
    }
}

fn direct_cell(lng: f64, lat: f64, res: Resolution) -> u64 {
    u64::from(LatLng::new(lat, lng).unwrap().to_cell(res))
}

fn direct_tiling(polygons: Vec<geo_types::Polygon>, res: Resolution) -> HashSet<u64> {
    let mut tiler = TilerBuilder::new(res).build();
    tiler.add_batch(polygons).unwrap();
    tiler.into_coverage().map(u64::from).collect()
}

fn geo_square(x0: f64, y0: f64, side: f64) -> geo_types::Polygon {
    geo_types::Polygon::new(
        geo_types::LineString::from(vec![
            (x0, y0),
            (x0 + side, y0),
            (x0 + side, y0 + side),
            (x0, y0 + side),
            (x0, y0),
        ]),
        vec![],
    )
}

fn convert(g: &Geometry, res: u8) -> Result<HashSet<u64>, ConversionError> {
    geometry_to_cells(g, res, Mode::default())
}

#[test]
fn point_at_origin_is_one_lookup() {
    let cells = convert(&Geometry::Point(at(0.0, 0.0)), 5).unwrap();
    let expected: HashSet<u64> = [direct_cell(0.0, 0.0, Resolution::Five)].into_iter().collect();
    assert_eq!(cells, expected);
    assert_eq!(cells.len(), 1);
}

#[test]
fn point_matches_lookup() {
    for &(lng, lat) in &[(2.35, 48.85), (-122.4, 37.7), (179.9, -89.9), (-180.0, 90.0)] {
        let cells = convert(&Geometry::Point(at(lng, lat)), 9).unwrap();
        let cell = lookup_point(&at(lng, lat), 9).unwrap();
        assert_eq!(cell, direct_cell(lng, lat, Resolution::Nine));
        assert_eq!(cells, [cell].into_iter().collect::<HashSet<u64>>());
    }
}

#[test]
fn lookup_rejects_out_of_domain() {
    assert_eq!(lookup_point(&at(0.0, 1000.0), 5), None);
    assert_eq!(lookup_point(&at(180.5, 0.0), 5), None);
    assert_eq!(lookup_point(&at(f64::NAN, 0.0), 5), None);
    assert_eq!(lookup_point(&at(0.0, f64::INFINITY), 5), None);
    assert!(lookup_point(&at(-180.0, -90.0), 5).is_some());
}

#[test]
fn multi_point_is_union_of_lookups() {
    let points = vec![at(2.35, 48.85), at(2.3501, 48.8501), at(-122.4, 37.7)];
    let cells = convert(&Geometry::MultiPoint(points), 2).unwrap();
    let expected: HashSet<u64> = [
        direct_cell(2.35, 48.85, Resolution::Two),
        direct_cell(2.3501, 48.8501, Resolution::Two),
        direct_cell(-122.4, 37.7, Resolution::Two),
    ]
    .into_iter()
    .collect();
    assert_eq!(cells, expected);
    assert_eq!(cells.len(), 2);
}

#[test]
fn empty_multi_point_has_no_cells() {
    assert!(convert(&Geometry::MultiPoint(Vec::new()), 5).unwrap().is_empty());
}

#[test]
fn point_with_latitude_1000_fails() {
    let err = convert(&Geometry::Point(at(0.0, 1000.0)), 5).unwrap_err();
    assert_eq!(
        err,
        ConversionError { kind: ErrorKind::InvalidCoordinate, shape: Shape::Point, member: 0 }
    );
}

#[test]
fn multi_point_fails_after_valid_points() {
    let points = vec![at(0.0, 0.0), at(1.0, 1.0), at(0.0, 1000.0), at(2.0, 2000.0)];
    let err = convert(&Geometry::MultiPoint(points), 5).unwrap_err();
    assert_eq!(
        err,
        ConversionError { kind: ErrorKind::InvalidCoordinate, shape: Shape::MultiPoint, member: 2 }
    );
}

#[test]
fn line_matches_plotter() {
    let line = Geometry::Line(at(2.0, 48.0), at(2.1, 48.1));
    let cells = convert(&line, 9).unwrap();
    let mut plotter = PlotterBuilder::new(Resolution::Nine).build();
    plotter
        .add(geo_types::Line::new(
            geo_types::Coord { x: 2.0, y: 48.0 },
            geo_types::Coord { x: 2.1, y: 48.1 },
        ))
        .unwrap();
    let expected: HashSet<u64> =
        plotter.plot().map(|cell| u64::from(cell.unwrap())).collect();
    assert_eq!(cells, expected);
    assert!(cells.len() > 2);
}

#[test]
fn line_string_is_union_of_segments() {
    let path = Geometry::LineString(ring(&[(2.0, 48.0), (2.05, 48.05), (2.1, 48.0)]));
    let first = convert(&Geometry::Line(at(2.0, 48.0), at(2.05, 48.05)), 8).unwrap();
    let second = convert(&Geometry::Line(at(2.05, 48.05), at(2.1, 48.0)), 8).unwrap();
    let cells = convert(&path, 8).unwrap();
    assert_eq!(cells, first.union(&second).copied().collect::<HashSet<u64>>());
}

#[test]
fn short_line_string_has_no_cells() {
    assert!(convert(&Geometry::LineString(Vec::new()), 8).unwrap().is_empty());
    assert!(convert(&Geometry::LineString(ring(&[(2.0, 48.0)])), 8).unwrap().is_empty());
}

#[test]
fn line_string_reports_failing_segment() {
    let path = Geometry::LineString(ring(&[(2.0, 48.0), (2.05, 48.05), (2.1, 95.0)]));
    assert_eq!(
        convert(&path, 8).unwrap_err(),
        ConversionError { kind: ErrorKind::InvalidCoordinate, shape: Shape::LineString, member: 1 }
    );
}

#[test]
fn disjoint_segments_add_up() {
    let a = vec![at(2.0, 48.0), at(2.01, 48.01)];
    let b = vec![at(-74.0, 40.7), at(-74.01, 40.71)];
    let cells_a = convert(&Geometry::LineString(a.clone()), 9).unwrap();
    let cells_b = convert(&Geometry::LineString(b.clone()), 9).unwrap();
    let both = convert(&Geometry::MultiLineString(vec![a, b]), 9).unwrap();
    assert!(cells_a.is_disjoint(&cells_b));
    assert_eq!(both.len(), cells_a.len() + cells_b.len());
    assert_eq!(both, cells_a.union(&cells_b).copied().collect::<HashSet<u64>>());
}

#[test]
fn multi_line_string_reports_failing_line() {
    let lines = vec![ring(&[(2.0, 48.0), (2.01, 48.01)]), ring(&[(2.0, 48.0), (f64::NAN, 48.0)])];
    assert_eq!(
        convert(&Geometry::MultiLineString(lines), 9).unwrap_err(),
        ConversionError {
            kind: ErrorKind::InvalidCoordinate,
            shape: Shape::MultiLineString,
            member: 1,
        }
    );
}

#[test]
fn polygon_matches_tiler() {
    let cells = convert(&Geometry::Polygon(square(2.0, 48.0, 0.1)), 7).unwrap();
    assert_eq!(cells, direct_tiling(vec![geo_square(2.0, 48.0, 0.1)], Resolution::Seven));
    assert!(cells.len() > 10);
}

#[test]
fn polygon_modes_differ() {
    let polygon = square(2.0, 48.0, 0.1);
    let g = Geometry::Polygon(polygon);
    let centroid = geometry_to_cells(&g, 7, Mode::ContainsCentroid).unwrap();
    let inside = geometry_to_cells(&g, 7, Mode::ContainsBoundary).unwrap();
    let touching = geometry_to_cells(&g, 7, Mode::IntersectsBoundary).unwrap();
    let covers = geometry_to_cells(&g, 7, Mode::Covers).unwrap();
    assert!(inside.is_subset(&centroid));
    assert!(centroid.is_subset(&touching));
    assert!(inside.len() < touching.len());
    assert_eq!(covers, touching);
}

#[test]
fn tiny_polygon_covers_its_cell() {
    let g = Geometry::Polygon(square(2.0, 48.0, 0.00001));
    let covers = geometry_to_cells(&g, 3, Mode::Covers).unwrap();
    let expected: HashSet<u64> = [direct_cell(2.0, 48.0, Resolution::Three)].into_iter().collect();
    assert_eq!(covers, expected);
}

#[test]
fn polygon_with_short_ring_is_refused() {
    let p = Polygon { exterior: ring(&[(2.0, 48.0), (2.1, 48.1)]), interiors: Vec::new() };
    assert_eq!(
        convert(&Geometry::Polygon(p), 7).unwrap_err(),
        ConversionError { kind: ErrorKind::InvalidPolygon, shape: Shape::Polygon, member: 0 }
    );
}

#[test]
fn polygon_hole_outside_domain_is_refused() {
    let mut p = square(2.0, 48.0, 0.1);
    p.interiors.push(ring(&[(2.01, 48.01), (2.02, 91.0), (2.02, 48.02), (2.01, 48.01)]));
    assert_eq!(
        convert(&Geometry::Polygon(p), 7).unwrap_err(),
        ConversionError { kind: ErrorKind::InvalidCoordinate, shape: Shape::Polygon, member: 0 }
    );
}

#[test]
fn multi_polygon_is_tiled_together() {
    let ps = vec![square(2.0, 48.0, 0.1), square(3.0, 48.0, 0.1)];
    let cells = convert(&Geometry::MultiPolygon(ps), 7).unwrap();
    let expected =
        direct_tiling(vec![geo_square(2.0, 48.0, 0.1), geo_square(3.0, 48.0, 0.1)], Resolution::Seven);
    assert_eq!(cells, expected);
}

#[test]
fn multi_polygon_reports_failing_polygon() {
    let bad = Polygon { exterior: ring(&[(2.0, 48.0), (2.1, 48.1)]), interiors: Vec::new() };
    let ps = vec![square(2.0, 48.0, 0.1), bad, square(3.0, 200.0, 0.1)];
    assert_eq!(
        convert(&Geometry::MultiPolygon(ps), 7).unwrap_err(),
        ConversionError { kind: ErrorKind::InvalidPolygon, shape: Shape::MultiPolygon, member: 1 }
    );
}

#[test]
fn rect_converts_as_its_polygon() {
    let rect = Geometry::Rect(at(2.0, 48.0), at(2.1, 48.1));
    let rect_cells = convert(&rect, 7).unwrap();
    let polygon = geo_types::Rect::new(
        geo_types::Coord { x: 2.0, y: 48.0 },
        geo_types::Coord { x: 2.1, y: 48.1 },
    )
    .to_polygon();
    let as_polygon = Polygon {
        exterior: polygon.exterior().0.iter().map(|&inner| Coord { inner }).collect(),
        interiors: Vec::new(),
    };
    assert_eq!(rect_cells, convert(&Geometry::Polygon(as_polygon), 7).unwrap());
    assert!(rect_cells.len() > 10);
}

#[test]
fn rect_with_swapped_corners_is_the_same_rect() {
    let a = convert(&Geometry::Rect(at(2.0, 48.0), at(2.1, 48.1)), 7).unwrap();
    let b = convert(&Geometry::Rect(at(2.1, 48.1), at(2.0, 48.0)), 7).unwrap();
    assert_eq!(a, b);
}

#[test]
fn triangle_converts_as_its_polygon() {
    let tri = Geometry::Triangle(at(2.0, 48.0), at(2.2, 48.0), at(2.1, 48.2));
    let as_polygon = Polygon {
        exterior: ring(&[(2.0, 48.0), (2.2, 48.0), (2.1, 48.2), (2.0, 48.0)]),
        interiors: Vec::new(),
    };
    let tri_cells = convert(&tri, 7).unwrap();
    assert_eq!(tri_cells, convert(&Geometry::Polygon(as_polygon), 7).unwrap());
    assert!(!tri_cells.is_empty());
}

#[test]
fn triangle_outside_domain_fails_as_triangle() {
    let tri = Geometry::Triangle(at(2.0, 48.0), at(2.2, 48.0), at(2.1, 98.2));
    assert_eq!(
        convert(&tri, 7).unwrap_err(),
        ConversionError { kind: ErrorKind::InvalidCoordinate, shape: Shape::Triangle, member: 0 }
    );
}

#[test]
fn resolution_does_not_shrink_coverage() {
    let mut previous = 0;
    for res in 3..=8 {
        let n = convert(&Geometry::Polygon(square(2.0, 48.0, 0.5)), res).unwrap().len();
        assert!(n >= previous);
        previous = n;
    }
    assert!(previous > 100);
}

#[test]
fn collection_of_disjoint_point_and_polygon() {
    let point = Geometry::Point(at(-74.0, 40.7));
    let polygon = Geometry::Polygon(square(2.0, 48.0, 0.1));
    let point_cells = convert(&point, 7).unwrap();
    let polygon_cells = convert(&polygon, 7).unwrap();
    let all = convert(&Geometry::GeometryCollection(vec![point, polygon]), 7).unwrap();
    assert!(point_cells.is_disjoint(&polygon_cells));
    assert_eq!(all.len(), polygon_cells.len() + 1);
    assert_eq!(all, point_cells.union(&polygon_cells).copied().collect::<HashSet<u64>>());
}

#[test]
fn collection_of_point_inside_polygon() {
    let point = Geometry::Point(at(2.05, 48.05));
    let polygon = Geometry::Polygon(square(2.0, 48.0, 0.1));
    let point_cells = convert(&point, 7).unwrap();
    let polygon_cells = convert(&polygon, 7).unwrap();
    let all = convert(&Geometry::GeometryCollection(vec![point, polygon]), 7).unwrap();
    assert!(point_cells.is_subset(&polygon_cells));
    assert_eq!(all, polygon_cells);
}

#[test]
fn nested_collections_flatten() {
    let inner = Geometry::GeometryCollection(vec![
        Geometry::Point(at(2.05, 48.05)),
        Geometry::Line(at(10.0, 10.0), at(10.01, 10.01)),
    ]);
    let outer = Geometry::GeometryCollection(vec![inner, Geometry::Point(at(-74.0, 40.7))]);
    let mut expected = convert(&Geometry::Point(at(2.05, 48.05)), 9).unwrap();
    expected.extend(convert(&Geometry::Line(at(10.0, 10.0), at(10.01, 10.01)), 9).unwrap());
    expected.extend(convert(&Geometry::Point(at(-74.0, 40.7)), 9).unwrap());
    assert_eq!(convert(&outer, 9).unwrap(), expected);
    assert!(convert(&Geometry::GeometryCollection(Vec::new()), 9).unwrap().is_empty());
}

#[test]
fn collection_fails_as_first_failing_member() {
    let members = vec![
        Geometry::Point(at(2.0, 48.0)),
        Geometry::MultiPoint(vec![at(0.0, 0.0), at(0.0, -91.0)]),
        Geometry::Point(at(0.0, 1000.0)),
    ];
    assert_eq!(
        convert(&Geometry::GeometryCollection(members), 5).unwrap_err(),
        ConversionError { kind: ErrorKind::InvalidCoordinate, shape: Shape::MultiPoint, member: 1 }
    );
}

#[test]
fn default_mode_is_centroid() {
    assert_eq!(Mode::default(), Mode::ContainsCentroid);
}

#[test]
fn modes_map_to_tiler_modes() {
    assert_eq!(TilerMode::from(Mode::ContainsCentroid), TilerMode::ContainsCentroid);
    assert_eq!(TilerMode::from(Mode::ContainsBoundary), TilerMode::ContainsBoundary);
    assert_eq!(TilerMode::from(Mode::IntersectsBoundary), TilerMode::IntersectsBoundary);
    assert_eq!(TilerMode::from(Mode::Covers), TilerMode::Covers);
}

#[test]
fn cell_lookup_takes_any_finite_coordinate() {
    assert_eq!(lookup_cell(&at(0.0, 0.0), 5), Some(direct_cell(0.0, 0.0, Resolution::Five)));
    assert_eq!(lookup_cell(&at(190.0, 100.0), 7), Some(direct_cell(190.0, 100.0, Resolution::Seven)));
    assert_eq!(lookup_cell(&at(0.0, 1000.0), 5), Some(direct_cell(0.0, 1000.0, Resolution::Five)));
    assert_eq!(lookup_point(&at(0.0, 1000.0), 5), None);
    assert_eq!(lookup_cell(&at(f64::NAN, 0.0), 5), None);
    assert_eq!(lookup_cell(&at(0.0, f64::NEG_INFINITY), 5), None);
}
