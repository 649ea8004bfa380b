use geo_ingest::geometry::{geometry_to_wkt, Geometry, GeometryError, Position};
use geo_ingest::number::is_number;

fn pos(x: &str, y: &str) -> Position {
    vec![x.to_string(), y.to_string()]
}

fn from_floats(x: f64, y: f64) -> Position {
    vec![format!("{}", x), format!("{}", y)]
}

fn wkt(g: &Geometry) -> String {
    geometry_to_wkt(g).expect("the geometry is well formed")
}

// A small reader of `x y` lists, to read back what the encoder wrote.
fn read_pairs(text: &str) -> Vec<Position> {
    text.split(", ")
        .map(|pair| pair.split(' ').map(|c| c.to_string()).collect())
        .collect()
}

#[test]
fn point_is_encoded() {
    assert_eq!(wkt(&Geometry::Point(pos("1", "2"))), "POINT(1 2)");
}

#[test]
fn point_keeps_sign_and_fraction() {
    assert_eq!(wkt(&Geometry::Point(pos("-122.25", "0.5"))), "POINT(-122.25 0.5)");
}

#[test]
fn point_from_floats_uses_their_decimal_text() {
    assert_eq!(wkt(&Geometry::Point(from_floats(102.0, 0.5))), "POINT(102 0.5)");
    assert_eq!(wkt(&Geometry::Point(from_floats(-0.000001, 1e21))), "POINT(-0.000001 1000000000000000000000)");
}

#[test]
fn multipoint_brackets_each_point() {
    let g = Geometry::MultiPoint(vec![pos("1", "2"), pos("3", "4")]);
    assert_eq!(wkt(&g), "MULTIPOINT((1 2), (3 4))");
}

#[test]
fn multipoint_of_one_point() {
    let g = Geometry::MultiPoint(vec![pos("1", "2")]);
    assert_eq!(wkt(&g), "MULTIPOINT((1 2))");
}

#[test]
fn linestring_joins_positions() {
    let g = Geometry::LineString(vec![pos("1", "2"), pos("3", "4"), pos("5", "6")]);
    assert_eq!(wkt(&g), "LINESTRING(1 2, 3 4, 5 6)");
}

#[test]
fn multilinestring_brackets_each_line() {
    let g = Geometry::MultiLineString(vec![
        vec![pos("1", "2"), pos("3", "4")],
        vec![pos("5", "6"), pos("7", "8")],
    ]);
    assert_eq!(wkt(&g), "MULTILINESTRING((1 2, 3 4), (5 6, 7 8))");
}

#[test]
fn polygon_lists_exterior_then_holes() {
    let g = Geometry::Polygon(vec![
        vec![pos("0", "0"), pos("10", "0"), pos("10", "10"), pos("0", "0")],
        vec![pos("2", "2"), pos("3", "2"), pos("3", "3"), pos("2", "2")],
    ]);
    assert_eq!(wkt(&g), "POLYGON((0 0, 10 0, 10 10, 0 0), (2 2, 3 2, 3 3, 2 2))");
}

#[test]
fn polygon_ring_is_not_closed_for_the_caller() {
    let g = Geometry::Polygon(vec![vec![pos("0", "0"), pos("1", "0"), pos("1", "1")]]);
    assert_eq!(wkt(&g), "POLYGON((0 0, 1 0, 1 1))");
}

#[test]
fn multipolygon_nests_one_level_deeper() {
    let g = Geometry::MultiPolygon(vec![
        vec![vec![pos("0", "0"), pos("1", "0"), pos("1", "1"), pos("0", "0")]],
        vec![
            vec![pos("5", "5"), pos("6", "5"), pos("6", "6"), pos("5", "5")],
            vec![pos("7", "7"), pos("8", "7"), pos("8", "8"), pos("7", "7")],
        ],
    ]);
    assert_eq!(
        wkt(&g),
        "MULTIPOLYGON(((0 0, 1 0, 1 1, 0 0)), ((5 5, 6 5, 6 6, 5 5), (7 7, 8 7, 8 8, 7 7)))"
    );
}

#[test]
fn third_component_is_dropped() {
    let g = Geometry::Point(vec!["1".to_string(), "2".to_string(), "3".to_string()]);
    assert_eq!(wkt(&g), "POINT(1 2)");
}

#[test]
fn third_component_need_not_be_a_number() {
    let g = Geometry::LineString(vec![
        vec!["1".to_string(), "2".to_string(), "high".to_string()],
        pos("3", "4"),
    ]);
    assert_eq!(wkt(&g), "LINESTRING(1 2, 3 4)");
}

#[test]
fn unsupported_shape_is_named_in_the_error() {
    let g = Geometry::Unsupported("GeometryCollection".to_string());
    match geometry_to_wkt(&g) {
        Err(GeometryError::UnsupportedGeometry(name)) => assert_eq!(name, "GeometryCollection"),
        other => panic!("expected an unsupported geometry, got {:?}", other),
    }
    assert!(matches!(g.validate(), Err(GeometryError::UnsupportedGeometry(_))));
}

#[test]
fn empty_lists_are_rejected() {
    let cases = vec![
        Geometry::MultiPoint(vec![]),
        Geometry::LineString(vec![]),
        Geometry::MultiLineString(vec![]),
        Geometry::MultiLineString(vec![vec![pos("1", "2")], vec![]]),
        Geometry::Polygon(vec![]),
        Geometry::Polygon(vec![vec![]]),
        Geometry::MultiPolygon(vec![]),
        Geometry::MultiPolygon(vec![vec![]]),
        Geometry::MultiPolygon(vec![vec![vec![pos("1", "2")]], vec![vec![]]]),
    ];
    for g in cases {
        assert!(!g.is_filled(), "{:?}", g);
        assert!(matches!(geometry_to_wkt(&g), Err(GeometryError::EmptyCoordinates)), "{:?}", g);
    }
}

#[test]
fn bad_positions_are_rejected() {
    let cases = vec![
        Geometry::Point(vec![]),
        Geometry::Point(vec!["1".to_string()]),
        Geometry::Point(pos("east", "2")),
        Geometry::Point(pos("1", "")),
        Geometry::MultiPoint(vec![pos("1", "2"), pos("1 2", "3")]),
        Geometry::LineString(vec![pos("1", "2"), pos("3", "4)")]),
        Geometry::Polygon(vec![vec![pos("0", "0"), pos("1,5", "0")]]),
        Geometry::MultiPolygon(vec![vec![vec![pos("0", "0")]], vec![vec![pos("(1", "0")]]]),
    ];
    for g in cases {
        assert!(g.is_filled(), "{:?}", g);
        assert!(!g.has_valid_positions(), "{:?}", g);
        assert!(matches!(geometry_to_wkt(&g), Err(GeometryError::InvalidPosition)), "{:?}", g);
    }
}

#[test]
fn empty_list_is_reported_before_a_bad_position() {
    let g = Geometry::Polygon(vec![vec![pos("x", "0")], vec![]]);
    assert!(matches!(geometry_to_wkt(&g), Err(GeometryError::EmptyCoordinates)));
}

#[test]
fn validate_accepts_what_the_encoder_accepts() {
    let g = Geometry::LineString(vec![pos("1", "2"), pos("3", "4")]);
    assert!(g.validate().is_ok());
    assert!(g.is_filled());
    assert!(g.has_valid_positions());
}

#[test]
fn number_texts_are_recognised() {
    for s in ["0", "1", "42", "-1", "-0", "1.5", "-122.4194", "0.000001", "1000000000000000000000"] {
        assert!(is_number(s), "{}", s);
    }
}

#[test]
fn other_texts_are_not_numbers() {
    for s in [
        "", "-", ".", "1.", ".5", "-.5", "1.2.3", "1e5", "--1", "+1", "1-", "NaN", "inf", " 1", "1 ",
        "1,5", "(1", "1)", "١",
    ] {
        assert!(!is_number(s), "{:?}", s);
    }
}

#[test]
fn floats_print_as_number_texts() {
    for x in [0.0f64, -0.0, 1.0, -1.5, 1e-7, 1e21, 123456.789, f64::MAX, f64::MIN_POSITIVE] {
        assert!(is_number(&format!("{}", x)), "{}", x);
    }
}

#[test]
fn linestring_reads_back_as_it_was() {
    let line = vec![pos("1.5", "-2"), pos("3", "4.25"), pos("-0", "0")];
    let text = wkt(&Geometry::LineString(line.clone()));
    let inner = text.strip_prefix("LINESTRING(").unwrap().strip_suffix(")").unwrap();
    assert_eq!(read_pairs(inner), line);
}

#[test]
fn polygon_reads_back_as_it_was() {
    let rings = vec![
        vec![pos("0", "0"), pos("10", "0"), pos("10", "10"), pos("0", "0")],
        vec![pos("2", "2"), pos("3", "2"), pos("3", "3"), pos("2", "2")],
    ];
    let text = wkt(&Geometry::Polygon(rings.clone()));
    let inner = text.strip_prefix("POLYGON((").unwrap().strip_suffix("))").unwrap();
    let read: Vec<Vec<Position>> = inner.split("), (").map(read_pairs).collect();
    assert_eq!(read, rings);
}
