use pointview::geometry::Vec4i;
use pointview::records::{format_fixed, from_delimited_records, ParseError, serialize_vertices};

fn lines_of(strs: &[&str]) -> Vec<Vec<u8>> {
    strs.iter().map(|s| s.as_bytes().to_vec()).collect()
}

#[test]
fn parses_seven_fields_per_line() {
    let lines = lines_of(&["1.5,2,3,0.25,0.5,0.75,40"]);
    let b = from_delimited_records(&lines).unwrap();
    assert_eq!(b.vertices.len(), 1);
    let v = &b.vertices[0];
    assert_eq!(v.position, Vec4i { x: 1_500_000, y: 2_000_000, z: 3_000_000, w: 1_000_000 });
    assert_eq!(v.color, Vec4i { x: 250_000, y: 500_000, z: 750_000, w: 1_000_000 });
    assert_eq!(v.size, 40_000_000);
    assert_eq!(b.indices, vec![0]);
}

#[test]
fn parses_negative_and_plain_integers() {
    let lines = lines_of(&["-1.25,0,0,0,0,0,2"]);
    let b = from_delimited_records(&lines).unwrap();
    assert_eq!(b.vertices[0].position.x, -1_250_000);
    assert_eq!(b.vertices[0].size, 2_000_000);
}

#[test]
fn rejects_six_fields() {
    let lines = lines_of(&["1,2,3,4,5,6"]);
    assert_eq!(from_delimited_records(&lines).unwrap_err(), ParseError::FieldCount { line: 0 });
}

#[test]
fn rejects_eight_fields() {
    let lines = lines_of(&["1,2,3,4,5,6,7,8"]);
    assert_eq!(from_delimited_records(&lines).unwrap_err(), ParseError::FieldCount { line: 0 });
}

#[test]
fn rejects_non_numeric_field() {
    let lines = lines_of(&["1,2,3,a,5,6,7"]);
    assert_eq!(from_delimited_records(&lines).unwrap_err(), ParseError::InvalidNumber { line: 0 });
}

#[test]
fn rejects_too_many_integer_digits() {
    let lines = lines_of(&["1234567890123,0,0,0,0,0,0"]);
    assert_eq!(from_delimited_records(&lines).unwrap_err(), ParseError::InvalidNumber { line: 0 });
}

#[test]
fn rejects_seven_fraction_digits() {
    let lines = lines_of(&["0.1234567,0,0,0,0,0,0"]);
    assert_eq!(from_delimited_records(&lines).unwrap_err(), ParseError::InvalidNumber { line: 0 });
}

#[test]
fn rejection_is_all_or_nothing() {
    // The second line is malformed: the whole source is discarded and
    // the offending line is named.
    let lines = lines_of(&["1,2,3,4,5,6,7", "oops"]);
    assert_eq!(from_delimited_records(&lines).unwrap_err(), ParseError::FieldCount { line: 1 });
}

#[test]
fn formats_fixed_point_values() {
    assert_eq!(format_fixed(1_500_000), b"1.500000".to_vec());
    assert_eq!(format_fixed(-250_000), b"-0.250000".to_vec());
    assert_eq!(format_fixed(0), b"0.000000".to_vec());
    assert_eq!(format_fixed(40_000_000), b"40.000000".to_vec());
}

#[test]
fn serialization_round_trips() {
    let lines = lines_of(&[
        "1.5,2,3,0.25,0.5,0.75,40",
        "-7.125,0.000001,999999999999.999999,1,0,0,1",
        "0,0,0,0,0,0,0",
    ]);
    let batch = from_delimited_records(&lines).unwrap();
    let written = serialize_vertices(&batch);
    let again = from_delimited_records(&written).unwrap();
    assert_eq!(again.vertices.len(), batch.vertices.len());
    for i in 0..batch.vertices.len() {
        assert_eq!(again.vertices[i], batch.vertices[i]);
    }
    assert_eq!(again.indices, batch.indices);
}
