use imt::error::{ImtError, ImtErrorKind, ImtErrorSource};
use imt::parse::packed::{parse_packed_deltas, parse_packed_points};

fn truncated() -> ImtError {
    ImtError { kind: ImtErrorKind::Truncated, source: ImtErrorSource::GvarTable }
}

fn malformed() -> ImtError {
    ImtError { kind: ImtErrorKind::Malformed, source: ImtErrorSource::GvarTable }
}

#[test]
fn point_numbers_are_running_sums() {
    let mut points = Vec::new();
    let taken = parse_packed_points(&[4, 0x01, 3, 2, 0x81, 0x01, 0x00, 0x00, 0x05, 9], &mut points);
    assert_eq!(taken, Ok(9));
    assert_eq!(points, vec![3, 5, 261, 266]);
}

#[test]
fn point_numbers_never_fall() {
    let mut points = Vec::new();
    parse_packed_points(&[5, 0x04, 1, 0, 7, 0, 2], &mut points).unwrap();
    assert_eq!(points, vec![1, 1, 8, 8, 10]);
    assert!(points.windows(2).all(|w| w[0] <= w[1]));
    let mut rising = Vec::new();
    parse_packed_points(&[3, 0x02, 1, 1, 7], &mut rising).unwrap();
    assert_eq!(rising, vec![1, 2, 9]);
    assert!(rising.windows(2).all(|w| w[0] < w[1]));
}

#[test]
fn a_count_of_two_bytes_is_followed_by_the_runs() {
    let mut bytes = vec![0x80 | 0x01, 0x02];
    bytes.push(0x7F);
    bytes.extend(std::iter::repeat(1u8).take(128));
    bytes.push(0x7F);
    bytes.extend(std::iter::repeat(2u8).take(128));
    bytes.push(0x01);
    bytes.extend_from_slice(&[3, 3]);
    let mut points = Vec::new();
    assert_eq!(parse_packed_points(&bytes, &mut points), Ok(bytes.len()));
    assert_eq!(points.len(), 258);
    assert_eq!(points[0], 1);
    assert_eq!(points[127], 128);
    assert_eq!(points[128], 130);
    assert_eq!(points[255], 384);
    assert_eq!(points[257], 390);
}

#[test]
fn no_point_numbers_stand_for_all_points() {
    let mut points = Vec::new();
    assert_eq!(parse_packed_points(&[0, 0xFF], &mut points), Ok(1));
    assert!(points.is_empty());
    assert_eq!(parse_packed_points(&[0x80, 0x00], &mut points), Ok(2));
    assert!(points.is_empty());
}

#[test]
fn point_numbers_are_appended() {
    let mut points = vec![40, 41];
    assert_eq!(parse_packed_points(&[1, 0x00, 6], &mut points), Ok(3));
    assert_eq!(points, vec![40, 41, 6]);
}

#[test]
fn bad_point_numbers_are_refused() {
    let mut points = vec![7];
    assert_eq!(parse_packed_points(&[], &mut points), Err(truncated()));
    assert_eq!(parse_packed_points(&[0x80], &mut points), Err(truncated()));
    assert_eq!(parse_packed_points(&[2], &mut points), Err(truncated()));
    assert_eq!(parse_packed_points(&[2, 0x01, 5], &mut points), Err(truncated()));
    assert_eq!(parse_packed_points(&[2, 0x81, 0, 5, 0], &mut points), Err(truncated()));
    assert_eq!(parse_packed_points(&[2, 0x02, 1, 2, 3], &mut points), Err(malformed()));
    assert_eq!(
        parse_packed_points(&[2, 0x81, 0xFF, 0xFF, 0x00, 0x01], &mut points),
        Err(malformed())
    );
    assert_eq!(points, vec![7]);
}

#[test]
fn deltas_come_in_runs() {
    let bytes = [0x02, 10, 20, 0xE2, 0x81, 0x40, 0x01, 0x2C, 0x00, 0xFF];
    assert_eq!(
        parse_packed_deltas(&bytes, 3),
        Ok(vec![[10, 0], [20, 0], [-30, 300]])
    );
    assert_eq!(
        parse_packed_deltas(&[0x41, 0xFF, 0xFE, 0x7F, 0xFF], 1),
        Ok(vec![[-2, 32767]])
    );
    assert_eq!(parse_packed_deltas(&[], 0), Ok(vec![]));
    assert_eq!(parse_packed_deltas(&[0xBF, 0xBF], 64), Ok(vec![[0, 0]; 64]));
}

#[test]
fn bad_deltas_are_refused() {
    assert_eq!(parse_packed_deltas(&[], 1), Err(truncated()));
    assert_eq!(parse_packed_deltas(&[0x01, 5], 1), Err(truncated()));
    assert_eq!(parse_packed_deltas(&[0x40, 5], 1), Err(truncated()));
    assert_eq!(parse_packed_deltas(&[0x00, 5], 1), Err(truncated()));
    assert_eq!(parse_packed_deltas(&[0x02, 1, 2, 3], 1), Err(malformed()));
    assert_eq!(parse_packed_deltas(&[0x82], 1), Err(malformed()));
    assert_eq!(parse_packed_deltas(&[0x02, 1, 2], 1), Err(truncated()));
}
