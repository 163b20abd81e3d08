use skip_delta::decimal::{push_decimal, push_signed_decimal};
use skip_delta::{format_record, format_records, DeltaRecord};

fn em_record() -> DeltaRecord {
    DeltaRecord {
        reference_name: b"chr7".to_vec(),
        coordinate: 1234,
        coverage_count: 30,
        coverage_count_fwd: 10,
        coverage_count_rev: 20,
        skip_count: 9,
        skip_count_fwd: 4,
        skip_count_rev: 5,
        delta_skip: -6,
        delta_skip_fwd: 1,
        delta_skip_rev: -7,
    }
}

fn em_decimal(n: u64) -> Vec<u8> {
    let mut out = Vec::new();
    push_decimal(&mut out, n);
    out
}

fn em_signed(v: i64) -> Vec<u8> {
    let mut out = Vec::new();
    push_signed_decimal(&mut out, v);
    out
}

#[test]
fn plain_row_columns() {
    assert_eq!(format_record(&em_record(), false), b"chr7\t1234\t30\t9\t-6".to_vec());
}

#[test]
fn strand_row_columns() {
    assert_eq!(
        format_record(&em_record(), true),
        b"chr7\t1234\t-6\t1\t-7\t9\t4\t5\t30\t10\t20".to_vec()
    );
}

#[test]
fn row_has_no_terminator_and_keeps_the_name_bytes() {
    let mut record = em_record();
    record.reference_name = vec![0xff, b' ', b'x'];
    record.coordinate = 0;
    record.coverage_count = 0;
    record.skip_count = 0;
    record.delta_skip = 0;
    assert_eq!(
        format_record(&record, false),
        vec![0xff, b' ', b'x', 9, b'0', 9, b'0', 9, b'0', 9, b'0']
    );
    record.reference_name = Vec::new();
    assert_eq!(format_record(&record, false), b"\t0\t0\t0\t0".to_vec());
}

#[test]
fn row_of_extreme_values() {
    let record = DeltaRecord {
        reference_name: b"r".to_vec(),
        coordinate: u32::MAX,
        coverage_count: u32::MAX,
        coverage_count_fwd: 0,
        coverage_count_rev: 0,
        skip_count: u32::MAX,
        skip_count_fwd: 0,
        skip_count_rev: 0,
        delta_skip: -4294967295,
        delta_skip_fwd: 4294967295,
        delta_skip_rev: 0,
    };
    assert_eq!(
        format_record(&record, false),
        b"r\t4294967295\t4294967295\t4294967295\t-4294967295".to_vec()
    );
}

#[test]
fn rows_of_a_list() {
    let mut second = em_record();
    second.coordinate = 1235;
    second.delta_skip = 0;
    let rows = format_records(&[em_record(), second], false);
    assert_eq!(rows, vec![b"chr7\t1234\t30\t9\t-6".to_vec(), b"chr7\t1235\t30\t9\t0".to_vec()]);
    assert_eq!(format_records(&[], true), Vec::<Vec<u8>>::new());
}

#[test]
fn decimal_notation() {
    assert_eq!(em_decimal(0), b"0".to_vec());
    assert_eq!(em_decimal(7), b"7".to_vec());
    assert_eq!(em_decimal(10), b"10".to_vec());
    assert_eq!(em_decimal(1005), b"1005".to_vec());
    assert_eq!(em_decimal(u64::MAX), b"18446744073709551615".to_vec());
    let mut out = b"x=".to_vec();
    push_decimal(&mut out, 42);
    assert_eq!(out, b"x=42".to_vec());
}

#[test]
fn signed_decimal_notation() {
    assert_eq!(em_signed(0), b"0".to_vec());
    assert_eq!(em_signed(-1), b"-1".to_vec());
    assert_eq!(em_signed(250), b"250".to_vec());
    assert_eq!(em_signed(i64::MAX), b"9223372036854775807".to_vec());
    assert_eq!(em_signed(i64::MIN), b"-9223372036854775808".to_vec());
    for v in [-1000i64, -99, -10, -9, 9, 10, 99, 100, 123456789] {
        assert_eq!(em_signed(v), format!("{}", v).into_bytes());
    }
}
