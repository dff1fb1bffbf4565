use regen::report::{
    diagnostic, push_decimal, STATUS_CLEAN, STATUS_IO_FAILURE, STATUS_SOURCE_ERROR,
};
use regen::{report, Error, FileText, IoError, IoErrorKind, Span};

fn decimal(n: u128) -> Vec<u8> {
    let mut out = Vec::new();
    push_decimal(&mut out, n);
    out
}

#[test]
fn decimal_digits() {
    assert_eq!(decimal(0), b"0".to_vec());
    assert_eq!(decimal(7), b"7".to_vec());
    assert_eq!(decimal(10), b"10".to_vec());
    assert_eq!(decimal(42), b"42".to_vec());
    assert_eq!(decimal(1000), b"1000".to_vec());
    assert_eq!(decimal(u64::MAX as u128), b"18446744073709551615".to_vec());
    assert_eq!(
        decimal(u128::MAX),
        b"340282366920938463463374607431768211455".to_vec()
    );
}

#[test]
fn decimal_is_appended() {
    let mut out = b"n=".to_vec();
    push_decimal(&mut out, 305);
    assert_eq!(out, b"n=305".to_vec());
}

#[test]
fn clean_outcome_prints_nothing() {
    let r = report(&Ok(()));
    assert_eq!(r.output, Vec::<u8>::new());
    assert_eq!(r.status, 0);
    assert_eq!(r.status, STATUS_CLEAN);
}

#[test]
fn diagnostic_line_counts_lines_and_first_column_from_one() {
    let file = FileText::new(b"f.ext".to_vec(), b"let x = ?;\n".to_vec());
    let line = diagnostic(&file, &"bad token".to_string(), Span(4, 7));
    assert_eq!(line, b"f.ext:1:5: 1:7 error: bad token\n".to_vec());
}

#[test]
fn diagnostic_line_on_later_lines() {
    let file = FileText::new(b"src/g.ext".to_vec(), b"a\nbb\nccc\ndddd\n".to_vec());
    let line = diagnostic(&file, &"oops".to_string(), Span(3, 11));
    assert_eq!(line, b"src/g.ext:2:2: 4:2 error: oops\n".to_vec());
}

#[test]
fn diagnostic_line_with_large_numbers() {
    let mut content = Vec::new();
    for _ in 0..11 {
        content.extend_from_slice(b"0123456789ab\n");
    }
    let file = FileText::new(b"big.ext".to_vec(), content);
    let line = diagnostic(&file, &"m".to_string(), Span(130 + 10, 130 + 12));
    assert_eq!(line, b"big.ext:11:11: 11:12 error: m\n".to_vec());
}

#[test]
fn diagnostic_message_is_written_in_utf8() {
    let file = FileText::new(b"f.ext".to_vec(), b"x".to_vec());
    let line = diagnostic(&file, &"caf\u{e9} \u{2192}".to_string(), Span(0, 1));
    let mut expected = b"f.ext:1:1: 1:1 error: ".to_vec();
    expected.extend_from_slice("caf\u{e9} \u{2192}".as_bytes());
    expected.push(b'\n');
    assert_eq!(line, expected);
}

#[test]
fn source_error_prints_diagnostic_and_excerpt() {
    let file = FileText::new(b"f.ext".to_vec(), b"let x = ?;\nnext\n".to_vec());
    let outcome = Err(Error::Source(file, "bad token".to_string(), Span(4, 7)));
    let r = report(&outcome);
    let expected = b"f.ext:1:5: 1:7 error: bad token\n  let x = ?;\n      ^^^\n".to_vec();
    assert_eq!(r.output, expected);
    assert_eq!(r.status, 1);
    assert_eq!(r.status, STATUS_SOURCE_ERROR);
}

#[test]
fn io_failure_prints_its_description() {
    let error = IoError::new(IoErrorKind::Other, "disk on fire".to_string());
    let r = report(&Err(Error::Io(error)));
    assert_eq!(r.output, b"disk on fire\n".to_vec());
    assert_ne!(r.status, 0);
    assert_eq!(r.status, STATUS_IO_FAILURE);
    assert_eq!(r.status, 2);
}

#[test]
fn io_failure_of_every_kind_fails_the_run() {
    for kind in [IoErrorKind::NotFound, IoErrorKind::PermissionDenied, IoErrorKind::Other] {
        let error = IoError::new(kind, "x".to_string());
        assert_eq!(error.kind(), kind);
        let r = report(&Err(Error::Io(error)));
        assert_eq!(r.status, STATUS_IO_FAILURE);
        assert_eq!(r.output, b"x\n".to_vec());
    }
}

#[test]
fn io_error_becomes_an_error() {
    let error = IoError::new(IoErrorKind::NotFound, "gone".to_string());
    let converted: Error = Error::from(error.clone());
    assert_eq!(converted, Error::Io(error));
}
