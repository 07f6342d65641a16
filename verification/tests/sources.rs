use horizon::swipc::diagnostics::{error_at, is_diags_fatal, warning_at, Span};
use horizon::swipc::model::IntType;
use horizon::swipc::sources::{line_starts, LineError, PaddingHelper, SourceFile};

#[test]
fn lines_start_after_each_line_feed() {
    assert_eq!(line_starts(b"ab\ncd\n\ne"), vec![0, 3, 6, 7]);
    assert_eq!(line_starts(b""), vec![0]);
}

#[test]
fn line_start_and_index() {
    let f = SourceFile::new("a.id".to_string(), "ab\ncd\ne".to_string());
    assert_eq!(f.line_start(0), Ok(0));
    assert_eq!(f.line_start(2), Ok(6));
    assert_eq!(f.line_start(3), Ok(7));
    assert_eq!(f.line_start(4), Err(LineError::LineTooLarge { given: 4, max: 2 }));
    assert_eq!(f.line_index(0), 0);
    assert_eq!(f.line_index(2), 0);
    assert_eq!(f.line_index(3), 1);
    assert_eq!(f.line_index(6), 2);
    assert_eq!(f.line_index(100), 2);
}

#[test]
fn padding_names_count_up() {
    let mut p = PaddingHelper::new();
    assert_eq!(p.next_padding_name(), b"_padding_0".to_vec());
    assert_eq!(p.next_padding_name(), b"_padding_1".to_vec());
    for _ in 0..8 {
        p.next_padding_name();
    }
    assert_eq!(p.next_padding_name(), b"_padding_10".to_vec());
}

#[test]
fn int_type_ranges() {
    assert!(IntType::I16.is_signed());
    assert!(!IntType::U64.is_signed());
    assert_eq!(IntType::U8.max_value(), 255);
    assert_eq!(IntType::I32.max_value(), 0x7fff_ffff);
    assert_eq!(IntType::U64.max_value(), u64::MAX);
    assert!(IntType::U16.fits_u64(0xffff));
    assert!(!IntType::U16.fits_u64(0x1_0000));
    assert!(!IntType::I8.fits_u64(128));
}

#[test]
fn only_errors_are_fatal() {
    let span = Span::new(0, 1, 2);
    assert!(!is_diags_fatal(&vec![]));
    assert!(!is_diags_fatal(&vec![warning_at(b"w".to_vec(), span)]));
    assert!(is_diags_fatal(&vec![warning_at(b"w".to_vec(), span), error_at(b"e".to_vec(), span)]));
}
