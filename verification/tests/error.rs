use horizon::error::{likely, unlikely, ErrorCode};
use horizon::kernel::KernelErrorCode;

#[test]
fn parts_roundtrip() {
    let e = ErrorCode::from_parts(2, 1);
    assert_eq!(e.repr(), 2 | (1 << 9));
    assert_eq!(e.get_module(), 2);
    assert_eq!(e.get_description(), 1);
    assert!(e.is_failure());
    assert!(!e.is_success());
}

#[test]
fn parts_are_cut_to_width() {
    let e = ErrorCode::from_parts(0x3ff, 0x3fff);
    assert_eq!(e.get_module(), 0x1ff);
    assert_eq!(e.get_description(), 0x1fff);
}

#[test]
fn success_code() {
    let e = ErrorCode::new(0);
    assert!(e.is_success());
    assert!(e.into_result(5) == Ok(5));
    assert!(e.into_result_with(|| 7) == Ok(7));
}

#[test]
fn failure_code_into_result() {
    let e = ErrorCode::new(0x202);
    assert!(e.into_result(5) == Err(e));
}

#[test]
fn display_format() {
    let e = ErrorCode::from_parts(2, 1);
    assert_eq!(e.display(), b"2002-0001".to_vec());
    let k = ErrorCode::from_parts(1, 7);
    assert_eq!(k.display(), b"2001-0007".to_vec());
}

#[test]
fn kernel_codes() {
    let e = ErrorCode::from_parts(1, 114);
    assert_eq!(e.try_as::<KernelErrorCode>(), Some(KernelErrorCode::InvalidHandle));
    let other = ErrorCode::from_parts(2, 114);
    assert_eq!(other.try_as::<KernelErrorCode>(), None);
    assert_eq!(KernelErrorCode::try_from_u32(7), Ok(KernelErrorCode::OutOfSessions));
    assert_eq!(KernelErrorCode::try_from_u32(8), Err(()));
    assert_eq!(KernelErrorCode::ProcessTerminated.to_u32(), 520);
}

#[test]
fn branch_hints() {
    assert!(likely(true));
    assert!(!likely(false));
    assert!(unlikely(true));
    assert!(!unlikely(false));
}

#[test]
fn try_as_reads_the_description() {
    assert_eq!(ErrorCode::from_parts(1, 14).try_as::<KernelErrorCode>(), Some(KernelErrorCode::InvalidArgument));
    assert_eq!(ErrorCode::from_parts(2, 14).try_as::<KernelErrorCode>(), None);
}
