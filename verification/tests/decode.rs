use scall::decode_flag;
use scall::decode_packed;
use scall::decode_raw_result;
use scall::RawResult;

#[test]
fn packed_zero_is_success() {
    assert_eq!(decode_packed(0), Ok(0));
}

#[test]
fn packed_ordinary_value_is_success() {
    assert_eq!(decode_packed(42), Ok(42));
    assert_eq!(decode_packed(1 << 40), Ok(1 << 40));
}

#[test]
fn packed_success_boundary() {
    // The last value below the errno range still decodes as itself.
    assert_eq!(decode_packed(usize::MAX - 4095), Ok(usize::MAX - 4095));
}

#[test]
fn packed_error_boundary() {
    // The first value inside the errno range is the largest errno.
    assert_eq!(decode_packed(usize::MAX - 4094), Err(4095));
}

#[test]
fn packed_error_top() {
    // The all-ones word is the negation of errno 1.
    assert_eq!(decode_packed(usize::MAX), Err(1));
}

#[test]
fn packed_error_is_negated_word() {
    // A word holding -9 in two's complement decodes as errno 9 (EBADF).
    let raw: usize = (-9isize) as usize;
    assert_eq!(decode_packed(raw), Err(9));
    assert_eq!(raw, usize::MAX - 8);
}

#[test]
fn flag_clear_is_success() {
    assert_eq!(decode_flag(0, false), Ok(0));
    assert_eq!(decode_flag(7, false), Ok(7));
}

#[test]
fn flag_set_is_error() {
    // With the flag set the value register holds the errno unencoded.
    assert_eq!(decode_flag(9, true), Err(9));
    assert_eq!(decode_flag(1, true), Err(1));
}

#[test]
fn flag_error_value_passes_through_unnegated() {
    // Flag-style kernels do not negate: the same word that would be an
    // error under packed decoding is a plain errno here.
    assert_eq!(decode_flag(4095, true), Err(4095));
}

#[test]
fn raw_result_packed_dispatch() {
    assert_eq!(decode_raw_result(RawResult::Packed(7)), Ok(7));
    assert_eq!(decode_raw_result(RawResult::Packed(usize::MAX - 8)), Err(9));
}

#[test]
fn raw_result_flag_dispatch() {
    assert_eq!(decode_raw_result(RawResult::Flag(7, false)), Ok(7));
    assert_eq!(decode_raw_result(RawResult::Flag(9, true)), Err(9));
}
