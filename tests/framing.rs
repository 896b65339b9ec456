use fastrlp_derive::framing::{decode_struct, decode_wrapper, DecodeError, Header};

fn list(payload_length: usize) -> Header {
    Header { list: true, payload_length }
}

#[test]
fn fields_using_exactly_the_payload_succeed() {
    // 10 bytes: a 1-byte header, then 9; fields take 3 and 2 of the declared 5.
    assert_eq!(decode_struct(10, Ok((list(5), 1)), &vec![Ok(6), Ok(4)]), Ok(6));
}

#[test]
fn fields_using_too_little_fail() {
    assert_eq!(
        decode_struct(10, Ok((list(5), 1)), &vec![Ok(7), Ok(5)]),
        Err(DecodeError::ListLengthMismatch { expected: 5, got: 4 })
    );
}

#[test]
fn fields_using_too_much_fail() {
    assert_eq!(
        decode_struct(10, Ok((list(5), 1)), &vec![Ok(5), Ok(3)]),
        Err(DecodeError::ListLengthMismatch { expected: 5, got: 6 })
    );
}

#[test]
fn string_header_is_refused() {
    let h = Header { list: false, payload_length: 2 };
    assert_eq!(decode_struct(3, Ok((h, 1)), &vec![Ok(0)]), Err(DecodeError::UnexpectedString));
    assert_eq!(decode_struct(3, Ok((h, 1)), &vec![]), Err(DecodeError::UnexpectedString));
    let h0 = Header { list: false, payload_length: 0 };
    assert_eq!(
        decode_struct(1, Ok((h0, 1)), &vec![Err(DecodeError::InputTooShort)]),
        Err(DecodeError::UnexpectedString)
    );
}

#[test]
fn header_error_is_passed_on() {
    assert_eq!(
        decode_struct(0, Err(DecodeError::InputTooShort), &vec![Ok(0)]),
        Err(DecodeError::InputTooShort)
    );
}

#[test]
fn first_field_error_is_passed_on() {
    assert_eq!(
        decode_struct(
            10,
            Ok((list(5), 1)),
            &vec![Ok(7), Err(DecodeError::LeadingZero), Err(DecodeError::Overflow)]
        ),
        Err(DecodeError::LeadingZero)
    );
}

#[test]
fn zero_fields_with_empty_payload() {
    assert_eq!(decode_struct(4, Ok((list(0), 1)), &vec![]), Ok(1));
}

#[test]
fn zero_fields_with_non_empty_payload() {
    assert_eq!(
        decode_struct(4, Ok((list(3), 1)), &vec![]),
        Err(DecodeError::ListLengthMismatch { expected: 3, got: 0 })
    );
}

#[test]
fn field_order_changes_the_outcome() {
    // Payload of 3 bytes: a one-byte value, then a two-byte list.
    // Declared as (byte, list) the fields take 1 and 2 bytes.
    assert_eq!(decode_struct(4, Ok((list(3), 1)), &vec![Ok(2), Ok(0)]), Ok(4));
    // Declared as (list, byte) the list decoder meets the byte string first.
    assert_eq!(
        decode_struct(4, Ok((list(3), 1)), &vec![Err(DecodeError::UnexpectedString), Ok(0)]),
        Err(DecodeError::UnexpectedString)
    );
}

#[test]
fn wrapper_reports_what_its_field_reports() {
    assert_eq!(decode_wrapper(Ok(4)), Ok(4));
    assert_eq!(decode_wrapper(Err(DecodeError::UnexpectedList)), Err(DecodeError::UnexpectedList));
}
