use apexsupport::varint::read_varint;
use apexsupport::varint::VarintError;
use apexsupport::varint::MAX_VARINT_LEN;

#[test]
fn single_byte_is_its_own_value() {
    assert_eq!(read_varint(&[0x00], 0), Ok((0, 1)));
    assert_eq!(read_varint(&[0x01], 0), Ok((1, 1)));
    assert_eq!(read_varint(&[0x7f], 0), Ok((127, 1)));
}

#[test]
fn groups_are_least_significant_first() {
    assert_eq!(read_varint(&[0x80, 0x01], 0), Ok((128, 2)));
    assert_eq!(read_varint(&[0xac, 0x02], 0), Ok((300, 2)));
    assert_eq!(read_varint(&[0xff, 0xff, 0x03], 0), Ok((65535, 3)));
}

#[test]
fn reading_starts_at_the_given_index_and_stops_at_the_last_digit() {
    let bytes = [0xff, 0xac, 0x02, 0x05];
    assert_eq!(read_varint(&bytes, 1), Ok((300, 3)));
    assert_eq!(read_varint(&bytes, 3), Ok((5, 4)));
}

#[test]
fn padded_encoding_is_read() {
    assert_eq!(read_varint(&[0x80, 0x00], 0), Ok((0, 2)));
    assert_eq!(read_varint(&[0x81, 0x80, 0x00], 0), Ok((1, 3)));
}

#[test]
fn largest_value_takes_ten_bytes() {
    let bytes = [0xff, 0xff, 0xff, 0xff, 0xff, 0xff, 0xff, 0xff, 0xff, 0x01];
    assert_eq!(bytes.len(), MAX_VARINT_LEN);
    assert_eq!(read_varint(&bytes, 0), Ok((u64::MAX, 10)));
}

#[test]
fn top_bit_alone_is_two_to_the_63() {
    let bytes = [0x80, 0x80, 0x80, 0x80, 0x80, 0x80, 0x80, 0x80, 0x80, 0x01];
    assert_eq!(read_varint(&bytes, 0), Ok((0x8000_0000_0000_0000, 10)));
}

#[test]
fn nine_full_bytes_stay_below_two_to_the_63() {
    let bytes = [0xff, 0xff, 0xff, 0xff, 0xff, 0xff, 0xff, 0xff, 0x7f];
    assert_eq!(read_varint(&bytes, 0), Ok((0x7fff_ffff_ffff_ffff, 9)));
}

#[test]
fn sixty_fifth_bit_overflows() {
    let bytes = [0x80, 0x80, 0x80, 0x80, 0x80, 0x80, 0x80, 0x80, 0x80, 0x02];
    assert_eq!(read_varint(&bytes, 0), Err(VarintError::Overflow));
    let bytes = [0xff, 0xff, 0xff, 0xff, 0xff, 0xff, 0xff, 0xff, 0xff, 0x7f];
    assert_eq!(read_varint(&bytes, 0), Err(VarintError::Overflow));
}

#[test]
fn eleventh_byte_overflows() {
    let bytes = [0x80, 0x80, 0x80, 0x80, 0x80, 0x80, 0x80, 0x80, 0x80, 0x80, 0x00];
    assert_eq!(read_varint(&bytes, 0), Err(VarintError::Overflow));
}

#[test]
fn ten_unfinished_bytes_overflow_before_the_input_ends() {
    let bytes = [0x80, 0x80, 0x80, 0x80, 0x80, 0x80, 0x80, 0x80, 0x80, 0x80];
    assert_eq!(read_varint(&bytes, 0), Err(VarintError::Overflow));
}

#[test]
fn input_that_ends_early_is_truncated() {
    assert_eq!(read_varint(&[], 0), Err(VarintError::Truncated));
    assert_eq!(read_varint(&[0x80], 0), Err(VarintError::Truncated));
    assert_eq!(read_varint(&[0xff, 0xff, 0xff], 0), Err(VarintError::Truncated));
    let bytes = [0x80, 0x80, 0x80, 0x80, 0x80, 0x80, 0x80, 0x80, 0x80];
    assert_eq!(read_varint(&bytes, 0), Err(VarintError::Truncated));
}

#[test]
fn start_at_or_after_the_end_is_truncated() {
    assert_eq!(read_varint(&[0x01], 1), Err(VarintError::Truncated));
    assert_eq!(read_varint(&[0x01], 7), Err(VarintError::Truncated));
    assert_eq!(read_varint(&[0x01], usize::MAX), Err(VarintError::Truncated));
}
