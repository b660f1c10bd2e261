use r_jvm::error::{DecodeError, Error};
use r_jvm::operand::devide_i64_two_usize;
use r_jvm::utils::{
    as_signed, as_unsigned, devide_i64_to_two_i32, extract_x_byte_as_usize, extract_x_byte_as_vec,
    join_long, split_long,
};

#[test]
pub fn test_extract_x_byte_as_vec() {
    let mut input = vec![1, 2, 3, 4];
    assert_eq!(extract_x_byte_as_vec(&mut input, 1, 2), Ok((vec![2, 3], 3)));

    let mut input = vec![1, 2, 3, 4, 5, 6, 7, 8];
    assert_eq!(
        extract_x_byte_as_vec(&mut input, 3, 4),
        Ok((vec![4, 5, 6, 7], 7))
    );
}

#[test]
pub fn test_extract_x_byte_as_usize() {
    let mut input = vec![1, 2, 3, 4];
    assert_eq!(
        extract_x_byte_as_usize(&mut input, 1, 2),
        Ok(((2 << 8) as usize + 3, 3))
    );
    assert_eq!(input[3], 4);

    let mut input = vec![1, 2, 3, 4, 5, 6, 7, 8];
    let fourth = 1 << (8 * 3);
    let third = 2 << (8 * 2);
    let second = 3 << (8 * 1);
    let first = 4 << (8 * 0);

    assert_eq!(
        extract_x_byte_as_usize(&mut input, 0, 4),
        Ok((first + second + third + fourth, 4))
    );
    assert_eq!(input[4], 5);
}

#[test]
fn reading_beyond_the_end_fails() {
    let input = vec![1, 2, 3];
    let short = Err(Error::DecodeError(DecodeError::FileTooShort));
    assert_eq!(extract_x_byte_as_usize(&input, 2, 2), short);
    assert_eq!(extract_x_byte_as_usize(&input, 4, 0), short);
    assert_eq!(extract_x_byte_as_usize(&input, 3, 0), Ok((0, 3)));
    assert_eq!(extract_x_byte_as_vec(&input, 1, 3), Err(Error::DecodeError(DecodeError::FileTooShort)));
    assert_eq!(extract_x_byte_as_vec(&input, usize::MAX, 2), Err(Error::DecodeError(DecodeError::FileTooShort)));
    assert_eq!(extract_x_byte_as_vec(&input, 3, 0), Ok((vec![], 3)));
}

#[test]
fn a_long_splits_into_its_halves() {
    assert_eq!(split_long(0x1234_5678_9abc_def0), (0x1234_5678, 0x9abc_def0));
    assert_eq!(split_long(-1), (0xffff_ffff, 0xffff_ffff));
    assert_eq!(split_long(i64::MIN), (0x8000_0000, 0));
    assert_eq!(join_long(0x1234_5678, 0x9abc_def0), 0x1234_5678_9abc_def0);
    assert_eq!(join_long(0xffff_ffff, 0xffff_fffe), -2);
    assert_eq!(join_long(0x8000_0000, 0), i64::MIN);
    assert_eq!(devide_i64_two_usize(0x0000_0001_0000_0002), (1, 2));
    assert_eq!(devide_i64_two_usize(-1), (0xffff_ffff, 0xffff_ffff));
    assert_eq!(devide_i64_to_two_i32(0x0000_0001_8000_0000), (1, i32::MIN));
    assert_eq!(devide_i64_to_two_i32(-1), (-1, -1));
}

#[test]
fn splitting_and_joining_are_inverse() {
    for value in [0i64, 1, -1, 42, i64::MAX, i64::MIN, 1_000_000_000_000_000_000] {
        let (high, low) = split_long(value);
        assert_eq!(join_long(high, low), value);
    }
}

#[test]
fn bits_read_signed_and_back() {
    assert_eq!(as_signed(0xffff_ffff), -1);
    assert_eq!(as_signed(0x8000_0000), i32::MIN);
    assert_eq!(as_signed(7), 7);
    assert_eq!(as_unsigned(-1), 0xffff_ffff);
    assert_eq!(as_unsigned(i32::MIN), 0x8000_0000);
}
