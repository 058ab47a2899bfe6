use lgbm::utils::{
    after_fill, bool_to_int, chars_to_string, chars_to_strings, int_to_bool, to_c_int,
    zeroed_buffers, Filled,
};
use lgbm::Error;

#[test]
fn bool_to_int_is_one_or_zero() {
    assert_eq!(bool_to_int(true), 1);
    assert_eq!(bool_to_int(false), 0);
}

#[test]
fn int_to_bool_is_false_only_for_zero() {
    assert!(!int_to_bool(0));
    assert!(int_to_bool(1));
    assert!(int_to_bool(-1));
    assert!(int_to_bool(i32::MIN));
}

#[test]
fn to_c_int_takes_what_fits() {
    assert_eq!(to_c_int(0), Ok(0));
    assert_eq!(to_c_int(125), Ok(125));
    assert_eq!(to_c_int(i32::MAX as usize), Ok(i32::MAX));
    assert_eq!(to_c_int(i32::MAX as usize + 1), Err(Error::IntOutOfRange));
    assert_eq!(to_c_int(usize::MAX), Err(Error::IntOutOfRange));
}

#[test]
fn chars_to_string_stops_at_the_first_nul() {
    assert_eq!(chars_to_string(b"aaa\0\0\0".to_vec()), Ok("aaa".to_string()));
    assert_eq!(chars_to_string(b"ab\0cd\0".to_vec()), Ok("ab".to_string()));
    assert_eq!(chars_to_string(b"\0abc".to_vec()), Ok(String::new()));
}

#[test]
fn chars_to_string_takes_all_without_a_nul() {
    assert_eq!(chars_to_string(b"abc".to_vec()), Ok("abc".to_string()));
    assert_eq!(chars_to_string(Vec::new()), Ok(String::new()));
}

#[test]
fn chars_to_string_reads_utf8() {
    let bytes = "h\u{e9}llo \u{4e16}\u{754c}\0rest".as_bytes().to_vec();
    assert_eq!(chars_to_string(bytes), Ok("h\u{e9}llo \u{4e16}\u{754c}".to_string()));
}

#[test]
fn chars_to_string_rejects_what_is_not_utf8() {
    assert_eq!(chars_to_string(vec![0xff, 0xfe]), Err(Error::InvalidUtf8));
    assert_eq!(chars_to_string(vec![b'a', 0xc3, 0, b'b']), Err(Error::InvalidUtf8));
    assert_eq!(chars_to_string(vec![b'a', 0, 0xff]), Ok("a".to_string()));
}

#[test]
fn chars_to_strings_reads_every_buffer() {
    let buffers = vec![b"aaa\0\0".to_vec(), b"bb\0\0\0".to_vec(), b"c\0\0\0\0".to_vec()];
    assert_eq!(
        chars_to_strings(buffers),
        Ok(vec!["aaa".to_string(), "bb".to_string(), "c".to_string()])
    );
    assert_eq!(chars_to_strings(Vec::new()), Ok(Vec::new()));
}

#[test]
fn chars_to_strings_fails_if_one_buffer_is_no_text() {
    let buffers = vec![b"aaa\0".to_vec(), vec![0xff, 0], b"c\0".to_vec()];
    assert_eq!(chars_to_strings(buffers), Err(Error::InvalidUtf8));
}

#[test]
fn zeroed_buffers_are_all_zero() {
    assert_eq!(zeroed_buffers(3, 2), vec![vec![0u8, 0], vec![0, 0], vec![0, 0]]);
    assert_eq!(zeroed_buffers(0, 5), Vec::<Vec<u8>>::new());
    assert_eq!(zeroed_buffers(2, 0), vec![Vec::<u8>::new(), Vec::new()]);
}

#[test]
fn after_fill_cuts_a_buffer_that_was_large_enough() {
    assert_eq!(after_fill(vec![1, 2, 3, 4], 2), Filled::Done(vec![1, 2]));
    assert_eq!(after_fill(vec![1, 2, 3, 4], 4), Filled::Done(vec![1, 2, 3, 4]));
    assert_eq!(after_fill(vec![1, 2], 0), Filled::Done(vec![]));
    assert_eq!(after_fill(Vec::new(), 0), Filled::Done(vec![]));
}

#[test]
fn after_fill_grows_a_buffer_that_was_too_small() {
    assert_eq!(after_fill(Vec::new(), 3), Filled::Again(vec![0, 0, 0]));
    assert_eq!(after_fill(vec![7, 8], 5), Filled::Again(vec![7, 8, 0, 0, 0]));
}
