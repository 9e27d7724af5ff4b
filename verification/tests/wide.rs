use dll_syringe::error::SyringeError;
use dll_syringe::wide::{
    contains_nul, copy_units, encode_name, encode_path, encode_wide, le_bytes, terminate,
};

#[test]
fn path_is_encoded_as_wide_string_with_terminator() {
    let bytes = encode_path("C:\\t\\payload.dll").unwrap();
    let expected: Vec<u8> = "C:\\t\\payload.dll"
        .encode_utf16()
        .chain(std::iter::once(0u16))
        .flat_map(|u| [(u & 0xFF) as u8, (u >> 8) as u8])
        .collect();
    assert_eq!(bytes, expected);
    assert_eq!(bytes.len(), 2 * 17);
    assert_eq!(&bytes[..6], &[b'C', 0, b':', 0, b'\\', 0]);
    assert_eq!(&bytes[32..], &[0, 0]);
}

#[test]
fn characters_beyond_the_basic_plane_take_two_units() {
    let bytes = encode_path("a\u{1F600}").unwrap();
    assert_eq!(bytes, vec![b'a', 0, 0x3D, 0xD8, 0x00, 0xDE, 0, 0]);
}

#[test]
fn empty_path_is_just_the_terminator() {
    assert_eq!(encode_path("").unwrap(), vec![0, 0]);
}

#[test]
fn nul_at_the_end_is_the_terminator() {
    assert_eq!(encode_path("ab\0").unwrap(), vec![b'a', 0, b'b', 0, 0, 0]);
}

#[test]
fn nul_inside_the_path_is_refused() {
    assert_eq!(encode_path("a\0b"), Err(SyringeError::PathEncoding));
    assert_eq!(encode_path("\0\0"), Err(SyringeError::PathEncoding));
}

#[test]
fn units_are_laid_out_low_byte_first() {
    assert_eq!(le_bytes(&vec![0x1234, 0x00FF, 0xFF00]), vec![0x34, 0x12, 0xFF, 0x00, 0x00, 0xFF]);
    assert_eq!(le_bytes(&vec![]), Vec::<u8>::new());
}

#[test]
fn name_is_its_bytes_and_a_nul() {
    assert_eq!(encode_name("echo"), vec![b'e', b'c', b'h', b'o', 0]);
    assert_eq!(encode_name(""), vec![0]);
}

#[test]
fn nul_in_a_name_is_found() {
    assert!(!contains_nul("GetProcAddress"));
    assert!(contains_nul("Get\0Proc"));
    assert!(contains_nul("\0"));
    assert!(!contains_nul(""));
}

#[test]
fn wide_path_is_the_units_and_a_terminator() {
    assert_eq!(encode_wide("ab"), Ok(vec![0x61, 0x62, 0]));
    assert_eq!(encode_wide("a\u{1F600}"), Ok(vec![0x61, 0xD83D, 0xDE00, 0]));
    assert_eq!(encode_wide("ab\0"), Ok(vec![0x61, 0x62, 0]));
    assert_eq!(encode_wide(""), Ok(vec![0]));
    assert_eq!(encode_wide("a\0b"), Err(SyringeError::PathEncoding));
    // never more than two units for a character, and the terminator
    for path in ["", "a", "\u{1F600}\u{1F600}", "C:\\t\\payload.dll"] {
        let units = encode_wide(path).unwrap();
        assert!(units.len() <= 2 * path.chars().count() + 1);
    }
}

#[test]
fn units_are_terminated_once() {
    assert_eq!(terminate(&[0x61, 0x62]), Ok(vec![0x61, 0x62, 0]));
    assert_eq!(terminate(&[0x61, 0x62, 0]), Ok(vec![0x61, 0x62, 0]));
    assert_eq!(terminate(&[]), Ok(vec![0]));
    assert_eq!(terminate(&[0]), Ok(vec![0]));
    assert_eq!(terminate(&[0xD800, 0x61]), Ok(vec![0xD800, 0x61, 0]));
    assert_eq!(terminate(&[0, 0]), Err(SyringeError::PathEncoding));
    assert_eq!(terminate(&[0x61, 0, 0x62]), Err(SyringeError::PathEncoding));
    assert_eq!(terminate(&[0, 0x61]), Err(SyringeError::PathEncoding));
}

#[test]
fn copy_of_units_is_the_units() {
    assert_eq!(copy_units(&vec![1, 2, 0]), vec![1, 2, 0]);
    assert_eq!(copy_units(&vec![]), Vec::<u16>::new());
}
