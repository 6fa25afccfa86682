use ffi_safety::c_ptr::{ConstPtr, MutPtr, SafePointerSlices};
use ffi_safety::c_str::{strlcpy, CStringInHelpers, InteriorNul, PathEncodeError, Str2C};

fn encoded_bytes(c: &Str2C, len: usize) -> Vec<u8> {
    c.as_ptr().as_slice(len).to_vec()
}

#[test]
fn decode_handle_stops_at_the_terminator() {
    let buf = b"hello\0world\0";
    let s = String::from_c(ConstPtr::from_slice(&buf[..]));
    assert_eq!(s, "hello");
}

#[test]
fn decode_handle_borrowed() {
    let buf = b"abc\0";
    let s: &str = <&str>::from_c(ConstPtr::from_slice(&buf[..]));
    assert_eq!(s, "abc");
}

#[test]
fn decode_handle_of_empty_text() {
    let buf = [0u8, 65];
    assert_eq!(String::from_c(ConstPtr::from_slice(&buf[..])), "");
}

#[test]
fn decode_multibyte_text() {
    let buf = [0xC3u8, 0xA9, b'!', 0];
    assert_eq!(String::from_c(ConstPtr::from_slice(&buf[..])), "\u{e9}!");
}

#[test]
fn decode_slice_without_terminator_reads_to_the_end() {
    let buf: &[u8] = b"abc";
    assert_eq!(String::from_c(buf), "abc");
    let s: &str = <&str>::from_c(buf);
    assert_eq!(s, "abc");
}

#[test]
fn decode_slice_with_terminator() {
    let buf: &[u8] = b"ab\0cd";
    assert_eq!(String::from_c(buf), "ab");
}

#[test]
fn decode_fixed_arrays_of_several_widths() {
    let one: [u8; 1] = [0];
    assert_eq!(String::from_c(&one), "");
    let four: [u8; 4] = *b"hi\0x";
    assert_eq!(String::from_c(&four), "hi");
    let eight: [u8; 8] = *b"fullfull";
    assert_eq!(String::from_c(&eight), "fullfull");
    let sixteen: [u8; 16] = *b"N12345\0\0\0\0\0\0\0\0\0\0";
    let s: &str = <&str>::from_c(&sixteen);
    assert_eq!(s, "N12345");
}

#[test]
fn encode_appends_one_terminator() {
    let c = Str2C::try_from_str("hi").unwrap();
    assert_eq!(encoded_bytes(&c, 3), vec![b'h', b'i', 0]);
}

#[test]
fn encode_empty_text_is_not_absent() {
    let c = Str2C::from_ref("");
    let p = c.as_ptr();
    assert!(!p.is_null());
    assert_eq!(encoded_bytes(&c, 1), vec![0]);
}

#[test]
fn encode_fails_on_an_interior_zero() {
    assert_eq!(Str2C::try_from_str("a\0b\0").err(), Some(InteriorNul { position: 1 }));
    assert_eq!(Str2C::try_from_str("\0").err(), Some(InteriorNul { position: 0 }));
}

#[test]
fn encode_succeeds_without_a_zero() {
    assert!(Str2C::try_from_str("no zero here").is_ok());
}

#[test]
fn encode_then_decode_gives_the_text_back() {
    for text in ["", "hello", "h\u{e9}llo \u{2713} \u{1F600}"] {
        let c = Str2C::from_ref(text);
        assert_eq!(String::from_c(c.as_ptr()), text);
    }
}

#[test]
fn encode_absent_probes_null() {
    let c = Str2C::from_option(None);
    assert!(c.as_ptr().is_null());
}

#[test]
fn encode_present_probes_the_text() {
    let c = Str2C::from_option(Some("present"));
    let p = c.as_ptr();
    assert!(!p.is_null());
    assert_eq!(String::from_c(p), "present");
}

#[test]
fn encode_path_text() {
    let c = Str2C::from_path(std::path::Path::new("/tmp/some dir/file.txt")).unwrap();
    assert_eq!(String::from_c(c.as_ptr()), "/tmp/some dir/file.txt");
}

#[test]
fn encode_path_with_interior_zero_fails() {
    let r = Str2C::from_path(std::path::Path::new("a\0b"));
    assert_eq!(r.err(), Some(PathEncodeError::InteriorNul(InteriorNul { position: 1 })));
}

#[test]
fn strlcpy_truncates_and_terminates() {
    let mut dst = [0xAAu8; 3];
    let r = strlcpy(MutPtr::from_slice(&mut dst), "hello", 3);
    assert_eq!(r, 6);
    assert_eq!(&dst, b"he\0");
}

#[test]
fn strlcpy_fits_and_leaves_the_rest() {
    let mut dst = [0xAAu8; 10];
    let r = strlcpy(MutPtr::from_slice(&mut dst), "hi", 10);
    assert_eq!(r, 3);
    assert_eq!(&dst[..3], b"hi\0");
    assert!(dst[3..].iter().all(|&b| b == 0xAA));
}

#[test]
fn strlcpy_with_no_room_writes_nothing() {
    let mut dst = [0xAAu8; 4];
    let r = strlcpy(MutPtr::from_slice(&mut dst), "anything", 0);
    assert_eq!(r, 9);
    assert_eq!(dst, [0xAA; 4]);
    assert_eq!(strlcpy(MutPtr::null(), "", 0), 1);
    assert_eq!(strlcpy(MutPtr::null(), "abc", 0), 4);
}

#[test]
fn strlcpy_never_writes_past_the_capacity() {
    let mut dst = [0xAAu8; 8];
    let r = strlcpy(MutPtr::from_slice(&mut dst), "hello", 4);
    assert_eq!(r, 6);
    assert_eq!(dst, [b'h', b'e', b'l', 0, 0xAA, 0xAA, 0xAA, 0xAA]);
}

#[test]
fn strlcpy_exact_fit() {
    let mut dst = [0xAAu8; 6];
    let r = strlcpy(MutPtr::from_slice(&mut dst), "hello", 6);
    assert_eq!(r, 6);
    assert_eq!(&dst, b"hello\0");
}

#[test]
fn strlcpy_of_empty_text_with_room() {
    let mut dst = [0xAAu8; 2];
    let r = strlcpy(MutPtr::from_slice(&mut dst), "", 2);
    assert_eq!(r, 1);
    assert_eq!(dst, [0, 0xAA]);
}

#[test]
fn strlcpy_counts_bytes_not_characters() {
    let mut dst = [0xAAu8; 16];
    let r = strlcpy(MutPtr::from_slice(&mut dst), "\u{e9}\u{e9}", 16);
    assert_eq!(r, 5);
    assert_eq!(&dst[..5], &[0xC3, 0xA9, 0xC3, 0xA9, 0]);
}

#[test]
fn encode_owned_and_borrowed_strings() {
    let owned = String::from("abc");
    let by_ref = Str2C::from_string_ref(&owned);
    assert_eq!(encoded_bytes(&by_ref, 4), vec![b'a', b'b', b'c', 0]);
    let by_value = Str2C::from_string(owned);
    assert_eq!(String::from_c(by_value.as_ptr()), "abc");
    assert!(by_value == by_ref);
    assert!(by_value.clone() == Str2C::from_ref("abc"));
}

#[test]
fn encode_optional_owned_strings() {
    assert!(Str2C::from_option_string(None).as_ptr().is_null());
    let c = Str2C::from_option_string(Some(String::from("x y")));
    assert_eq!(String::from_c(c.as_ptr()), "x y");
    assert!(Str2C::from_option_string(None) == Str2C::from_option(None));
    assert!(Str2C::from_ref("") != Str2C::from_option(None));
}

#[test]
fn encode_owned_path_text() {
    let path = std::path::PathBuf::from("/var/lib/data.bin");
    let c = Str2C::from_path_buf(&path).unwrap();
    assert_eq!(String::from_c(c.as_ptr()), "/var/lib/data.bin");
    assert!(c == Str2C::from_path(path.as_path()).unwrap());
}

#[test]
fn encode_owned_path_with_interior_zero_fails() {
    let path = std::path::PathBuf::from("x\0");
    assert_eq!(
        Str2C::from_path_buf(&path).err(),
        Some(PathEncodeError::InteriorNul(InteriorNul { position: 1 }))
    );
}
