use explorer_tab_merger::text::{
    decode_utf16, decode_utf16_lossy, encode_utf16, eq_ignore_ascii_case, from_le_bytes, same_text,
    to_address, to_le_bytes, to_numeral, to_signed_decimal, trim_at_nul,
};

fn samples() -> Vec<&'static str> {
    vec!["", "a", "file:///C:/x", "\u{0}", "\u{D7FF}\u{E000}\u{FFFF}", "\u{10000}\u{10FFFF}", "回收站😀z"]
}

#[test]
fn utf16_agrees_with_the_standard_library() {
    for s in samples() {
        let units: Vec<u16> = s.encode_utf16().collect();
        assert_eq!(encode_utf16(s), units);
        assert_eq!(decode_utf16_lossy(&units), s);
        assert_eq!(decode_utf16(&units).as_deref(), Some(s));
    }
}

#[test]
fn broken_utf16_agrees_with_the_standard_library() {
    let pieces: [u16; 6] = [0x41, 0xD800, 0xDBFF, 0xDC00, 0xDFFF, 0xE000];
    for a in pieces {
        for b in pieces {
            for c in pieces {
                let v = [a, b, c];
                assert_eq!(decode_utf16_lossy(&v), String::from_utf16_lossy(&v));
                assert_eq!(decode_utf16(&v), String::from_utf16(&v).ok());
            }
        }
    }
}

#[test]
fn units_are_cut_at_the_first_zero() {
    assert_eq!(trim_at_nul(&[1, 2, 0, 3]), vec![1, 2]);
    assert_eq!(trim_at_nul(&[0, 1]), Vec::<u16>::new());
    assert_eq!(trim_at_nul(&[1, 2]), vec![1, 2]);
    assert_eq!(trim_at_nul(&[]), Vec::<u16>::new());
}

#[test]
fn bytes_are_little_endian() {
    assert_eq!(to_le_bytes(&[0x1234, 0x00FF]), vec![0x34, 0x12, 0xFF, 0x00]);
    assert_eq!(from_le_bytes(&[0x34, 0x12, 0xFF, 0x00]), vec![0x1234, 0x00FF]);
    assert_eq!(from_le_bytes(&[0x34, 0x12, 0x99]), vec![0x1234]);
}

#[test]
fn numerals_agree_with_the_standard_library() {
    for n in [0u64, 1, 9, 10, 11, 65_536, 99_999, u64::MAX] {
        assert_eq!(to_numeral(n, 10), format!("{}", n));
        assert_eq!(to_numeral(n, 16), format!("{:x}", n));
        assert_eq!(to_numeral(n, 2), format!("{:b}", n));
        assert_eq!(to_address(n as usize), format!("{:#x}", n as usize));
    }
    for n in [0i32, 7, -1, -10, i32::MAX, i32::MIN] {
        assert_eq!(to_signed_decimal(n), format!("{}", n));
    }
}

#[test]
fn case_is_ignored_for_ascii_only() {
    assert!(eq_ignore_ascii_case("Files.exe", "FILES.EXE"));
    assert!(eq_ignore_ascii_case("", ""));
    assert!(!eq_ignore_ascii_case("Files.exe", "Files.ex"));
    assert!(!eq_ignore_ascii_case("É", "é"));
    assert!(!eq_ignore_ascii_case("@", "`"));
    assert!(!eq_ignore_ascii_case("[", "{"));
    for a in ["a", "Z", "@", "[", "é"] {
        for b in ["A", "z", "`", "{", "É"] {
            assert_eq!(eq_ignore_ascii_case(a, b), a.eq_ignore_ascii_case(b));
        }
    }
    assert!(same_text("ab", "ab"));
    assert!(!same_text("ab", "aB"));
}
