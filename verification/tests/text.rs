use hp_thermal::bytes::{push_all, push_le, read_le};
use hp_thermal::calendar::{chrono_stamp, date_after, days_in_month, leap_year, Date};
use hp_thermal::path::{parent, same_components, sibling_named, within};
use hp_thermal::text::{
    chars_of, contains, ends_with, eq_ignore_ascii_case, push_decimal, push_hex, push_hex_upper,
    push_padded_decimal, push_padded_hex_upper, same_chars, split_on, starts_with, text_of, trim,
};
use hp_thermal::wide::{from_utf16_lossy, wide_null};

fn chars(s: &str) -> Vec<char> {
    chars_of(s)
}

#[test]
fn texts_come_apart_and_together() {
    assert_eq!(chars("aä€😀"), vec!['a', 'ä', '€', '😀']);
    assert_eq!(text_of(&['a', 'ä', '€', '😀']), "aä€😀");
}

#[test]
fn numbers_are_written_out() {
    let mut s = String::new();
    push_decimal(&mut s, 0);
    push_decimal(&mut s, 1234567890123);
    assert_eq!(s, "01234567890123");
    let mut p = String::new();
    push_padded_decimal(&mut p, 7, 2);
    push_padded_decimal(&mut p, 123, 2);
    push_padded_decimal(&mut p, 5, 4);
    assert_eq!(p, "071230005");
    let mut h = String::new();
    push_hex(&mut h, 0xAB, 4);
    push_hex_upper(&mut h, 0xAB, 2);
    push_padded_hex_upper(&mut h, 0x12345, 4);
    push_padded_hex_upper(&mut h, 0xF, 2);
    assert_eq!(h, "00abAB123450F");
}

#[test]
fn parts_are_found() {
    assert!(contains(&chars("microphone array"), &chars("phone")));
    assert!(contains(&chars("x"), &chars("")));
    assert!(!contains(&chars("x"), &chars("xy")));
    assert!(starts_with(&chars("abc"), &chars("ab")));
    assert!(ends_with(&chars("abc"), &chars("bc")));
    assert!(!ends_with(&chars("abc"), &chars("ab")));
    assert!(same_chars(&chars("ab"), &chars("ab")));
    assert!(eq_ignore_ascii_case(&chars("aBc"), &chars("AbC")));
    assert!(!eq_ignore_ascii_case(&chars("ä"), &chars("Ä")));
}

#[test]
fn pieces_and_spaces() {
    let pieces: Vec<String> = split_on(&chars("a||b"), '|').iter().map(|p| text_of(p)).collect();
    assert_eq!(pieces, vec!["a", "", "b"]);
    assert_eq!(text_of(&trim(&chars(" \t a b \n"))), "a b");
    assert_eq!(text_of(&trim(&chars("   "))), "");
}

#[test]
fn wide_texts_round_trip() {
    for s in ["", "abc", "ä€", "a😀b"] {
        let wide = wide_null(s);
        let mut expected: Vec<u16> = s.encode_utf16().collect();
        expected.push(0);
        assert_eq!(wide, expected);
        assert_eq!(from_utf16_lossy(&wide[..wide.len() - 1]), s);
    }
}

#[test]
fn lone_surrogates_are_replaced() {
    assert_eq!(from_utf16_lossy(&[0x41, 0xD800, 0x42]), "A\u{FFFD}B");
    assert_eq!(from_utf16_lossy(&[0xDC00]), "\u{FFFD}");
}

#[test]
fn paths_have_a_parent() {
    let p = chars("C:\\a\\b.exe");
    assert_eq!(text_of(&parent(&p)), "C:\\a");
    for (path, dir) in [
        ("C:\\b.exe", "C:\\"),
        ("C:b.exe", "C:"),
        ("C:.\\b.exe", "C:."),
        ("a/b//./c/", "a/b"),
        ("./a", "."),
        ("a", ""),
        (".", ""),
        ("\\a", "\\"),
        ("\\", ""),
        ("", ""),
        ("\\\\server\\share\\a", "\\\\server\\share\\"),
        ("\\\\server\\share", ""),
        ("\\\\?\\C:\\a", "\\\\?\\C:\\"),
        ("\\\\?\\C:\\a\\.", "\\\\?\\C:\\a"),
        ("\\\\.\\COM1\\a", "\\\\.\\COM1\\"),
    ] {
        assert_eq!(text_of(&parent(&chars(path))), dir, "{path}");
    }
    assert!(sibling_named(&chars("C:\\a\\x.exe"), &p, &chars("X.EXE")));
    assert!(!sibling_named(&chars("C:\\b\\x.exe"), &p, &chars("x.exe")));
}

#[test]
fn paths_are_compared_by_their_components() {
    let own = chars("C:\\Program Files\\a\\b.exe");
    let sibling = |p: &str| sibling_named(&chars(p), &own, &chars("b.exe"));
    for same in [
        "C:/Program Files/a/b.exe",
        "c:\\Program Files\\a\\B.EXE",
        "C:\\\\Program Files\\a\\\\b.exe",
        "C:\\.\\Program Files\\a\\.\\b.exe",
        "C:\\Program Files\\a\\b.exe\\",
    ] {
        assert!(sibling(same), "{same}");
    }
    for other in [
        "D:\\Program Files\\a\\b.exe",
        "C:Program Files\\a\\b.exe",
        "\\Program Files\\a\\b.exe",
        "C:\\program files\\a\\b.exe",
        "C:\\Program Files\\a\\c\\b.exe",
        "C:\\Program Files\\b.exe",
        "C:\\Program Files\\a\\..\\a\\b.exe",
        "C:\\Program Files\\a",
        "\\\\?\\C:\\Program Files\\a\\b.exe",
        "",
    ] {
        assert!(!sibling(other), "{other}");
    }
    // A share is part of where a path begins.
    let share = chars("\\\\server\\share\\b.exe");
    assert!(sibling_named(&chars("//server/share/b.exe"), &share, &chars("b.exe")));
    assert!(!sibling_named(&chars("\\server\\share\\b.exe"), &share, &chars("b.exe")));
    assert!(!sibling_named(&chars("\\\\server\\b.exe"), &share, &chars("b.exe")));
    // A dot begins a path only where nothing stands before it.
    assert!(same_components(&chars("C:.\\a"), &chars("C:a")));
    assert!(!same_components(&chars(".\\a"), &chars("a")));
    assert!(same_components(&chars("a\\.\\b\\."), &chars("a/b")));
}

#[test]
fn literal_paths_are_compared_by_their_components() {
    let exe = chars("b.exe");
    let literal = chars("\\\\?\\C:\\a\\b.exe");
    let sibling = |p: &str| sibling_named(&chars(p), &literal, &exe);
    for same in [
        "\\\\?\\C:\\a\\b.exe",
        "\\\\?\\c:\\a\\B.EXE",
        "\\\\?\\C:\\\\a\\\\b.exe\\",
    ] {
        assert!(sibling(same), "{same}");
    }
    for other in [
        "\\\\?\\C:\\.\\a\\b.exe",
        "\\\\?\\C:\\a/b.exe",
        "\\\\?\\D:\\a\\b.exe",
        "\\\\?\\UNC\\C:\\a\\b.exe",
        "\\\\.\\C:\\a\\b.exe",
        "//?/C:/a/b.exe",
        "C:\\a\\b.exe",
    ] {
        assert!(!sibling(other), "{other}");
    }
    let same = |a: &str, b: &str| same_components(&chars(a), &chars(b));
    assert!(same("\\\\?\\c:\\x\\hp-thermal.exe", "\\\\?\\C:\\x\\hp-thermal.exe"));
    assert!(same("\\\\?\\UNC\\s\\t\\\\a", "\\\\?\\UNC\\s\\t\\a\\"));
    assert!(!same("\\\\?\\UNC\\s\\t\\a", "\\\\?\\UNC\\s\\u\\a"));
    assert!(!same("\\\\?\\UNC\\s\\t\\a", "\\\\s\\t\\a"));
    assert!(same("\\\\?\\pipe\\a", "\\\\?\\pipe\\\\a"));
    assert!(!same("\\\\?\\pipe\\a", "\\\\?\\Pipe\\a"));
    // A device is no literal path: both slashes separate, and a dot does not count.
    assert!(same("\\\\.\\COM1\\.\\a", "//./COM1/a"));
    assert!(!same("\\\\.\\COM1\\a", "\\\\.\\COM2\\a"));
    assert!(same("//?/x", "\\\\?/x/"));
}

#[test]
fn paths_lie_within_their_directories() {
    let dir = chars("C:\\Program Files\\HpThermal");
    let lies = |p: &str| within(&chars(p), &dir);
    assert!(lies("C:\\Program Files\\HpThermal\\hp-thermal.exe"));
    assert!(lies("c:/Program Files/HpThermal/x/y"));
    assert!(lies("C:\\Program Files\\HpThermal"));
    assert!(!lies("C:\\Program Files\\HpThermal2\\hp-thermal.exe"));
    assert!(!lies("C:\\Program Files"));
    assert!(!lies("D:\\Program Files\\HpThermal\\hp-thermal.exe"));
    let literal = chars("\\\\?\\C:\\a");
    assert!(within(&chars("\\\\?\\C:\\a\\b"), &literal));
    assert!(within(&chars("\\\\?\\c:\\\\a\\b"), &literal));
    assert!(within(&literal, &literal));
    assert!(!within(&chars("\\\\?\\C:\\ab"), &literal));
    assert!(!within(&chars("C:\\a\\b"), &literal));
}

#[test]
fn numbers_are_written_low_byte_first() {
    let mut out: Vec<u8> = Vec::new();
    push_le(&mut out, 0x0102_0304, 4);
    push_le(&mut out, 0xABCD, 2);
    push_all(&mut out, &[9, 8]);
    assert_eq!(out, vec![4, 3, 2, 1, 0xCD, 0xAB, 9, 8]);
    assert_eq!(read_le(&out, 0, 4), 0x0102_0304);
    assert_eq!(read_le(&out, 4, 2), 0xABCD);
    assert_eq!(read_le(&out, 0, 8), u64::from_le_bytes([4, 3, 2, 1, 0xCD, 0xAB, 9, 8]));
}

#[test]
fn stamps_are_utc_dates() {
    assert_eq!(chrono_stamp(0), "19700101_000000");
    assert_eq!(chrono_stamp(951_782_399), "20000228_235959");
    assert_eq!(chrono_stamp(951_782_400), "20000229_000000");
    assert_eq!(chrono_stamp(1_767_268_800), "20260101_120000");
    assert_eq!(chrono_stamp(4_107_542_400), "21000301_000000");
}

#[test]
fn leap_days_are_counted() {
    assert!(leap_year(2000) && leap_year(2024));
    assert!(!leap_year(1900) && !leap_year(2100) && !leap_year(2023));
    assert_eq!(days_in_month(2024, 2), 29);
    assert_eq!(days_in_month(2023, 2), 28);
    assert_eq!(days_in_month(2023, 4), 30);
    assert_eq!(days_in_month(2023, 12), 31);
    assert_eq!(date_after(59), Date { year: 1970, month: 3, day: 1 });
    assert_eq!(date_after(364), Date { year: 1970, month: 12, day: 31 });
}
