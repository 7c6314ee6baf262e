use mmd::text::is_blank;
use mmd::text::join_lines;
use mmd::text::normalize_name;
use mmd::text::pad_with_zeros;
use mmd::text::starts_with;
use mmd::text::window_title_or_placeholder;
use mmd::text::write_bool;
use mmd::text::write_hex;
use mmd::text::write_signed;
use mmd::text::write_unsigned;
use mmd::utf16::decode;
use mmd::utf16::encode;
use mmd::utf16::string_from_wide_slice;
use mmd::utf16::text_from_buffer;
use mmd::utf16::wide_null;
use mmd::utf16::write_tip;

#[test]
fn empty_window_title_uses_a_diagnostic_placeholder() {
    assert_eq!(window_title_or_placeholder(String::new()), "(untitled)");
    assert_eq!(window_title_or_placeholder("   ".to_string()), "(untitled)");
    assert_eq!(
        window_title_or_placeholder("Settings".to_string()),
        "Settings"
    );
}

#[test]
fn names_are_compared_without_the_case_of_ascii_letters() {
    assert_eq!(normalize_name("Shell_TrayWnd"), "shell_traywnd");
    assert_eq!(normalize_name("\u{c4}BC\u{130}xyz"), "\u{c4}bc\u{130}xyz");
    assert_eq!(normalize_name("@[`{"), "@[`{");
    assert_eq!(normalize_name(&normalize_name("MiXeD")), normalize_name("MiXeD"));
    for code in 0u32..0x3000 {
        if let Some(ch) = char::from_u32(code) {
            let text = ch.to_string();
            assert_eq!(normalize_name(&text), text.to_ascii_lowercase());
        }
    }
}

#[test]
fn blank_is_what_trimming_leaves_nothing_of() {
    for code in 0u32..0x11_0000 {
        if let Some(ch) = char::from_u32(code) {
            let text = ch.to_string();
            assert_eq!(is_blank(&text), text.trim().is_empty());
        }
    }
    assert!(is_blank(""));
    assert!(is_blank(" \t\r\n\u{3000}"));
    assert!(!is_blank("  x "));
}

#[test]
fn numbers_are_written() {
    for value in vec![0u64, 1, 9, 10, 99, 100, 12345, u64::MAX] {
        assert_eq!(write_unsigned(value), value.to_string());
    }
    for value in vec![0i64, -1, 7, -10, i64::MAX, i64::MIN] {
        assert_eq!(write_signed(value), value.to_string());
    }
    for value in vec![0u32, 9, 10, 15, 16, 0xABC, 0xFFFF, 0x10000, u32::MAX] {
        assert_eq!(write_hex(value, 4), format!("{value:04X}"));
    }
    assert_eq!(pad_with_zeros("7".to_string(), 3), "007");
    assert_eq!(pad_with_zeros("1234".to_string(), 3), "1234");
    assert_eq!(write_bool(true), "true");
    assert_eq!(write_bool(false), "false");
}

#[test]
fn prefixes_are_recognised() {
    assert!(starts_with("Failed: x", "Failed:"));
    assert!(starts_with("Failed:", "Failed:"));
    assert!(starts_with("anything", ""));
    assert!(!starts_with("Fail", "Failed:"));
    assert!(!starts_with("failed: x", "Failed:"));
}

#[test]
fn lines_are_joined_with_line_breaks() {
    assert_eq!(join_lines(&vec![]), "");
    assert_eq!(join_lines(&vec!["one".to_string()]), "one");
    assert_eq!(
        join_lines(&vec!["one".to_string(), String::new(), "three".to_string()]),
        "one\r\n\r\nthree"
    );
}

#[test]
fn encoding_agrees_with_the_standard_one() {
    for text in vec!["", "abc", "\u{e4}\u{20ac}", "a\u{1f600}b", "\u{10ffff}\u{ffff}\u{10000}"] {
        let units: Vec<u16> = text.encode_utf16().collect();
        assert_eq!(encode(text), units);
        assert_eq!(decode(&units), text);
    }
}

#[test]
fn broken_text_is_decoded_like_the_standard_one() {
    let buffers: Vec<Vec<u16>> = vec![
        vec![0xD800],
        vec![0xDC00, 0x41],
        vec![0xD83D, 0xDE00],
        vec![0xD83D, 0x41, 0xDE00],
        vec![0xD800, 0xD800, 0xDC00],
        vec![0xDBFF, 0xDFFF, 0xD800],
    ];
    for units in buffers {
        assert_eq!(decode(&units), String::from_utf16_lossy(&units));
    }
}

#[test]
fn wide_text_ends_with_a_zero() {
    assert_eq!(wide_null("ab"), vec![97, 98, 0]);
    assert_eq!(wide_null(""), vec![0]);
    assert_eq!(string_from_wide_slice(&wide_null("\u{1f600}ok")), "\u{1f600}ok");
    let mut buffer = wide_null("head\u{0}tail");
    buffer.extend(vec![0xD800, 7, 0]);
    assert_eq!(string_from_wide_slice(&buffer), "head");
}

#[test]
fn wide_buffers_are_read_up_to_the_first_zero() {
    assert_eq!(string_from_wide_slice(&[65, 66, 0, 67]), "AB");
    assert_eq!(string_from_wide_slice(&[65, 66]), "AB");
    assert_eq!(string_from_wide_slice(&[0, 66]), "");
    assert_eq!(string_from_wide_slice(&[]), "");
}

#[test]
fn filled_buffers_are_read_as_far_as_they_are_filled() {
    assert_eq!(text_from_buffer(&[65, 66, 67], 2), "AB");
    assert_eq!(text_from_buffer(&[65, 66, 67], 0), "");
    assert_eq!(text_from_buffer(&[65, 66, 67], -1), "");
    assert_eq!(text_from_buffer(&[65, 0, 67], 3), "A\u{0}C");
}

#[test]
fn tips_are_cut_to_their_buffer() {
    assert_eq!(write_tip("abc", 8), vec![97, 98, 99, 0, 0, 0, 0, 0]);
    assert_eq!(write_tip("abcdefg", 8), vec![97, 98, 99, 100, 101, 102, 103, 0]);
    assert_eq!(write_tip("abcdefgh", 8), vec![97, 98, 99, 100, 46, 46, 46, 0]);
    let long = "x".repeat(500);
    let tip = write_tip(&long, 128);
    assert_eq!(tip.len(), 128);
    assert_eq!(tip[123], 120);
    assert_eq!(tip[124], 46);
    assert_eq!(tip[126], 46);
    assert_eq!(tip[127], 0);
}

#[test]
fn encoding_goes_text_by_text() {
    let mut units = encode("a\u{1f600}");
    units.extend(encode("\u{20ac}b"));
    assert_eq!(encode("a\u{1f600}\u{20ac}b"), units);
}
