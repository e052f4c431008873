use whatwg_infra::collect_codepoints;
use whatwg_infra::is_ascii_tab_newline;
use whatwg_infra::is_c0_control;
use whatwg_infra::is_c0_control_space;
use whatwg_infra::is_noncharacter;
use whatwg_infra::normalize_newlines;
use whatwg_infra::strip_newlines;
use whatwg_infra::trim_ascii_whitespace;

#[test]
fn noncharacter_low_range_all_true() {
    for u in 0xFDD0u32..=0xFDEF {
        let c = char::from_u32(u).unwrap();
        assert!(is_noncharacter(&c));
    }
}

#[test]
fn noncharacter_plane_boundaries_all_true() {
    for plane in 0u32..=16 {
        let fffe = char::from_u32(plane * 0x10000 + 0xFFFE).unwrap();
        let ffff = char::from_u32(plane * 0x10000 + 0xFFFF).unwrap();
        assert!(is_noncharacter(&fffe));
        assert!(is_noncharacter(&ffff));
    }
}

#[test]
fn noncharacter_false_outside() {
    for c in ['\u{0000}', 'a', '\u{FDCF}', '\u{FDF0}', '\u{FFFD}', '\u{1FFFD}', '\u{10FFFD}'] {
        assert!(!is_noncharacter(&c));
    }
}

#[test]
fn c0_control_excludes_delete() {
    assert!(!is_c0_control(&'\u{007F}'));
}

#[test]
fn c0_control_range() {
    assert!(is_c0_control(&'\u{0000}'));
    assert!(is_c0_control(&'\u{001F}'));
    assert!(!is_c0_control(&'\u{0020}'));
}

#[test]
fn c0_control_space_range() {
    assert!(is_c0_control_space(&'\u{0000}'));
    assert!(is_c0_control_space(&'\u{001F}'));
    assert!(is_c0_control_space(&'\u{0020}'));
    assert!(!is_c0_control_space(&'\u{0021}'));
    assert!(!is_c0_control_space(&'\u{007F}'));
}

#[test]
fn ascii_tab_newline_members() {
    assert!(is_ascii_tab_newline(&'\u{0009}'));
    assert!(is_ascii_tab_newline(&'\u{000A}'));
    assert!(is_ascii_tab_newline(&'\u{000D}'));
    assert!(!is_ascii_tab_newline(&' '));
    assert!(!is_ascii_tab_newline(&'\u{000B}'));
    assert!(!is_ascii_tab_newline(&'a'));
}

#[test]
fn normalize_newlines_mixed() {
    assert_eq!(normalize_newlines("a\r\nb\rc\nd"), "a\nb\nc\nd");
}

#[test]
fn normalize_newlines_crlf_is_one_lf() {
    assert_eq!(normalize_newlines("\r\n"), "\n");
    assert_eq!(normalize_newlines("\r\r\n"), "\n\n");
    assert_eq!(normalize_newlines("\r"), "\n");
    assert_eq!(normalize_newlines("x\r"), "x\n");
    assert_eq!(normalize_newlines(""), "");
    assert_eq!(normalize_newlines("plain"), "plain");
}

#[test]
fn strip_newlines_mixed() {
    assert_eq!(strip_newlines("a\r\nb\rc\nd"), "abcd");
}

#[test]
fn strip_newlines_idempotent_values() {
    for s in ["a\r\nb\rc\nd", "", "\r\n\r\n", "no newlines", "\u{10000}\n\u{10001}"] {
        let once = strip_newlines(s);
        let twice = strip_newlines(&once);
        assert_eq!(twice, once);
    }
}

#[test]
fn strip_newlines_only_newlines() {
    assert_eq!(strip_newlines("\n\r\n\r"), "");
}

#[test]
fn trim_ascii_whitespace_mixed() {
    assert_eq!(trim_ascii_whitespace("  \t hi \n "), "hi");
}

#[test]
fn trim_ascii_whitespace_idempotent_values() {
    for s in ["  \t hi \n ", "hi", "", " \u{000C} ", "a b", "\r\nx y\t\r\n"] {
        let once = trim_ascii_whitespace(s);
        let twice = trim_ascii_whitespace(once);
        assert_eq!(twice, once);
    }
}

#[test]
fn trim_ascii_whitespace_all_whitespace() {
    assert_eq!(trim_ascii_whitespace(" \t\n\r\u{000C} "), "");
}

#[test]
fn trim_ascii_whitespace_keeps_interior() {
    assert_eq!(trim_ascii_whitespace(" a \t b "), "a \t b");
    assert_eq!(trim_ascii_whitespace("\u{000B}x\u{000B}"), "\u{000B}x\u{000B}");
}

#[test]
fn collect_codepoints_digits_then_letters() {
    let mut position: usize = 0;
    let digits = collect_codepoints("123abc", &mut position, |c: &char| c.is_ascii_digit());
    assert_eq!(digits, "123");
    assert_eq!(position, 3);
    let letters = collect_codepoints("123abc", &mut position, |c: &char| c.is_ascii_alphabetic());
    assert_eq!(letters, "abc");
    assert_eq!(position, 6);
}

#[test]
fn collect_codepoints_empty_input() {
    let mut position: usize = 0;
    let collected = collect_codepoints("", &mut position, |_c: &char| true);
    assert_eq!(collected, "");
    assert_eq!(position, 0);
}

#[test]
fn collect_codepoints_cursor_at_or_past_end() {
    let mut position: usize = 3;
    let at_end = collect_codepoints("abc", &mut position, |_c: &char| true);
    assert_eq!(at_end, "");
    assert_eq!(position, 3);
    let mut position: usize = 10;
    let past_end = collect_codepoints("abc", &mut position, |_c: &char| true);
    assert_eq!(past_end, "");
    assert_eq!(position, 10);
}

#[test]
fn collect_codepoints_never_matching_predicate() {
    let mut position: usize = 0;
    let collected = collect_codepoints("abc", &mut position, |_c: &char| false);
    assert_eq!(collected, "");
    assert_eq!(position, 0);
}

#[test]
fn collect_codepoints_counts_scalars_not_bytes() {
    // The cursor counts scalar values, so a supplementary-plane character
    // advances it by one and is never split.
    let mut position: usize = 0;
    let collected = collect_codepoints("a\u{10000}b", &mut position, |c: &char| *c != 'b');
    assert_eq!(collected, "a\u{10000}");
    assert_eq!(position, 2);
    let rest = collect_codepoints("a\u{10000}b", &mut position, |_c: &char| true);
    assert_eq!(rest, "b");
    assert_eq!(position, 3);
}

#[test]
fn collect_codepoints_whole_multibyte_input() {
    let mut position: usize = 0;
    let collected = collect_codepoints("\u{1F600}\u{1F601}", &mut position, |_c: &char| true);
    assert_eq!(collected, "\u{1F600}\u{1F601}");
    assert_eq!(position, 2);
}

#[test]
fn normalize_newlines_multibyte_neighbours() {
    assert_eq!(normalize_newlines("\u{10000}\r\n\u{10001}\r"), "\u{10000}\n\u{10001}\n");
}

#[test]
fn strip_newlines_multibyte_neighbours() {
    assert_eq!(strip_newlines("\u{10000}\r\n\u{10001}"), "\u{10000}\u{10001}");
}
