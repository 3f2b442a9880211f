use cinnamon_wallpaper::paths::{is_absolute, join_path};
use cinnamon_wallpaper::text::{
    chars_of, contains_text, decimal3_text, decimal_text, hexadecimal_text, join_texts, parse_u32,
    same_text, signed_decimal_text, split_text, strip_prefix, trim_text,
};

fn strings(items: &[&str]) -> Vec<String> {
    items.iter().map(|s| s.to_string()).collect()
}

#[test]
fn characters_and_equality() {
    assert_eq!(chars_of("aé🎬"), vec!['a', 'é', '🎬']);
    assert!(same_text("añ", "añ"));
    assert!(!same_text("a", "ab"));
    assert!(!same_text("ab", "ac"));
}

#[test]
fn search_in_text() {
    assert!(contains_text("xx_optimizado", "_optimizado"));
    assert!(contains_text("anything", ""));
    assert!(contains_text("", ""));
    assert!(!contains_text("ab", "abc"));
    assert!(!contains_text("aab", "aba"));
    assert_eq!(strip_prefix("out_time_ms=12", "out_time_ms="), Some("12".to_string()));
    assert_eq!(strip_prefix("out_time", "out_time_ms="), None);
    assert_eq!(strip_prefix("xout", "out"), None);
}

#[test]
fn split_undoes_join() {
    let pieces = strings(&["a", "", "ñ b", "c"]);
    let joined = join_texts(&pieces, '|');
    assert_eq!(joined, "a||ñ b|c");
    assert_eq!(split_text(&joined, '|'), pieces);
    assert_eq!(split_text("", '|'), strings(&[""]));
    assert_eq!(join_texts(&Vec::new(), '|'), "");
}

#[test]
fn numbers_as_text() {
    assert_eq!(decimal_text(0), "0");
    assert_eq!(decimal_text(u64::MAX), "18446744073709551615");
    assert_eq!(hexadecimal_text(0), "0");
    assert_eq!(hexadecimal_text(0xdead_beef_0042), "deadbeef0042");
    assert_eq!(decimal3_text(7), "007");
    assert_eq!(decimal3_text(42), "042");
    assert_eq!(decimal3_text(100), "100");
    assert_eq!(decimal3_text(1234), "1234");
    assert_eq!(signed_decimal_text(-1920), "-1920");
    assert_eq!(signed_decimal_text(i32::MIN), "-2147483648");
    assert_eq!(signed_decimal_text(5), "5");
}

#[test]
fn text_as_number() {
    for n in [0u32, 7, 1000, u32::MAX] {
        assert_eq!(parse_u32(&decimal_text(n as u64)), Some(n));
    }
    assert_eq!(parse_u32("+5"), Some(5));
    assert_eq!(parse_u32("007"), Some(7));
    assert_eq!(parse_u32("4294967296"), None);
    assert_eq!(parse_u32("99999999999999999999999"), None);
    assert_eq!(parse_u32(""), None);
    assert_eq!(parse_u32("+"), None);
    assert_eq!(parse_u32("-1"), None);
    assert_eq!(parse_u32(" 1"), None);
    assert_eq!(parse_u32("1a"), None);
}

#[test]
fn number_parsing_agrees_with_std() {
    for s in ["0", "+0", "++1", "1+", "١", "00000000000000000001", "4294967295", "-0"] {
        assert_eq!(parse_u32(s), s.parse::<u32>().ok(), "{}", s);
    }
}

#[test]
fn paths_join_like_std() {
    for (a, b) in [("/a", "b"), ("/a/", "b"), ("", "b"), ("/a", "/b"), ("a", ""), ("/", "x/y")] {
        assert_eq!(
            join_path(a, b),
            std::path::Path::new(a).join(b).to_string_lossy().to_string()
        );
    }
    assert!(is_absolute("/x"));
    assert!(!is_absolute("x/"));
    assert!(!is_absolute(""));
}

#[test]
fn white_space_is_trimmed() {
    assert_eq!(trim_text(" \t a b\r\n"), "a b");
    assert_eq!(trim_text(""), "");
    assert_eq!(trim_text(" \u{3000}\u{85}"), "");
    assert_eq!(trim_text("\u{2003}ñ\u{a0}"), "ñ");
    assert_eq!(trim_text("\u{1e}x\u{200b}"), "\u{1e}x\u{200b}");
    for n in 0..0x11000 {
        if let Some(c) = char::from_u32(n) {
            let text = format!("{}x{}", c, c);
            assert_eq!(trim_text(&text), text.trim(), "{:x}", n);
        }
    }
}
