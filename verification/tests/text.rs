//! Text.

use tendr::text::trim;

#[test]
fn white_space_is_what_the_standard_library_takes_for_it() {
    for c in '\0'..=char::MAX {
        let text = format!("{c}x{c}");
        let bare = trim(&text) == "x";
        assert_eq!(bare, c.is_whitespace(), "{:x}", c as u32);
    }
}

#[test]
fn only_the_ends_are_trimmed() {
    assert_eq!(trim("\u{3000}\t a \u{85}b\u{2028}\r\n"), "a \u{85}b");
    assert_eq!(trim(" \u{200b} "), "\u{200b}", "no white space");
    assert_eq!(trim(" \n "), "");
}
