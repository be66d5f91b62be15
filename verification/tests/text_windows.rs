use hss_cli::config::locate_entry;
use hss_cli::text::{chars_of, find, space, trim, window_is};

#[test]
fn space_covers_unicode_white_space() {
    for c in [' ', '\t', '\n', '\u{b}', '\u{c}', '\r', '\u{85}', '\u{a0}', '\u{1680}', '\u{2000}', '\u{200a}', '\u{2028}', '\u{2029}', '\u{202f}', '\u{205f}', '\u{3000}'] {
        assert!(space(c));
    }
    for c in ['a', '=', '#', '\u{8}', '\u{e}', '\u{1f}', '\u{200b}', '\u{feff}', '\u{180e}', '\u{2060}'] {
        assert!(!space(c));
    }
}

#[test]
fn space_agrees_with_the_standard_library_on_every_character() {
    for n in 0..=0x10FFFFu32 {
        if let Some(c) = char::from_u32(n) {
            assert_eq!(space(c), c.is_whitespace());
        }
    }
}

#[test]
fn chars_of_lists_characters_not_bytes() {
    assert_eq!(chars_of("aé\u{3000}"), vec!['a', 'é', '\u{3000}']);
    assert_eq!(chars_of(""), Vec::<char>::new());
}

#[test]
fn find_returns_first_match_or_window_end() {
    let v = chars_of("a=b=c");
    assert_eq!(find(&v, 0, 5, '='), 1);
    assert_eq!(find(&v, 2, 5, '='), 3);
    assert_eq!(find(&v, 4, 5, '='), 5);
    assert_eq!(find(&v, 0, 1, '='), 1);
    assert_eq!(find(&v, 3, 3, '='), 3);
}

#[test]
fn trim_narrows_the_window() {
    let v = chars_of("  ab c \t");
    assert_eq!(trim(&v, 0, 8), (2, 6));
    assert_eq!(trim(&v, 2, 6), (2, 6));
    assert_eq!(trim(&v, 4, 5), (5, 5));
    let blank = chars_of(" \u{a0} ");
    assert_eq!(trim(&blank, 0, 3), (3, 3));
}

#[test]
fn window_is_compares_exactly() {
    let v = chars_of("xuserx");
    let word = chars_of("user");
    assert!(window_is(&v, 1, 5, &word));
    assert!(!window_is(&v, 0, 4, &word));
    assert!(!window_is(&v, 1, 4, &word));
    assert!(!window_is(&v, 1, 6, &word));
}

#[test]
fn locate_entry_finds_key_and_value_windows() {
    let v = chars_of("  user = ada=1  ");
    let at = locate_entry(&v, 0, v.len()).unwrap();
    assert_eq!((at.key_from, at.key_to, at.value_from, at.value_to), (2, 6, 9, 14));
    for line in ["", "   ", "# user=ada", "no separator"] {
        let v = chars_of(line);
        assert!(locate_entry(&v, 0, v.len()).is_none());
    }
    let v = chars_of("=");
    let at = locate_entry(&v, 0, 1).unwrap();
    assert_eq!((at.key_to - at.key_from, at.value_to - at.value_from), (0, 0));
}
