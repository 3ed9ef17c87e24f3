use attributed_text::text::boundaries::char_is_whitespace;
use attributed_text::text::boundaries::line_start_in;
use attributed_text::text::boundaries::word_start_in;

#[test]
fn white_space_is_what_the_standard_library_calls_white_space() {
    let mut code: u32 = 0;
    while code <= 0x10FFFF {
        if let Some(c) = char::from_u32(code) {
            assert_eq!(char_is_whitespace(c), c.is_whitespace(), "U+{:04X}", code);
        }
        code += 1;
    }
}

#[test]
fn word_starts_behind_the_nearest_white_space() {
    assert_eq!(word_start_in("abc def", 7), 4);
    assert_eq!(word_start_in("abc def", 5), 4);
    assert_eq!(word_start_in("abc def", 4), 4);
    assert_eq!(word_start_in("abc def", 3), 0);
    assert_eq!(word_start_in("abc def", 0), 0);
    assert_eq!(word_start_in("a\tb\u{3000}cd", 6), 4);
    assert_eq!(word_start_in("a\nb", 3), 2);
    assert_eq!(word_start_in("", 0), 0);
}

#[test]
fn line_starts_behind_the_nearest_newline() {
    assert_eq!(line_start_in("abc def", 7), 0);
    assert_eq!(line_start_in("ab\ncd\nef", 8), 6);
    assert_eq!(line_start_in("ab\ncd\nef", 6), 6);
    assert_eq!(line_start_in("ab\ncd\nef", 5), 3);
    assert_eq!(line_start_in("ab\ncd\nef", 3), 3);
    assert_eq!(line_start_in("ab\ncd\nef", 2), 0);
    assert_eq!(line_start_in("ab cd", 5), 0);
}

#[test]
fn scans_count_characters_not_bytes() {
    assert_eq!(word_start_in("é ö", 3), 2);
    assert_eq!(line_start_in("é\nöö", 4), 2);
}
