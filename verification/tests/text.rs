use trowel::page::{char_is_whitespace, find_char, trim_tail};
use trowel::text::Input;

#[test]
fn blanks_are_skipped() {
    let input = Input::new(" \t\r\n x ");
    assert_eq!(input.len(), 7);
    assert_eq!(input.skip_spaces(0), 5);
    assert_eq!(input.skip_spaces(5), 5);
    assert_eq!(input.skip_spaces(6), 7);
    assert_eq!(input.skip_spaces(7), 7);
}

#[test]
fn names_and_paths_end_at_other_characters() {
    let input = Input::new("ab_1-x 9a a::b::c::9 d:e f::");
    assert_eq!(input.name_end(0), 4);
    assert_eq!(input.name_end(4), 4);
    assert_eq!(input.name_end(7), 7);
    assert_eq!(input.path_end(0), 4);
    assert_eq!(input.path_end(10), 17);
    assert_eq!(input.path_end(21), 22);
    assert_eq!(input.path_end(25), 26);
    assert_eq!(input.path_end(28), 28);
}

#[test]
fn literals_end_after_their_closing_delimiter() {
    let input = Input::new("\"a\\\"b\" r\"x\" r##\"a\"#b\"## r#x \"open r#\"open\" \"\\");
    assert_eq!(input.literal_end(0), Some(6));
    assert_eq!(input.literal_end(7), Some(11));
    assert_eq!(input.literal_end(12), Some(23));
    assert_eq!(input.literal_end(24), None);
    assert_eq!(input.literal_end(1), None);
    assert!(!input.literal_starts(1));
    assert!(input.literal_starts(24));
    assert_eq!(input.literal_end(28), Some(37));
    assert_eq!(input.literal_end(34), None);
    assert_eq!(input.literal_end(43), None);
}

#[test]
fn groups_end_at_their_own_delimiter() {
    let input = Input::new("a{b}c}d");
    assert_eq!(input.group_end(0, '{', '}'), Some(5));
    assert_eq!(input.group_end(2, '{', '}'), Some(3));
    assert_eq!(input.group_end(6, '{', '}'), None);
    let other = Input::new("(])\"]\\\"]\" ']' '\\]' 'a ]");
    assert_eq!(other.group_end(0, '[', ']'), Some(1));
    assert_eq!(other.group_end(2, '[', ']'), Some(22));
    let open = Input::new("a \"]");
    assert_eq!(open.group_end(0, '[', ']'), None);
}

#[test]
fn trimmed_text_loses_blanks_at_both_ends() {
    let input = Input::new("  a b \n ");
    assert_eq!(input.trimmed(0, 8), "a b");
    assert_eq!(input.trimmed(0, 2), "");
    assert_eq!(input.trimmed(3, 5), "b");
    assert_eq!(input.slice(1, 4), " a ");
}

#[test]
fn unicode_white_space_is_trimmed_from_values() {
    let input = Input::new("k:\u{a0}\u{3000} v\u{2003}w \u{85}\u{2028}");
    assert_eq!(find_char(&input, ':'), Some(1));
    assert_eq!(find_char(&input, '#'), None);
    assert_eq!(trim_tail(&input, 2), "v\u{2003}w");
    assert_eq!(input.len(), 11);
    assert_eq!(trim_tail(&input, 11), "");
    assert_eq!(trim_tail(&input, 8), "");
    for c in ['\t', '\n', '\u{b}', '\u{c}', '\r', ' ', '\u{1680}', '\u{200a}', '\u{202f}', '\u{205f}'] {
        assert!(char_is_whitespace(c));
        assert!(c.is_whitespace());
    }
    for c in ['a', '\u{200b}', '\u{8}', '\u{e}', '\u{180e}', '\u{feff}'] {
        assert!(!char_is_whitespace(c));
        assert!(!c.is_whitespace());
    }
}

#[test]
fn white_space_agrees_with_the_standard_library() {
    let mut c = '\0';
    loop {
        assert_eq!(char_is_whitespace(c), c.is_whitespace());
        match char::from_u32(c as u32 + 1) {
            Some(next) => c = next,
            None => {
                if c as u32 >= 0x10ffff {
                    break;
                }
                c = '\u{e000}';
            }
        }
    }
}
