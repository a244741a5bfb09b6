use shell_engine::parse::parse_command;
use shell_engine::text::{chars_of, find_in, is_space_char, same_text, split, trim_range};

#[test]
fn parse_splits_at_the_first_space_only() {
    assert_eq!(parse_command("  echo   hello world  "), (Some("echo"), Some("hello world")));
}

#[test]
fn parse_empty_line_has_no_name() {
    assert_eq!(parse_command(""), (None, None));
}

#[test]
fn parse_blank_lines_have_no_name() {
    assert_eq!(parse_command("   "), (None, None));
    assert_eq!(parse_command("\t\n"), (None, None));
    assert_eq!(parse_command(" \u{a0}\u{3000}\r\n"), (None, None));
}

#[test]
fn parse_name_alone() {
    assert_eq!(parse_command("pwd"), (Some("pwd"), None));
    assert_eq!(parse_command("  pwd\n"), (Some("pwd"), None));
}

#[test]
fn parse_keeps_inner_spaces_of_the_argument() {
    assert_eq!(parse_command("echo a  b   c\n"), (Some("echo"), Some("a  b   c")));
}

#[test]
fn parse_a_tab_does_not_split() {
    assert_eq!(parse_command("echo\thello"), (Some("echo\thello"), None));
}

#[test]
fn parse_trims_the_name_of_other_white_space() {
    assert_eq!(parse_command("echo\t hello"), (Some("echo"), Some("hello")));
}

#[test]
fn parse_counts_characters_not_bytes() {
    assert_eq!(parse_command(" \u{2003}héllo  wörld\u{2003} "), (Some("héllo"), Some("wörld")));
}

#[test]
fn parse_exit_with_arguments() {
    assert_eq!(parse_command("exit 0 now"), (Some("exit"), Some("0 now")));
}

#[test]
fn white_space_is_the_unicode_property() {
    let white = [
        '\u{9}', '\u{a}', '\u{b}', '\u{c}', '\u{d}', ' ', '\u{85}', '\u{a0}', '\u{1680}', '\u{2000}',
        '\u{2005}', '\u{200a}', '\u{2028}', '\u{2029}', '\u{202f}', '\u{205f}', '\u{3000}',
    ];
    for c in white {
        assert!(is_space_char(c));
    }
    for c in ['a', '0', '/', '~', '\u{8}', '\u{e}', '\u{200b}', '\u{feff}', '\u{1f}'] {
        assert!(!is_space_char(c));
    }
}

#[test]
fn white_space_agrees_with_std_on_every_character() {
    let mut n: u32 = 0;
    while n <= 0x10ffff {
        if let Some(c) = char::from_u32(n) {
            assert_eq!(is_space_char(c), c.is_whitespace());
        }
        n += 1;
    }
}

#[test]
fn chars_of_lists_the_characters() {
    assert_eq!(chars_of("aé/"), vec!['a', 'é', '/']);
    assert_eq!(chars_of(""), Vec::<char>::new());
}

#[test]
fn same_text_compares_characters() {
    assert!(same_text("exit", "exit"));
    assert!(same_text("", ""));
    assert!(!same_text("exit", "exi"));
    assert!(!same_text("exit", "exiT"));
    assert!(!same_text("", " "));
}

#[test]
fn trim_range_gives_the_bounds_of_the_kept_part() {
    let v = chars_of("  ab c \t");
    assert_eq!(trim_range(&v, 0, v.len()), (2, 6));
    assert_eq!(trim_range(&v, 3, 5), (3, 4));
    assert_eq!(trim_range(&v, 6, 8), (8, 8));
}

#[test]
fn find_in_gives_the_first_occurrence_or_the_end() {
    let v = chars_of("a b c");
    assert_eq!(find_in(&v, 0, 5, ' '), 1);
    assert_eq!(find_in(&v, 2, 5, ' '), 3);
    assert_eq!(find_in(&v, 4, 5, ' '), 5);
    assert_eq!(find_in(&v, 0, 5, 'x'), 5);
}

#[test]
fn split_cuts_at_every_separator() {
    assert_eq!(split("/usr/bin:/bin", ':'), vec!["/usr/bin", "/bin"]);
    assert_eq!(split("a::b:", ':'), vec!["a", "", "b", ""]);
    assert_eq!(split("", ':'), vec![""]);
    assert_eq!(split("/a//b", '/'), vec!["", "a", "", "b"]);
}
