use polygon_script::scan::{chars_of, find_char, find_space, same_text, space, split_lines, split_words};

#[test]
fn chars_of_keeps_every_character() {
    assert_eq!(chars_of("a 1"), vec!['a', ' ', '1']);
    assert_eq!(chars_of(""), Vec::<char>::new());
    assert_eq!(chars_of("é1"), vec!['é', '1']);
}

#[test]
fn find_char_gives_the_first_or_the_end() {
    let chars = chars_of("1,2,3");
    assert_eq!(find_char(&chars, 0, ','), 1);
    assert_eq!(find_char(&chars, 2, ','), 3);
    assert_eq!(find_char(&chars, 4, ','), 5);
    assert_eq!(find_char(&chars, 5, ','), 5);
}

#[test]
fn spaces_are_five_characters() {
    for c in [' ', '\t', '\n', '\r', '\x0C'] {
        assert!(space(c));
    }
    assert!(!space('a'));
    assert!(!space('\u{a0}'));
}

#[test]
fn find_space_gives_the_first_or_the_end() {
    let chars = chars_of("POLY 0,0\t1,1");
    assert_eq!(find_space(&chars, 0), 4);
    assert_eq!(find_space(&chars, 4), 4);
    assert_eq!(find_space(&chars, 5), 8);
    assert_eq!(find_space(&chars, 9), 12);
}

#[test]
fn same_text_compares_characters() {
    assert!(same_text("POLY", "POLY"));
    assert!(!same_text("POLY", "poly"));
    assert!(!same_text("POLY", "POLYGON"));
    assert!(same_text("", ""));
}

#[test]
fn split_lines_cuts_at_every_line_feed() {
    assert_eq!(split_lines("a\nb"), vec!["a", "b"]);
    assert_eq!(split_lines(""), vec![""]);
    assert_eq!(split_lines("a\n"), vec!["a", ""]);
    assert_eq!(split_lines("\n\nx"), vec!["", "", "x"]);
    assert_eq!(split_lines("a 1 2\r\nr 3 4"), vec!["a 1 2\r", "r 3 4"]);
}

#[test]
fn split_words_drops_the_spaces() {
    assert_eq!(split_words("0,0 2,0 1,1", 0), vec!["0,0", "2,0", "1,1"]);
    assert_eq!(split_words("  0,0 \t 2,0\n", 0), vec!["0,0", "2,0"]);
    assert_eq!(split_words("POLY 0,0 2,0", 4), vec!["0,0", "2,0"]);
    assert_eq!(split_words("", 0), Vec::<String>::new());
    assert_eq!(split_words("   ", 0), Vec::<String>::new());
}
