use effort_picker::{is_white_space_char, word_wrap};

#[test]
fn zero_width_keeps_text_whole() {
    assert_eq!(word_wrap("  a b  ", 0), vec!["  a b  ".to_string()]);
}

#[test]
fn text_without_words_gives_one_empty_line() {
    assert_eq!(word_wrap("", 10), vec![String::new()]);
    assert_eq!(word_wrap(" \t\n ", 10), vec![String::new()]);
}

#[test]
fn greedy_lines_collapse_white_space() {
    assert_eq!(
        word_wrap("  a  bb ccc\tdddd  ", 6),
        vec!["a bb".to_string(), "ccc".to_string(), "dddd".to_string()]
    );
}

#[test]
fn long_word_stands_alone() {
    assert_eq!(
        word_wrap("supercalifragilistic is long", 5),
        vec![
            "supercalifragilistic".to_string(),
            "is".to_string(),
            "long".to_string()
        ]
    );
}

#[test]
fn word_that_exactly_fits_stays_on_line() {
    assert_eq!(
        word_wrap("ab cd ef", 5),
        vec!["ab cd".to_string(), "ef".to_string()]
    );
}

#[test]
fn description_wraps_to_three_lines() {
    assert_eq!(
        word_wrap(
            "May use excessive tokens resulting in long response times or overthinking. Use sparingly for the hardest tasks.",
            48
        ),
        vec![
            "May use excessive tokens resulting in long".to_string(),
            "response times or overthinking. Use sparingly".to_string(),
            "for the hardest tasks.".to_string(),
        ]
    );
}

#[test]
fn unicode_white_space_separates_words() {
    assert_eq!(
        word_wrap("a\u{3000}b\u{a0}c\u{2014}d", 100),
        vec!["a b c\u{2014}d".to_string()]
    );
    assert!(is_white_space_char(' '));
    assert!(is_white_space_char('\u{85}'));
    assert!(is_white_space_char('\u{2009}'));
    assert!(!is_white_space_char('\u{200b}'));
    assert!(!is_white_space_char('x'));
    for c in ['\t', '\n', '\r', ' ', '\u{a0}', '\u{1680}', '\u{2028}', '\u{3000}', 'a', '\u{2014}'] {
        assert_eq!(is_white_space_char(c), c.is_whitespace());
    }
}
