use fuzzy::pattern::{fold_char, Pattern};

#[test]
fn fold_char_lowers_ascii_capitals() {
    assert_eq!(fold_char('A'), 'a');
    assert_eq!(fold_char('M'), 'm');
    assert_eq!(fold_char('Z'), 'z');
}

#[test]
fn fold_char_keeps_every_other_ascii_character() {
    assert_eq!(fold_char('a'), 'a');
    assert_eq!(fold_char('z'), 'z');
    assert_eq!(fold_char('@'), '@');
    assert_eq!(fold_char('['), '[');
    assert_eq!(fold_char('`'), '`');
    assert_eq!(fold_char('{'), '{');
    assert_eq!(fold_char('0'), '0');
    assert_eq!(fold_char('/'), '/');
    assert_eq!(fold_char('\n'), '\n');
    assert_eq!(fold_char('\x7f'), '\x7f');
}

#[test]
fn fold_char_lowers_capitals_beyond_ascii() {
    assert_eq!(fold_char('\u{c9}'), '\u{e9}');
    assert_eq!(fold_char('\u{e9}'), '\u{e9}');
    assert_eq!(fold_char('\u{3a9}'), '\u{3c9}');
    assert_eq!(fold_char('\u{416}'), '\u{436}');
    assert_eq!(fold_char('\u{130}'), 'i');
}

#[test]
fn fold_char_keeps_what_has_no_case() {
    assert_eq!(fold_char('\u{80}'), '\u{80}');
    assert_eq!(fold_char('\u{4e2d}'), '\u{4e2d}');
    assert_eq!(fold_char('\u{1f600}'), '\u{1f600}');
    assert_eq!(fold_char('\u{10ffff}'), '\u{10ffff}');
}

#[test]
fn a_pattern_matches_its_characters_in_order() {
    let pattern = Pattern::new("ap");
    assert!(pattern.matches("apple.txt"));
    assert!(pattern.matches("app.rs"));
    assert!(pattern.matches("a/deep/path"));
    assert!(!pattern.matches("banana.txt"));
    assert!(!pattern.matches("pa"));
}

#[test]
fn the_characters_need_not_be_next_to_each_other() {
    let pattern = Pattern::new("srm");
    assert!(pattern.matches("src/main.rs"));
    assert!(pattern.matches("s-r-m"));
    assert!(!pattern.matches("src/lib.rs"));
}

#[test]
fn a_character_is_used_once() {
    let pattern = Pattern::new("aa");
    assert!(!pattern.matches("a"));
    assert!(pattern.matches("aa"));
    assert!(pattern.matches("banana"));
}

#[test]
fn case_does_not_count() {
    assert!(Pattern::new("AP").matches("apple.txt"));
    assert!(Pattern::new("ap").matches("APPLE.TXT"));
    assert!(Pattern::new("rEaDmE").matches("docs/ReadMe.md"));
}

#[test]
fn case_does_not_count_beyond_ascii() {
    assert!(Pattern::new("\u{e9}").matches("caf\u{e9}"));
    assert!(Pattern::new("\u{c9}").matches("caf\u{e9}"));
    assert!(Pattern::new("caf\u{e9}").matches("CAF\u{c9}.TXT"));
    assert!(Pattern::new("\u{436}").matches("\u{416}\u{423}\u{420}\u{41d}\u{410}\u{41b}"));
    assert!(!Pattern::new("\u{e9}").matches("cafe"));
    assert!(!Pattern::new("e").matches("caf\u{e9}"));
}

#[test]
fn punctuation_is_matched_as_it_stands() {
    assert!(Pattern::new(".").matches("a.b"));
    assert!(!Pattern::new(".").matches("ab"));
    assert!(Pattern::new("(").matches("notes (old).txt"));
    assert!(!Pattern::new("a|b").matches("b"));
    assert!(Pattern::new("a|b").matches("a|b"));
    assert!(Pattern::new("*").matches("a*"));
    assert!(!Pattern::new("*").matches("a"));
}

#[test]
fn a_line_break_in_a_path_is_a_character_like_others() {
    assert!(Pattern::new("ab").matches("a\nb"));
}

#[test]
fn the_empty_pattern_matches_every_path() {
    let pattern = Pattern::new("");
    assert_eq!(pattern.len(), 0);
    assert!(pattern.matches(""));
    assert!(pattern.matches("anything"));
}

#[test]
fn no_pattern_but_the_empty_one_matches_the_empty_path() {
    assert!(!Pattern::new("a").matches(""));
}

#[test]
fn a_pattern_longer_than_the_path_does_not_match() {
    assert!(!Pattern::new("abcd").matches("abc"));
    assert!(Pattern::new("abc").matches("abc"));
}

#[test]
fn a_pattern_extends_its_prefixes() {
    let ap = Pattern::new("ap");
    let app = Pattern::new("app");
    let empty = Pattern::new("");
    assert!(app.extends(&ap));
    assert!(app.extends(&app));
    assert!(app.extends(&empty));
    assert!(empty.extends(&empty));
    assert!(!ap.extends(&app));
    assert!(!empty.extends(&ap));
    assert!(!Pattern::new("ax").extends(&ap));
    assert!(!Pattern::new("xap").extends(&ap));
}

#[test]
fn extending_is_by_the_characters_as_typed() {
    assert!(!Pattern::new("Ap").extends(&Pattern::new("a")));
}

#[test]
fn a_clone_matches_the_same() {
    let pattern = Pattern::new("ap");
    let copy = pattern.clone();
    assert_eq!(copy.len(), 2);
    assert!(copy.matches("apple"));
    assert!(!copy.matches("banana"));
}

#[test]
fn a_match_of_a_query_is_a_match_of_its_prefix() {
    let paths = ["apple.txt", "banana.txt", "app.rs", "src/app/main.rs", "", "pa"];
    let shorter = Pattern::new("ap");
    let longer = Pattern::new("app");
    for path in paths.iter() {
        if longer.matches(path) {
            assert!(shorter.matches(path));
        }
    }
}
