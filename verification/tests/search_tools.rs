use cat_editor::find_replace::FindReplace;
use cat_editor::fuzzy_finder::fuzzy_match;
use cat_editor::hotkey::command_input::CommandInput as HotkeyCommandInput;
use cat_editor::hotkey::find_replace::FindReplace as HotkeyFindReplace;
use cat_editor::search::{fuzzy_find_files, search_content};

#[test]
fn find_matches_is_case_insensitive_by_default() {
    let mut fr = FindReplace::default();
    fr.find_text = String::from("hello");
    let found = fr.find_matches("Hello hello HELLO");
    assert_eq!(found, vec![0, 6, 12]);
    assert_eq!(fr.match_count, 3);
}

#[test]
fn find_matches_respects_case_sensitivity() {
    let mut fr = FindReplace::default();
    fr.find_text = String::from("hello");
    fr.case_sensitive = true;
    assert_eq!(fr.find_matches("Hello hello HELLO"), vec![6]);
}

#[test]
fn find_matches_reports_overlapping_occurrences() {
    let mut fr = FindReplace::default();
    fr.find_text = String::from("aa");
    assert_eq!(fr.find_matches("aaaa"), vec![0, 1, 2]);
}

#[test]
fn empty_pattern_matches_nothing() {
    let mut fr = FindReplace::default();
    assert_eq!(fr.find_matches("anything"), Vec::<usize>::new());
    assert_eq!(fr.match_count, 0);
}

#[test]
fn match_navigation_wraps_both_ways() {
    let mut fr = FindReplace::default();
    fr.find_text = String::from("a");
    fr.find_matches("a b a");
    assert_eq!(fr.current_match, 0);
    fr.go_to_next_match();
    assert_eq!(fr.current_match, 1);
    fr.go_to_next_match();
    assert_eq!(fr.current_match, 0);
    fr.go_to_prev_match();
    assert_eq!(fr.current_match, 1);
}

#[test]
fn replace_next_replaces_the_current_match_and_rescans() {
    let mut fr = FindReplace::default();
    fr.find_text = String::from("a");
    fr.replace_text = String::from("b");
    let mut text = String::from("aaa");
    fr.find_matches(&text);
    assert!(fr.replace_next(&mut text));
    assert_eq!(text, "baa");
    assert_eq!(fr.matches, vec![1, 2]);
    assert!(fr.replace_next(&mut text));
    assert_eq!(text, "bba");
}

#[test]
fn replace_next_without_matches_does_nothing() {
    let mut fr = FindReplace::default();
    fr.find_text = String::from("z");
    let mut text = String::from("aaa");
    fr.find_matches(&text);
    assert!(!fr.replace_next(&mut text));
    assert_eq!(text, "aaa");
}

#[test]
fn replace_all_replaces_every_match() {
    let mut fr = FindReplace::default();
    fr.find_text = String::from("ab");
    fr.replace_text = String::from("x");
    let mut text = String::from("ab ab ab");
    fr.find_matches(&text);
    let count = fr.replace_all(&mut text);
    assert_eq!(count, 3);
    assert_eq!(text, "x x x");
    assert_eq!(fr.match_count, 0);
    assert!(fr.matches.is_empty());
}

#[test]
fn replace_with_longer_text_grows_the_buffer() {
    let mut fr = FindReplace::default();
    fr.find_text = String::from("a");
    fr.replace_text = String::from("long");
    let mut text = String::from("a-a");
    fr.find_matches(&text);
    fr.replace_all(&mut text);
    assert_eq!(text, "long-long");
}

#[test]
fn match_status_counts_from_one() {
    let mut fr = FindReplace::default();
    assert_eq!(fr.match_status(), "");
    fr.find_text = String::from("a");
    fr.find_matches("a a");
    assert_eq!(fr.match_status(), "1 of 2");
    fr.go_to_next_match();
    assert_eq!(fr.match_status(), "2 of 2");
    fr.find_matches("zzz");
    assert_eq!(fr.match_status(), "No matches");
}

#[test]
fn find_replace_toggle_resets_match_state_when_opening() {
    let mut fr = FindReplace::default();
    fr.match_count = 5;
    fr.current_match = 2;
    fr.matches = vec![1, 2, 3];
    fr.toggle();
    assert!(fr.open);
    assert_eq!(fr.match_count, 0);
    assert_eq!(fr.current_match, 0);
    assert!(fr.matches.is_empty());
    fr.close();
    assert!(!fr.open);
}

#[test]
fn hotkey_find_replace_moves_the_cursor_between_matches() {
    let mut fr = HotkeyFindReplace::default();
    fr.find_text = String::from("b");
    fr.find_matches("b--b--b");
    let mut cursor = 0usize;
    fr.go_to_next_match(&mut cursor);
    assert_eq!((fr.current_match, cursor), (1, 3));
    fr.go_to_next_match(&mut cursor);
    assert_eq!((fr.current_match, cursor), (2, 6));
    fr.go_to_next_match(&mut cursor);
    assert_eq!((fr.current_match, cursor), (0, 0));
    fr.go_to_prev_match(&mut cursor);
    assert_eq!((fr.current_match, cursor), (2, 6));
}

#[test]
fn hotkey_find_replace_reports_highlight_ranges() {
    let mut fr = HotkeyFindReplace::default();
    fr.find_text = String::from("ab");
    fr.find_matches("ab ab");
    assert_eq!(fr.get_highlight_ranges(), vec![(0, 2), (3, 5)]);
    assert_eq!(fr.get_current_match_range(), Some((0, 2)));
    fr.matches.clear();
    assert_eq!(fr.get_current_match_range(), None);
}

#[test]
fn hotkey_replace_all_matches_plain_version() {
    let mut fr = HotkeyFindReplace::default();
    fr.find_text = String::from("a");
    fr.replace_text = String::from("o");
    let mut text = String::from("banana");
    fr.find_matches(&text);
    assert_eq!(fr.replace_all(&mut text), 3);
    assert_eq!(text, "bonono");
}

#[test]
fn hotkey_command_input_opens_and_closes() {
    let mut ci = HotkeyCommandInput::default();
    ci.input = String::from("old");
    ci.open();
    assert!(ci.open);
    assert_eq!(ci.input, "");
    ci.close();
    assert!(!ci.open);
}

#[test]
fn search_content_reports_matching_lines_with_numbers() {
    let hits = search_content("foo\nbar\nFOOd\n", "foo");
    let got: Vec<(usize, &str)> =
        hits.iter().map(|m| (m.line_number, m.line_content.as_str())).collect();
    assert_eq!(got, vec![(1, "foo"), (3, "FOOd")]);
}

#[test]
fn search_content_without_hits_is_empty() {
    assert!(search_content("alpha\nbeta", "zzz").is_empty());
}

#[test]
fn fuzzy_match_scores_subsequences() {
    assert_eq!(fuzzy_match("abc", ""), 1);
    assert_eq!(fuzzy_match("abc", "z"), 0);
    // 'b' in the middle: the plain match bonus alone
    assert_eq!(fuzzy_match("abc", "b"), 100);
    // leading char: match plus word-boundary bonus
    assert_eq!(fuzzy_match("abc", "a"), 130);
    // after an underscore: match plus boundary bonus
    assert_eq!(fuzzy_match("a_b", "b"), 130);
    // consecutive matches: second char gets the run bonus
    assert_eq!(fuzzy_match("abc", "ab"), 280);
}

#[test]
fn fuzzy_find_files_ranks_matches_best_first() {
    let files = vec![
        (String::from("docs/readme.md"), String::from("/p/docs/readme.md")),
        (String::from("src/main.rs"), String::from("/p/src/main.rs")),
        (String::from("main.rs"), String::from("/p/main.rs")),
    ];
    let hits = fuzzy_find_files("main", &files, 10);
    assert_eq!(hits.len(), 2);
    assert!(hits[0].0 >= hits[1].0);
    let names: Vec<&str> = hits.iter().map(|h| h.1.as_str()).collect();
    assert!(names.contains(&"src/main.rs"));
    assert!(names.contains(&"main.rs"));
    let limited = fuzzy_find_files("main", &files, 1);
    assert_eq!(limited.len(), 1);
    assert_eq!(limited[0].0, hits[0].0);
}
