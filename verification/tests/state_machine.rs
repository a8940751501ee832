use cat_editor::vim_mode::{CharSearchDirection, CharSearchType, Pending, VimEvent, VimMode, VimState};

const SAMPLE: &str = "hello world\nfoo bar\n\nbaz";

fn run(st: &mut VimState, keys: &str, text: &str, cur: &mut usize) {
    let events: Vec<VimEvent> = keys.chars().map(VimEvent::Char).collect();
    st.handle_input(&events, text, cur);
}

#[test]
fn starts_in_normal_mode_with_empty_count() {
    let st = VimState::default();
    assert_eq!(st.mode, VimMode::Normal);
    assert_eq!(st.count_buffer, "");
    assert!(st.last_char_search.is_none());
    assert_eq!(st.pending, Pending::Idle);
}

#[test]
fn insert_mode_escape_retreats_cursor() {
    // text "ab", cursor at 2 in Insert mode, Escape pressed: cursor 1
    let mut st = VimState::default();
    st.mode = VimMode::Insert;
    let mut cur = 2usize;
    st.handle_event(VimEvent::Escape, "ab", &mut cur);
    assert_eq!(st.mode, VimMode::Normal);
    assert_eq!(cur, 1);
}

#[test]
fn insert_mode_escape_clamps_at_zero() {
    let mut st = VimState::default();
    st.mode = VimMode::Insert;
    let mut cur = 0usize;
    st.handle_event(VimEvent::Escape, "ab", &mut cur);
    assert_eq!(st.mode, VimMode::Normal);
    assert_eq!(cur, 0);
}

#[test]
fn i_enters_insert_mode() {
    let mut st = VimState::default();
    let mut cur = 0usize;
    run(&mut st, "i", SAMPLE, &mut cur);
    assert_eq!(st.mode, VimMode::Insert);
    assert_eq!(cur, 0);
}

#[test]
fn typed_digits_accumulate_to_count_ten() {
    // digits "1" then "0" yield the count 10
    let mut st = VimState::default();
    let mut cur = 0usize;
    run(&mut st, "10", SAMPLE, &mut cur);
    assert_eq!(st.count_buffer, "10");
    assert_eq!(st.get_count(), 10);
    assert_eq!(cur, 0);
}

#[test]
fn lone_zero_is_line_start_not_a_count() {
    // a lone "0" with an empty accumulator triggers the line-start
    // motion and never becomes a pending count
    let mut st = VimState::default();
    let mut cur = 15usize;
    run(&mut st, "0", SAMPLE, &mut cur);
    assert_eq!(cur, 12);
    assert_eq!(st.count_buffer, "");
}

#[test]
fn count_applies_to_motion_and_clears() {
    let mut st = VimState::default();
    let mut cur = 0usize;
    run(&mut st, "2w", SAMPLE, &mut cur);
    assert_eq!(cur, 12);
    assert_eq!(st.count_buffer, "");
}

#[test]
fn escape_clears_pending_count() {
    let mut st = VimState::default();
    let mut cur = 0usize;
    run(&mut st, "42", SAMPLE, &mut cur);
    assert_eq!(st.count_buffer, "42");
    st.handle_event(VimEvent::Escape, SAMPLE, &mut cur);
    assert_eq!(st.count_buffer, "");
    assert_eq!(st.mode, VimMode::Normal);
}

#[test]
fn scenario_word_paragraph_line_end_line_start() {
    // the full sample scenario, driven through the state machine
    let mut st = VimState::default();
    let mut cur = 0usize;
    run(&mut st, "w", SAMPLE, &mut cur);
    assert_eq!(cur, 6);
    run(&mut st, "w", SAMPLE, &mut cur);
    assert_eq!(cur, 12);
    let mut cur = 0usize;
    run(&mut st, "}", SAMPLE, &mut cur);
    assert_eq!(cur, 20);
    let mut cur = 12usize;
    run(&mut st, "$", SAMPLE, &mut cur);
    assert_eq!(cur, 18);
    let mut cur = 15usize;
    run(&mut st, "0", SAMPLE, &mut cur);
    assert_eq!(cur, 12);
}

#[test]
fn motion_keys_move_the_cursor() {
    let mut st = VimState::default();
    let mut cur = 0usize;
    run(&mut st, "l", SAMPLE, &mut cur);
    assert_eq!(cur, 1);
    run(&mut st, "h", SAMPLE, &mut cur);
    assert_eq!(cur, 0);
    run(&mut st, "j", SAMPLE, &mut cur);
    assert_eq!(cur, 12);
    run(&mut st, "k", SAMPLE, &mut cur);
    assert_eq!(cur, 0);
    run(&mut st, "G", SAMPLE, &mut cur);
    assert_eq!(cur, 21);
    run(&mut st, "2G", SAMPLE, &mut cur);
    assert_eq!(cur, 12);
    run(&mut st, "^", "   x", &mut cur);
    assert_eq!(cur, 3);
}

#[test]
fn pending_char_search_consumes_the_next_key() {
    let mut st = VimState::default();
    let mut cur = 0usize;
    run(&mut st, "f", "abcabc", &mut cur);
    assert_eq!(st.pending, Pending::CharSearch(CharSearchDirection::Forward, CharSearchType::To));
    run(&mut st, "b", "abcabc", &mut cur);
    assert_eq!(cur, 1);
    assert_eq!(st.pending, Pending::Idle);
    assert_eq!(
        st.last_char_search,
        Some(('b', CharSearchDirection::Forward, CharSearchType::To))
    );
}

#[test]
fn failed_pending_search_leaves_cursor_and_memory() {
    // searching forward for 'z' in "abcabc" from 0 moves nothing and
    // leaves the search memory unset
    let mut st = VimState::default();
    let mut cur = 0usize;
    run(&mut st, "fz", "abcabc", &mut cur);
    assert_eq!(cur, 0);
    assert!(st.last_char_search.is_none());
    assert_eq!(st.pending, Pending::Idle);
}

#[test]
fn semicolon_repeats_and_comma_reverses_without_mutating_memory() {
    let mut st = VimState::default();
    let mut cur = 0usize;
    run(&mut st, "fb", "abcabc", &mut cur);
    assert_eq!(cur, 1);
    run(&mut st, ";", "abcabc", &mut cur);
    assert_eq!(cur, 4);
    run(&mut st, ",", "abcabc", &mut cur);
    assert_eq!(cur, 1);
    // the stored direction is still forward
    assert_eq!(
        st.last_char_search,
        Some(('b', CharSearchDirection::Forward, CharSearchType::To))
    );
    run(&mut st, ";", "abcabc", &mut cur);
    assert_eq!(cur, 4);
}

#[test]
fn count_applies_to_char_search_target() {
    let mut st = VimState::default();
    let mut cur = 0usize;
    run(&mut st, "2fb", "abcabc", &mut cur);
    assert_eq!(cur, 4);
}

#[test]
fn unrecognized_keys_change_nothing() {
    let mut st = VimState::default();
    let mut cur = 5usize;
    run(&mut st, "3", SAMPLE, &mut cur);
    run(&mut st, "q", SAMPLE, &mut cur);
    assert_eq!(cur, 5);
    assert_eq!(st.mode, VimMode::Normal);
    assert_eq!(st.count_buffer, "3");
}

#[test]
fn insert_mode_ignores_typed_characters() {
    let mut st = VimState::default();
    st.mode = VimMode::Insert;
    let mut cur = 1usize;
    run(&mut st, "hjkl", "ab", &mut cur);
    assert_eq!(cur, 1);
    assert_eq!(st.mode, VimMode::Insert);
}

#[test]
fn stale_cursor_is_clamped_into_the_buffer() {
    let mut st = VimState::default();
    let mut cur = 99usize;
    run(&mut st, "h", "abc", &mut cur);
    assert_eq!(cur, 2);
}

#[test]
fn get_count_parses_the_buffer() {
    let mut st = VimState::default();
    assert_eq!(st.get_count(), 1);
    st.count_buffer = String::from("12");
    assert_eq!(st.get_count(), 12);
    st.count_buffer = String::from("not a number");
    assert_eq!(st.get_count(), 1);
}

#[test]
fn get_mode_string_reports_mode_and_pending_count() {
    let mut st = VimState::default();
    assert_eq!(st.get_mode_string(), "NORMAL");
    let mut cur = 0usize;
    run(&mut st, "7", SAMPLE, &mut cur);
    assert_eq!(st.get_mode_string(), "NORMAL - 7");
    run(&mut st, "i", SAMPLE, &mut cur);
    assert_eq!(st.get_mode_string(), "INSERT");
}
