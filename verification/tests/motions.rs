use cat_editor::lines::{line_col_to_offset, offset_to_line_col};
use cat_editor::vim_mode::{CharSearchDirection, CharSearchType, VimState};

const SAMPLE: &str = "hello world\nfoo bar\n\nbaz";

fn state() -> VimState {
    VimState::default()
}

#[test]
fn address_round_trip_holds_for_every_offset() {
    let texts = ["", "a", "ab\nc", SAMPLE, "line\n", "\n\n", "x\r\ny"];
    for text in texts {
        let n = text.chars().count();
        for o in 0..=n {
            let (line, col) = offset_to_line_col(text, o);
            assert_eq!(line_col_to_offset(text, line, col), o, "text {text:?} offset {o}");
        }
    }
}

#[test]
fn address_translation_matches_sample() {
    assert_eq!(offset_to_line_col(SAMPLE, 0), (0, 0));
    assert_eq!(offset_to_line_col(SAMPLE, 11), (0, 11));
    assert_eq!(offset_to_line_col(SAMPLE, 12), (1, 0));
    assert_eq!(offset_to_line_col(SAMPLE, 20), (2, 0));
    assert_eq!(offset_to_line_col(SAMPLE, 21), (3, 0));
    assert_eq!(offset_to_line_col(SAMPLE, 24), (3, 3));
    assert_eq!(line_col_to_offset(SAMPLE, 1, 0), 12);
    assert_eq!(line_col_to_offset(SAMPLE, 1, 99), 19);
    assert_eq!(line_col_to_offset(SAMPLE, 99, 0), 24);
}

#[test]
fn address_degenerate_offset_clamps_to_last_line() {
    let (line, col) = offset_to_line_col(SAMPLE, 999);
    assert_eq!((line, col), (3, 0));
}

#[test]
fn char_left_right_clamp() {
    let st = state();
    let mut cur = 2usize;
    st.move_left(SAMPLE, &mut cur, 5);
    assert_eq!(cur, 0);
    st.move_right(SAMPLE, &mut cur, 3);
    assert_eq!(cur, 3);
    st.move_right(SAMPLE, &mut cur, 1000);
    assert_eq!(cur, 24);
    st.move_right(SAMPLE, &mut cur, 1);
    assert_eq!(cur, 24);
}

#[test]
fn word_forward_scenario() {
    // text "hello world\nfoo bar\n\nbaz", cursor at 0: w lands on "world",
    // a second w lands on "foo"
    let st = state();
    let mut cur = 0usize;
    st.move_word_forward(SAMPLE, &mut cur, 1, false);
    assert_eq!(cur, 6);
    st.move_word_forward(SAMPLE, &mut cur, 1, false);
    assert_eq!(cur, 12);
}

#[test]
fn paragraph_forward_scenario() {
    // } from offset 0 lands on the blank line (offset 20, column 0)
    let st = state();
    let mut cur = 0usize;
    st.move_paragraph_forward(SAMPLE, &mut cur, 1);
    assert_eq!(cur, 20);
}

#[test]
fn line_end_scenario() {
    // $ from offset 12 lands on the last char of "foo bar" (the 'r')
    let st = state();
    let mut cur = 12usize;
    st.move_line_end(SAMPLE, &mut cur);
    assert_eq!(cur, 18);
}

#[test]
fn line_start_scenario() {
    // 0 from anywhere on line 1 lands at offset 12
    let st = state();
    for from in 12..=19usize {
        let mut cur = from;
        st.move_line_start(SAMPLE, &mut cur);
        assert_eq!(cur, 12);
    }
}

#[test]
fn word_forward_saturates_at_end_and_repeats_as_noop() {
    // last word of a buffer with no trailing newline: w lands at
    // char_count and repeating it moves nothing
    let text = "hello world";
    let st = state();
    let mut cur = 6usize;
    st.move_word_forward(text, &mut cur, 1, false);
    assert_eq!(cur, 11);
    st.move_word_forward(text, &mut cur, 1, false);
    assert_eq!(cur, 11);
}

#[test]
fn count_composition_for_word_motions() {
    let st = state();
    let mut once_twice = 0usize;
    st.move_word_forward(SAMPLE, &mut once_twice, 1, false);
    st.move_word_forward(SAMPLE, &mut once_twice, 1, false);
    let mut with_count = 0usize;
    st.move_word_forward(SAMPLE, &mut with_count, 2, false);
    assert_eq!(with_count, once_twice);
}

#[test]
fn count_composition_for_vertical_motions() {
    // 3j equals j,j,j when every line is long enough for the column
    let text = "aaaa\nbbbb\ncccc\ndddd";
    let st = state();
    let mut jump = 2usize;
    st.move_down(text, &mut jump, 3);
    let mut steps = 2usize;
    st.move_down(text, &mut steps, 1);
    st.move_down(text, &mut steps, 1);
    st.move_down(text, &mut steps, 1);
    assert_eq!(jump, steps);
    assert_eq!(jump, 17);
}

#[test]
fn vertical_motion_reapplies_source_column() {
    // the middle line is shorter: a single 2j keeps the source column
    let text = "abcdef\nx\nabcdef";
    let st = state();
    let mut cur = 4usize;
    st.move_down(text, &mut cur, 2);
    assert_eq!(cur, 9 + 4);
}

#[test]
fn vertical_motions_clamp_to_first_and_last_line() {
    let st = state();
    let mut cur = 2usize;
    st.move_up(SAMPLE, &mut cur, 10);
    assert_eq!(cur, 2);
    let mut cur = 2usize;
    st.move_down(SAMPLE, &mut cur, 99);
    assert_eq!(cur, 23);
}

#[test]
fn word_end_and_backward() {
    let st = state();
    let mut cur = 0usize;
    st.move_word_end("hello world", &mut cur, 1, false);
    assert_eq!(cur, 4);
    let mut cur = 6usize;
    st.move_word_backward("hello world", &mut cur, 1, false);
    assert_eq!(cur, 0);
}

#[test]
fn small_word_and_big_word_differ_on_punctuation() {
    let st = state();
    let mut cur = 0usize;
    st.move_word_forward("ab-cd ef", &mut cur, 1, false);
    assert_eq!(cur, 2);
    let mut cur = 0usize;
    st.move_word_forward("ab-cd ef", &mut cur, 1, true);
    assert_eq!(cur, 6);
}

#[test]
fn first_non_blank_finds_first_word() {
    let st = state();
    let text = "   padded\n\t\t\nend";
    let mut cur = 0usize;
    st.move_first_non_blank(text, &mut cur);
    assert_eq!(cur, 3);
    let mut cur = 10usize;
    st.move_first_non_blank(text, &mut cur);
    assert_eq!(cur, 10);
}

#[test]
fn goto_line_clamps_and_uses_one_based_counts() {
    let st = state();
    let mut cur = 0usize;
    st.move_to_line(SAMPLE, &mut cur, 3);
    assert_eq!(cur, 20);
    st.move_to_line(SAMPLE, &mut cur, 99);
    assert_eq!(cur, 21);
    st.move_to_line(SAMPLE, &mut cur, usize::MAX);
    assert_eq!(cur, 21);
    st.move_to_line(SAMPLE, &mut cur, 1);
    assert_eq!(cur, 0);
}

#[test]
fn paragraph_backward_lands_on_paragraph_start() {
    let st = state();
    let mut cur = 21usize;
    st.move_paragraph_backward(SAMPLE, &mut cur, 1);
    assert_eq!(cur, 0);
}

#[test]
fn find_char_forward_and_backward() {
    let mut st = state();
    let text = "abcabc";
    let mut cur = 0usize;
    st.find_char(text, &mut cur, 'b', CharSearchDirection::Forward, CharSearchType::To, 1);
    assert_eq!(cur, 1);
    st.find_char(text, &mut cur, 'b', CharSearchDirection::Forward, CharSearchType::To, 1);
    assert_eq!(cur, 4);
    st.find_char(text, &mut cur, 'a', CharSearchDirection::Backward, CharSearchType::To, 1);
    assert_eq!(cur, 3);
    let mut cur = 0usize;
    st.find_char(text, &mut cur, 'c', CharSearchDirection::Forward, CharSearchType::Before, 2);
    assert_eq!(cur, 4);
}

#[test]
fn failed_search_is_inert() {
    // text "abcabc", cursor at 0: searching forward for 'z' moves
    // nothing and leaves the memory unset
    let mut st = state();
    let mut cur = 0usize;
    st.find_char("abcabc", &mut cur, 'z', CharSearchDirection::Forward, CharSearchType::To, 1);
    assert_eq!(cur, 0);
    assert!(st.last_char_search.is_none());
}

#[test]
fn motions_never_leave_the_buffer() {
    // every motion stays within [0, char_count]
    let st = state();
    let texts = ["", "x", SAMPLE, "\n\n\n", "word"];
    for text in texts {
        let n = text.chars().count();
        for from in 0..=n {
            for count in [0usize, 1, 2, 100] {
                let motions: Vec<Box<dyn Fn(&mut usize)>> = vec![
                    Box::new(|c: &mut usize| st.move_left(text, c, count)),
                    Box::new(|c: &mut usize| st.move_right(text, c, count)),
                    Box::new(|c: &mut usize| st.move_down(text, c, count)),
                    Box::new(|c: &mut usize| st.move_up(text, c, count)),
                    Box::new(|c: &mut usize| st.move_word_forward(text, c, count, false)),
                    Box::new(|c: &mut usize| st.move_word_end(text, c, count, true)),
                    Box::new(|c: &mut usize| st.move_word_backward(text, c, count, false)),
                    Box::new(|c: &mut usize| st.move_paragraph_forward(text, c, count)),
                    Box::new(|c: &mut usize| st.move_paragraph_backward(text, c, count)),
                ];
                for m in motions {
                    let mut cur = from;
                    m(&mut cur);
                    assert!(cur <= n, "text {text:?} from {from} count {count}");
                }
            }
        }
    }
}
