use editor_core::word::{
    find_next_occur_backward, find_next_occur_forward, find_word_end_forward,
    find_word_start_backward, find_word_start_forward,
};

#[test]
fn word_motions_on_mixed_classes() {
    // "foo  bar-baz": word-forward from 0 lands on the 'b' of "bar";
    // word-end-forward from 0 lands on the second 'o' of "foo";
    // word-start-backward from the end lands on the start of the non-space
    // run "bar-baz"
    let line = String::from("foo  bar-baz");
    assert_eq!(find_word_start_forward(&line, 0), Some(5));
    assert_eq!(find_word_end_forward(&line, 0), Some(2));
    assert_eq!(find_word_start_backward(&line, 12), Some(5));
    assert_eq!(find_word_start_backward(&line, 11), Some(5));
}

#[test]
fn punctuation_is_its_own_class() {
    // the '-' separates "bar" and "baz" into words of their own
    let line = String::from("foo  bar-baz");
    assert_eq!(find_word_start_forward(&line, 5), Some(8));
    assert_eq!(find_word_start_forward(&line, 8), Some(9));
    assert_eq!(find_word_end_forward(&line, 5), Some(7));
}

#[test]
fn all_space_text_has_no_words() {
    let line = String::from("     ");
    assert_eq!(find_word_start_forward(&line, 0), None);
    assert_eq!(find_word_end_forward(&line, 0), None);
    assert_eq!(find_word_start_backward(&line, 5), None);
}

#[test]
fn single_class_text_has_no_transitions() {
    let line = String::from("aaaa");
    assert_eq!(find_word_start_forward(&line, 0), None);
    assert_eq!(find_word_end_forward(&line, 0), None);
    // backward from inside a run that reaches the start returns 0
    assert_eq!(find_word_start_backward(&line, 3), Some(0));
    assert_eq!(find_word_start_backward(&line, 0), None);
}

#[test]
fn occurrence_scans() {
    let line = String::from("abcabc");
    assert_eq!(find_next_occur_forward(&line, 0, 'b'), Some(1));
    assert_eq!(find_next_occur_forward(&line, 2, 'b'), Some(4));
    assert_eq!(find_next_occur_forward(&line, 0, 'z'), None);
    // backward scan reports the distance from the scan origin
    assert_eq!(find_next_occur_backward(&line, 6, 'c'), Some(0));
    assert_eq!(find_next_occur_backward(&line, 6, 'a'), Some(2));
    assert_eq!(find_next_occur_backward(&line, 6, 'z'), None);
}
