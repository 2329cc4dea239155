use tape_machine::brackets::seek_closing_brace;
use tape_machine::error::VMError;

fn chars(s: &str) -> Vec<char> {
    s.chars().collect()
}

#[test]
fn seek_finds_first_close_of_flat_body() {
    assert_eq!(seek_closing_brace(&chars("[-]+"), 1), Ok(2));
}

#[test]
fn seek_on_close_itself_returns_it() {
    assert_eq!(seek_closing_brace(&chars("[]"), 1), Ok(1));
    assert_eq!(seek_closing_brace(&chars("]"), 0), Ok(0));
}

#[test]
fn seek_steps_over_nested_loops() {
    //                                   0123456789012
    assert_eq!(seek_closing_brace(&chars("[a[b[c]d]e]f]"), 1), Ok(10));
    assert_eq!(seek_closing_brace(&chars("[a[b[c]d]e]f]"), 3), Ok(8));
    assert_eq!(seek_closing_brace(&chars("[a[b[c]d]e]f]"), 5), Ok(6));
    assert_eq!(seek_closing_brace(&chars("[[][][[]]]"), 1), Ok(9));
}

#[test]
fn seek_steps_over_deep_nesting() {
    let mut text = String::from("[");
    for _ in 0..500 {
        text.push('[');
    }
    for _ in 0..500 {
        text.push(']');
    }
    text.push(']');
    text.push(']');
    assert_eq!(seek_closing_brace(&chars(&text), 1), Ok(1001));
}

#[test]
fn seek_fails_without_a_close() {
    assert_eq!(seek_closing_brace(&chars("["), 1), Err(VMError::UnmatchedOpenBrace));
    assert_eq!(seek_closing_brace(&chars("[+++"), 1), Err(VMError::UnmatchedOpenBrace));
    assert_eq!(seek_closing_brace(&chars(""), 0), Err(VMError::UnmatchedOpenBrace));
}

#[test]
fn seek_fails_when_only_nested_loops_close() {
    assert_eq!(seek_closing_brace(&chars("[[]"), 1), Err(VMError::UnmatchedOpenBrace));
    assert_eq!(seek_closing_brace(&chars("[[][[]]"), 1), Err(VMError::UnmatchedOpenBrace));
}

#[test]
fn seek_from_beyond_the_end_fails() {
    assert_eq!(seek_closing_brace(&chars("[]"), 2), Err(VMError::UnmatchedOpenBrace));
    assert_eq!(seek_closing_brace(&chars("[]"), 7), Err(VMError::UnmatchedOpenBrace));
}

#[test]
fn seek_ignores_other_characters() {
    assert_eq!(seek_closing_brace(&chars("[ab+-<>.,#\n]"), 1), Ok(11));
}
