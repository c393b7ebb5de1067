use cat_fax::wrap::word_wrap;

#[test]
fn short_input_is_one_untouched_line() {
    let out = word_wrap("Cats sleep a lot", 30);
    assert_eq!(out, vec!["Cats sleep a lot".to_string()]);
}

#[test]
fn exact_limit_still_fits() {
    let out = word_wrap("abcde", 5);
    assert_eq!(out, vec!["abcde".to_string()]);
}

#[test]
fn greedy_fill_packs_words() {
    let out = word_wrap("The quick brown fox jumps over", 10);
    assert_eq!(
        out,
        vec![
            "The quick".to_string(),
            "brown fox".to_string(),
            "jumps over".to_string(),
        ]
    );
}

#[test]
fn first_word_longer_than_limit_opens_with_an_empty_line() {
    let out = word_wrap("extraordinary cat", 5);
    assert_eq!(
        out,
        vec![
            "".to_string(),
            "extraordinary".to_string(),
            "cat".to_string(),
        ]
    );
}

#[test]
fn repeated_whitespace_separates_words_once() {
    let out = word_wrap("a  b\tc", 2);
    assert_eq!(
        out,
        vec!["a".to_string(), "b".to_string(), "c".to_string()]
    );
}

#[test]
fn trailing_spaces_leave_no_extra_line() {
    let out = word_wrap("hello   ", 5);
    assert_eq!(out, vec!["".to_string(), "hello".to_string()]);
}

#[test]
fn empty_input_fits_trivially() {
    let out = word_wrap("", 10);
    assert_eq!(out, vec!["".to_string()]);
}
