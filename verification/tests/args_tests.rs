use cat_fax::args::{parse_args, parse_usize, ArgOutcome, TerminalArgs};

fn args(words: &[&str]) -> Vec<String> {
    words.iter().map(|w| w.to_string()).collect()
}

fn parsed(outcome: ArgOutcome) -> TerminalArgs {
    match outcome {
        ArgOutcome::Parsed(t) => t,
        other => panic!("expected parsed flags, got {:?}", other),
    }
}

#[test]
fn parse_usize_accepts_plain_numbers() {
    assert_eq!(parse_usize("7"), Some(7));
    assert_eq!(parse_usize("0"), Some(0));
    assert_eq!(parse_usize("007"), Some(7));
    assert_eq!(parse_usize("+42"), Some(42));
    assert_eq!(parse_usize("18446744073709551615"), Some(usize::MAX));
}

#[test]
fn parse_usize_rejects_everything_else() {
    assert_eq!(parse_usize(""), None);
    assert_eq!(parse_usize("+"), None);
    assert_eq!(parse_usize("-3"), None);
    assert_eq!(parse_usize("3.5"), None);
    assert_eq!(parse_usize("abc"), None);
    assert_eq!(parse_usize("12x"), None);
    assert_eq!(parse_usize("18446744073709551616"), None);
    assert_eq!(parse_usize("99999999999999999999999999"), None);
}

#[test]
fn no_arguments_means_defaults() {
    let t = parsed(parse_args(&args(&[])));
    assert!(!t.color);
    assert!(!t.raw);
    assert_eq!(t.num, None);
}

#[test]
fn color_flag_sets_color() {
    let t = parsed(parse_args(&args(&["-c"])));
    assert!(t.color);
    let t = parsed(parse_args(&args(&["--color"])));
    assert!(t.color);
}

#[test]
fn raw_refuses_color_in_either_order() {
    // Raw first: the later color flag is ignored.
    let t = parsed(parse_args(&args(&["-r", "-c"])));
    assert!(t.raw);
    assert!(!t.color);
    // Color first: raw clears it again.
    let t = parsed(parse_args(&args(&["-c", "-r"])));
    assert!(t.raw);
    assert!(!t.color);
}

#[test]
fn number_flag_takes_the_next_word() {
    let t = parsed(parse_args(&args(&["-n", "5"])));
    assert_eq!(t.num, Some(5));
    let t = parsed(parse_args(&args(&["--num", "12"])));
    assert_eq!(t.num, Some(12));
    let t = parsed(parse_args(&args(&["--number", "3", "-c"])));
    assert_eq!(t.num, Some(3));
    assert!(t.color);
}

#[test]
fn missing_number_is_an_error() {
    assert_eq!(parse_args(&args(&["-n"])), ArgOutcome::MissingNumber);
    assert_eq!(parse_args(&args(&["-n", "xyz"])), ArgOutcome::MissingNumber);
    assert_eq!(parse_args(&args(&["-c", "-n"])), ArgOutcome::MissingNumber);
}

#[test]
fn help_stops_the_scan() {
    assert_eq!(parse_args(&args(&["-h"])), ArgOutcome::Help);
    assert_eq!(parse_args(&args(&["--help"])), ArgOutcome::Help);
    assert_eq!(parse_args(&args(&["-?"])), ArgOutcome::Help);
    // Everything after the help flag is never reached.
    assert_eq!(parse_args(&args(&["-h", "-n"])), ArgOutcome::Help);
}

#[test]
fn unknown_words_are_ignored() {
    let t = parsed(parse_args(&args(&["whatever", "-c", "junk"])));
    assert!(t.color);
    assert!(!t.raw);
    assert_eq!(t.num, None);
}
