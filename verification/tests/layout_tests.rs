use cat_fax::facts::{choose_fact_index, raw_fact_line, FactChoice};
use cat_fax::layout::{build_cat_box, max_line_width};
use cat_fax::strutil::{char_run, decimal_string};
use cat_fax::wrap::word_wrap;

#[test]
fn decimal_rendering_is_exact() {
    assert_eq!(decimal_string(0), "0");
    assert_eq!(decimal_string(7), "7");
    assert_eq!(decimal_string(10), "10");
    assert_eq!(decimal_string(255), "255");
    assert_eq!(decimal_string(usize::MAX), format!("{}", usize::MAX));
}

#[test]
fn char_run_repeats() {
    assert_eq!(char_run('─', 3), "───");
    assert_eq!(char_run(' ', 0), "");
}

#[test]
fn fact_choice_follows_the_rules() {
    assert_eq!(choose_fact_index(Some(5), 0, 4), FactChoice::TooLarge);
    assert_eq!(choose_fact_index(Some(0), 0, 4), FactChoice::TooSmall);
    assert_eq!(choose_fact_index(Some(4), 0, 4), FactChoice::Index(3));
    assert_eq!(choose_fact_index(Some(1), 0, 4), FactChoice::Index(0));
    assert_eq!(choose_fact_index(None, 2, 4), FactChoice::Index(2));
}

#[test]
fn raw_line_is_exact() {
    assert_eq!(raw_fact_line(3, "Cats purr"), "Cat Fax #3: Cats purr");
    assert_eq!(raw_fact_line(12, "x"), "Cat Fax #12: x");
}

#[test]
fn max_width_is_the_longest_line() {
    let lines = vec!["ab".to_string(), "abcd".to_string(), "a".to_string()];
    assert_eq!(max_line_width(&lines), 4);
    assert_eq!(max_line_width(&Vec::new()), 0);
}

#[test]
fn single_line_box_is_exact() {
    let fact = "Cats sleep a lot";
    let out = build_cat_box(&vec![fact.to_string()], 3);
    let expected = format!(
        "   ┌─ Cat Fact {}┐\n /\\_/\\ {sp}│\n( o.o ) {fact} │\n > ^ <{sp} │\n   └{} #03 ─┘",
        "─".repeat(10),
        "─".repeat(15),
        sp = " ".repeat(18),
        fact = fact,
    );
    assert_eq!(out, expected);
}

#[test]
fn multi_line_box_is_exact() {
    let lines = vec![
        "The quick".to_string(),
        "brown fox".to_string(),
        "jumps over".to_string(),
    ];
    let out = build_cat_box(&lines, 12);
    let expected = format!(
        "   ┌─ Cat Fact {top}┐\n /\\_/\\ {sp}│\
         \n( o.o ) The quick  │\
         \n > ^ <  brown fox  │\
         \n   │    jumps over │\
         \n   │   {sp}│\
         \n   └{btm} #12 ─┘",
        top = "─".repeat(4),
        btm = "─".repeat(9),
        sp = " ".repeat(12),
    );
    assert_eq!(out, expected);
}

#[test]
fn wrapped_fact_flows_into_the_box() {
    let fact = "A cat can rotate its ears one hundred eighty degrees";
    let wrapped = word_wrap(fact, 30);
    assert!(wrapped.len() > 1);
    let width = max_line_width(&wrapped);
    let out = build_cat_box(&wrapped, 7);
    // Every box row between the bars is framed by the right wall.
    for row in out.lines().skip(1) {
        assert!(row.ends_with('│') || row.ends_with('┘'));
    }
    assert!(width >= 6);
}
