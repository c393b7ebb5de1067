use cat_fax::color::ColorControl;
use cat_fax::escape::color_escape;
use cat_fax::stream::{colorize_chars, colorize_lines, emissions_to_string, StreamStyle, DIALUP_DELAY_MS};

const RESET: &str = "\u{1b}[0m";

fn control(print_color: bool) -> ColorControl {
    ColorControl::new(0, 3000, 100, false, false, print_color)
}

fn chars_of(s: &str) -> Vec<char> {
    s.chars().collect()
}

#[test]
fn position_tracking_across_line_breaks() {
    // "ab\ncd": columns advance 0, 1, then reset; rows 0, 0, 1, 1.
    let mut ctrl = control(true);
    let probe = control(true);
    let input = chars_of("ab\ncd");
    let units = colorize_chars(&mut ctrl, &input, StreamStyle::Standard);
    assert_eq!(units.len(), 6);
    let expected = [
        (0u64, 0u64, 'a'),
        (0, 1, 'b'),
        (1, 0, 'c'),
        (1, 1, 'd'),
    ];
    let mut k = 0;
    for unit in units.iter() {
        if unit.text == "\n" {
            assert!(!unit.pace);
            continue;
        }
        if unit.text == RESET {
            assert!(!unit.pace);
            continue;
        }
        let (row, col, ch) = expected[k];
        let mut want = color_escape(probe.rainbow_at(row, col), false);
        want.push(ch);
        assert_eq!(unit.text, want);
        assert!(unit.pace);
        k += 1;
    }
    assert_eq!(k, 4);
    assert_eq!(ctrl.row, 1);
    assert_eq!(ctrl.col, 2);
}

#[test]
fn pass_through_is_byte_exact() {
    let mut ctrl = control(false);
    let input = chars_of("ab\ncd ef");
    let units = colorize_chars(&mut ctrl, &input, StreamStyle::Standard);
    let out = emissions_to_string(&units);
    assert_eq!(out, "ab\ncd ef");
    assert!(!out.contains('\u{1b}'));
}

#[test]
fn empty_input_char_mode() {
    let mut ctrl = control(true);
    let units = colorize_chars(&mut ctrl, &Vec::new(), StreamStyle::Standard);
    assert_eq!(units.len(), 1);
    assert_eq!(units[0].text, RESET);
    assert!(!units[0].pace);

    let mut plain = control(false);
    let units = colorize_chars(&mut plain, &Vec::new(), StreamStyle::Standard);
    assert!(units.is_empty());
}

#[test]
fn empty_input_line_mode() {
    let mut ctrl = control(true);
    let units = colorize_lines(&mut ctrl, &Vec::new());
    assert_eq!(units.len(), 1);
    assert_eq!(units[0].text, RESET);

    let mut plain = control(false);
    let units = colorize_lines(&mut plain, &Vec::new());
    assert!(units.is_empty());
}

#[test]
fn pacing_marks_visible_characters_only() {
    // Five visible characters give five paced units; the reset is never
    // paced, so a paced render sleeps exactly five delays.
    let mut ctrl = ColorControl::new(0, 3000, 100, false, true, true);
    let input = chars_of("hello");
    let units = colorize_chars(&mut ctrl, &input, StreamStyle::Standard);
    assert_eq!(units.len(), 6);
    let paced = units.iter().filter(|u| u.pace).count();
    assert_eq!(paced, 5);
    assert!(!units[5].pace);
    assert_eq!(units[5].text, RESET);
    // A paced render of this plan sleeps five delays and no more: at
    // least 200 ms of pacing at the documented per-character delay.
    assert!((1..=100).contains(&DIALUP_DELAY_MS));
    assert_eq!(paced as u64 * DIALUP_DELAY_MS, 5 * DIALUP_DELAY_MS);
}

#[test]
fn newlines_are_never_wrapped_in_color() {
    let mut ctrl = control(true);
    let input = chars_of("a\nb");
    let units = colorize_chars(&mut ctrl, &input, StreamStyle::Standard);
    assert_eq!(units[1].text, "\n");
    assert!(!units[1].pace);
}

#[test]
fn end_to_end_scenario() {
    // seed 0.0, spread 3.0, frequency 0.1, foreground, no pacing, color on.
    let text = "Cats sleep a lot";
    let mut ctrl = control(true);
    let probe = control(true);
    let input = chars_of(text);
    let units = colorize_chars(&mut ctrl, &input, StreamStyle::Standard);
    let out = emissions_to_string(&units);
    // One color code before every character, one reset at the very end.
    let mut want = String::new();
    for (col, ch) in text.chars().enumerate() {
        want.push_str(&color_escape(probe.rainbow_at(0, col as u64), false));
        want.push(ch);
    }
    want.push_str(RESET);
    assert_eq!(out, want);
    assert!(out.ends_with(RESET));
    assert_eq!(out.matches('\u{1b}').count(), text.len() + 1);

    // The same line through the pass-through leaves the text untouched,
    // with the line terminator added by line mode.
    let mut plain = control(false);
    let units = colorize_lines(&mut plain, &vec![text.to_string()]);
    let out = emissions_to_string(&units);
    assert_eq!(out, format!("{}\n", text));
}

#[test]
fn line_mode_advances_rows_and_resets_columns() {
    let mut ctrl = control(true);
    let probe = control(true);
    let lines = vec!["ab".to_string(), "cd".to_string()];
    let units = colorize_lines(&mut ctrl, &lines);
    assert_eq!(units.len(), 3);
    let mut want0 = String::new();
    want0.push_str(&color_escape(probe.rainbow_at(0, 0), false));
    want0.push('a');
    want0.push_str(&color_escape(probe.rainbow_at(0, 1), false));
    want0.push('b');
    want0.push('\n');
    assert_eq!(units[0].text, want0);
    assert!(units[0].pace);
    let mut want1 = String::new();
    want1.push_str(&color_escape(probe.rainbow_at(1, 0), false));
    want1.push('c');
    want1.push_str(&color_escape(probe.rainbow_at(1, 1), false));
    want1.push('d');
    want1.push('\n');
    assert_eq!(units[1].text, want1);
    assert_eq!(units[2].text, RESET);
    assert_eq!(ctrl.row, 2);
    assert_eq!(ctrl.col, 0);
}

#[test]
fn background_mode_uses_background_codes() {
    let mut ctrl = ColorControl::new(0, 3000, 100, true, false, true);
    let input = chars_of("x");
    let units = colorize_chars(&mut ctrl, &input, StreamStyle::Standard);
    assert!(units[0].text.starts_with("\u{1b}[48;2;"));
    let mut fg = control(true);
    let units = colorize_chars(&mut fg, &input, StreamStyle::Standard);
    assert!(units[0].text.starts_with("\u{1b}[38;2;"));
}

#[test]
fn cursor_persists_across_char_mode_calls() {
    let mut ctrl = control(true);
    let probe = control(true);
    let _ = colorize_chars(&mut ctrl, &chars_of("ab"), StreamStyle::Standard);
    let units = colorize_chars(&mut ctrl, &chars_of("c"), StreamStyle::Standard);
    let mut want = color_escape(probe.rainbow_at(0, 2), false);
    want.push('c');
    assert_eq!(units[0].text, want);
}
