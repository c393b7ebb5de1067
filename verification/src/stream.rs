//! The stream colorizer.
//!
//! Both drivers turn text into a sequence of [`Emission`] units. A unit is
//! a piece of output text plus a pacing mark: the caller prints the units
//! in order and, when `dialup_mode` is set, sleeps briefly after every
//! marked unit, which yields the slow-terminal typing effect. The trailing
//! style reset is never marked, so pacing cannot delay it.
//!
//! Character mode emits one unit per input character and tracks a
//! row/column cursor across embedded line breaks; line mode emits one unit
//! per pre-split line, with the column starting at zero on every line.
//! With `print_color` off both modes are an exact pass-through: the
//! concatenated units equal the input text, with no escape codes at all.

use vstd::prelude::*;

use crate::color::ColorControl;
use crate::escape::{color_escape, color_escape_spec, reset_escape, reset_spec};
use crate::strutil::push_char;
use vstd::string::StringExecFns;

verus! {

/// How long a paced render pauses after each marked unit, in
/// milliseconds: long enough for a visible typing effect, short enough
/// that a line of text appears within a couple of seconds.
pub const DIALUP_DELAY_MS: u64 = 40;

/// How the character stream frames its output at the very start and end.
/// Only one presentation variant is defined: color codes before every
/// visible character and a single style reset after the whole stream.
#[derive(Clone, Copy, Debug, PartialEq, Eq, Structural)]
pub enum StreamStyle {
    Standard,
}

/// One unit of colorized output: the text to print, and whether a paced
/// render should pause after printing it (true exactly for the units that
/// carry visible input, never for the trailing reset).
pub struct Emission {
    pub text: String,
    pub pace: bool,
}

impl View for Emission {
    type V = (Seq<char>, bool);

    open spec fn view(&self) -> (Seq<char>, bool) {
        (self.text@, self.pace)
    }
}

/// How one character moves the cursor: a line break opens the next row at
/// column zero, anything else advances the column.
pub open spec fn advance_cursor(row: int, col: int, ch: char) -> (int, int) {
    if ch == '\n' {
        (row + 1, 0)
    } else {
        (row, col + 1)
    }
}

/// The cursor after a whole character sequence has been consumed.
pub open spec fn cursor_after(row: int, col: int, s: Seq<char>) -> (int, int)
    decreases s.len(),
{
    if s.len() == 0 {
        (row, col)
    } else {
        let rc = advance_cursor(row, col, s[0]);
        cursor_after(rc.0, rc.1, s.drop_first())
    }
}

/// The output unit of one character at one cursor position: a line break
/// passes through unwrapped and unpaced; a visible character is paced and,
/// when color is on, preceded by the color code of its position.
pub open spec fn char_unit(c: ColorControl, row: int, col: int, ch: char) -> (Seq<char>, bool) {
    if ch == '\n' {
        (seq![ch], false)
    } else if !c.print_color {
        (seq![ch], true)
    } else {
        (color_escape_spec(c.rgb_at_spec(row, col), c.background_mode) + seq![ch], true)
    }
}

/// The per-character units of a character stream, from a starting cursor.
pub open spec fn char_plan(c: ColorControl, row: int, col: int, s: Seq<char>) -> Seq<
    (Seq<char>, bool),
>
    decreases s.len(),
{
    if s.len() == 0 {
        Seq::empty()
    } else {
        let rc = advance_cursor(row, col, s[0]);
        seq![char_unit(c, row, col, s[0])] + char_plan(c, rc.0, rc.1, s.drop_first())
    }
}

/// The whole character-stream output: the per-character units, closed by
/// the style reset whenever color was on. The reset is emitted on every
/// path — an empty input still restores the terminal's style.
pub open spec fn char_stream_plan(
    c: ColorControl,
    row: int,
    col: int,
    s: Seq<char>,
    style: StreamStyle,
) -> Seq<(Seq<char>, bool)> {
    char_plan(c, row, col, s) + if c.print_color {
        seq![(reset_spec(), false)]
    } else {
        Seq::empty()
    }
}

/// The text of a plan: its units concatenated in order.
pub open spec fn plan_text(p: Seq<(Seq<char>, bool)>) -> Seq<char>
    decreases p.len(),
{
    if p.len() == 0 {
        Seq::empty()
    } else {
        p[0].0 + plan_text(p.drop_first())
    }
}

/// The colorized body of one line: every character at its own column of
/// the line's row, with color codes exactly when color is on.
pub open spec fn line_body(c: ColorControl, row: int, col: int, s: Seq<char>) -> Seq<char>
    decreases s.len(),
{
    if s.len() == 0 {
        Seq::empty()
    } else {
        (if c.print_color {
            color_escape_spec(c.rgb_at_spec(row, col), c.background_mode) + seq![s[0]]
        } else {
            seq![s[0]]
        }) + line_body(c, row, col + 1, s.drop_first())
    }
}

/// The output unit of one whole line: its colorized body, the line
/// terminator, and a pacing mark (line mode paces per line).
pub open spec fn line_unit(c: ColorControl, row: int, line: Seq<char>) -> (Seq<char>, bool) {
    (line_body(c, row, 0, line).push('\n'), true)
}

/// The per-line units of a line stream: one row per line, columns starting
/// over at zero on each.
pub open spec fn lines_plan(c: ColorControl, row: int, ls: Seq<Seq<char>>) -> Seq<
    (Seq<char>, bool),
>
    decreases ls.len(),
{
    if ls.len() == 0 {
        Seq::empty()
    } else {
        seq![line_unit(c, row, ls[0])] + lines_plan(c, row + 1, ls.drop_first())
    }
}

/// The whole line-stream output, closed by the style reset whenever color
/// was on.
pub open spec fn line_stream_plan(c: ColorControl, row: int, ls: Seq<Seq<char>>) -> Seq<
    (Seq<char>, bool),
> {
    lines_plan(c, row, ls) + if c.print_color {
        seq![(reset_spec(), false)]
    } else {
        Seq::empty()
    }
}

/// The input lines joined back into text, each followed by the line
/// terminator: what line mode emits when color is off.
pub open spec fn joined_lines(ls: Seq<Seq<char>>) -> Seq<char>
    decreases ls.len(),
{
    if ls.len() == 0 {
        Seq::empty()
    } else {
        ls[0].push('\n') + joined_lines(ls.drop_first())
    }
}

proof fn lemma_cursor_after_snoc(row: int, col: int, s: Seq<char>, ch: char)
    ensures
        cursor_after(row, col, s.push(ch)) == {
            let rc = cursor_after(row, col, s);
            advance_cursor(rc.0, rc.1, ch)
        },
    decreases s.len(),
{
    reveal_with_fuel(cursor_after, 3);
    assert(s.push(ch)[0] == if s.len() == 0 {
        ch
    } else {
        s[0]
    });
    if s.len() == 0 {
        assert(s.push(ch).drop_first() =~= Seq::<char>::empty());
    } else {
        assert(s.push(ch).drop_first() =~= s.drop_first().push(ch));
        let rc = advance_cursor(row, col, s[0]);
        lemma_cursor_after_snoc(rc.0, rc.1, s.drop_first(), ch);
    }
}

proof fn lemma_char_plan_snoc(c: ColorControl, row: int, col: int, s: Seq<char>, ch: char)
    ensures
        char_plan(c, row, col, s.push(ch)) == char_plan(c, row, col, s).push(
            char_unit(c, cursor_after(row, col, s).0, cursor_after(row, col, s).1, ch),
        ),
    decreases s.len(),
{
    reveal_with_fuel(char_plan, 3);
    reveal_with_fuel(cursor_after, 3);
    assert(s.push(ch)[0] == if s.len() == 0 {
        ch
    } else {
        s[0]
    });
    if s.len() == 0 {
        assert(s.push(ch).drop_first() =~= Seq::<char>::empty());
        assert(char_plan(c, row, col, s.push(ch)) =~= char_plan(c, row, col, s).push(
            char_unit(c, row, col, ch),
        ));
    } else {
        assert(s.push(ch).drop_first() =~= s.drop_first().push(ch));
        let rc = advance_cursor(row, col, s[0]);
        lemma_char_plan_snoc(c, rc.0, rc.1, s.drop_first(), ch);
        assert(char_plan(c, row, col, s.push(ch)) =~= char_plan(c, row, col, s).push(
            char_unit(c, cursor_after(row, col, s).0, cursor_after(row, col, s).1, ch),
        ));
    }
}

proof fn lemma_plan_text_snoc(p: Seq<(Seq<char>, bool)>, u: (Seq<char>, bool))
    ensures
        plan_text(p.push(u)) == plan_text(p) + u.0,
    decreases p.len(),
{
    reveal_with_fuel(plan_text, 3);
    assert(p.push(u)[0] == if p.len() == 0 {
        u
    } else {
        p[0]
    });
    if p.len() == 0 {
        assert(p.push(u).drop_first() =~= Seq::<(Seq<char>, bool)>::empty());
        assert(plan_text(p.push(u)) =~= plan_text(p) + u.0);
    } else {
        assert(p.push(u).drop_first() =~= p.drop_first().push(u));
        lemma_plan_text_snoc(p.drop_first(), u);
        assert(plan_text(p.push(u)) =~= plan_text(p) + u.0);
    }
}

/// Pass-through, character mode: with color off every unit is its bare
/// input character, so the plan's text is the input itself and holds no
/// escape sequence.
pub proof fn lemma_char_plan_pass_through(c: ColorControl, row: int, col: int, s: Seq<char>)
    requires
        !c.print_color,
    ensures
        plan_text(char_plan(c, row, col, s)) == s,
    decreases s.len(),
{
    if s.len() == 0 {
    } else {
        let rc = advance_cursor(row, col, s[0]);
        lemma_char_plan_pass_through(c, rc.0, rc.1, s.drop_first());
        assert(char_plan(c, row, col, s).drop_first() =~= char_plan(
            c,
            rc.0,
            rc.1,
            s.drop_first(),
        ));
        assert(plan_text(char_plan(c, row, col, s)) =~= s);
    }
}

/// Pass-through, one line: with color off the body of a line is the line.
pub proof fn lemma_line_body_pass_through(c: ColorControl, row: int, col: int, s: Seq<char>)
    requires
        !c.print_color,
    ensures
        line_body(c, row, col, s) == s,
    decreases s.len(),
{
    if s.len() == 0 {
        assert(line_body(c, row, col, s) =~= s);
    } else {
        lemma_line_body_pass_through(c, row, col + 1, s.drop_first());
        assert(line_body(c, row, col, s) =~= s);
    }
}

/// Pass-through, line mode: with color off the plan's text is the lines
/// joined back with their terminators.
pub proof fn lemma_lines_plan_pass_through(c: ColorControl, row: int, ls: Seq<Seq<char>>)
    requires
        !c.print_color,
    ensures
        plan_text(lines_plan(c, row, ls)) == joined_lines(ls),
    decreases ls.len(),
{
    if ls.len() == 0 {
    } else {
        lemma_line_body_pass_through(c, row, 0, ls[0]);
        lemma_lines_plan_pass_through(c, row + 1, ls.drop_first());
        assert(lines_plan(c, row, ls).drop_first() =~= lines_plan(c, row + 1, ls.drop_first()));
        assert(plan_text(lines_plan(c, row, ls)) =~= joined_lines(ls));
    }
}

/// Boundary behavior: an empty input produces no colorized characters —
/// only the trailing reset when color is on, and nothing at all when the
/// stream is also a pass-through.
pub proof fn lemma_empty_stream(c: ColorControl, row: int, col: int, style: StreamStyle)
    ensures
        c.print_color ==> char_stream_plan(c, row, col, Seq::<char>::empty(), style) == seq![
            (reset_spec(), false),
        ],
        !c.print_color ==> char_stream_plan(c, row, col, Seq::<char>::empty(), style) == Seq::<
            (Seq<char>, bool),
        >::empty(),
        c.print_color ==> line_stream_plan(c, row, Seq::<Seq<char>>::empty()) == seq![
            (reset_spec(), false),
        ],
        !c.print_color ==> line_stream_plan(c, row, Seq::<Seq<char>>::empty()) == Seq::<
            (Seq<char>, bool),
        >::empty(),
{
    if c.print_color {
        assert(char_stream_plan(c, row, col, Seq::<char>::empty(), style) =~= seq![
            (reset_spec(), false),
        ]);
        assert(line_stream_plan(c, row, Seq::<Seq<char>>::empty()) =~= seq![
            (reset_spec(), false),
        ]);
    } else {
        assert(char_stream_plan(c, row, col, Seq::<char>::empty(), style) =~= Seq::<
            (Seq<char>, bool),
        >::empty());
        assert(line_stream_plan(c, row, Seq::<Seq<char>>::empty()) =~= Seq::<
            (Seq<char>, bool),
        >::empty());
    }
}

/// The style reset is released on every path: whenever color is on, the
/// very last unit of either mode's plan is the reset — whatever the
/// input, including an exhausted (empty) one — so no render can leave
/// the terminal tinted.
pub proof fn lemma_reset_ends_every_plan(
    c: ColorControl,
    row: int,
    col: int,
    s: Seq<char>,
    ls: Seq<Seq<char>>,
    style: StreamStyle,
)
    requires
        c.print_color,
    ensures
        char_stream_plan(c, row, col, s, style).len() > 0,
        char_stream_plan(c, row, col, s, style).last() == (reset_spec(), false),
        line_stream_plan(c, row, ls).len() > 0,
        line_stream_plan(c, row, ls).last() == (reset_spec(), false),
{
}

/// Character-stream mode. Walks the characters once, advancing the
/// control's cursor per character, and returns the emission units of the
/// whole stream: per character one unit, plus the closing reset when
/// color is on. With color off the units concatenate to exactly the
/// input (pass-through).
pub fn colorize_chars(ctrl: &mut ColorControl, chars: &Vec<char>, style: StreamStyle) -> (out:
    Vec<Emission>)
    requires
        old(ctrl).wf(),
        old(ctrl).row + chars@.len() <= u64::MAX,
        old(ctrl).col + chars@.len() <= u64::MAX,
    ensures
        final(ctrl).wf(),
        final(ctrl).seed == old(ctrl).seed,
        final(ctrl).spread == old(ctrl).spread,
        final(ctrl).frequency == old(ctrl).frequency,
        final(ctrl).background_mode == old(ctrl).background_mode,
        final(ctrl).dialup_mode == old(ctrl).dialup_mode,
        final(ctrl).print_color == old(ctrl).print_color,
        (final(ctrl).row as int, final(ctrl).col as int) == cursor_after(
            old(ctrl).row as int,
            old(ctrl).col as int,
            chars@,
        ),
        out@.map_values(|e: Emission| e@) == char_stream_plan(
            *old(ctrl),
            old(ctrl).row as int,
            old(ctrl).col as int,
            chars@,
            style,
        ),
        !old(ctrl).print_color ==> plan_text(out@.map_values(|e: Emission| e@)) == chars@,
{
    let ghost c0 = *old(ctrl);
    let ghost row0 = old(ctrl).row as int;
    let ghost col0 = old(ctrl).col as int;
    let mut out: Vec<Emission> = Vec::new();
    let mut i: usize = 0;
    while i < chars.len()
        invariant
            i <= chars@.len(),
            ctrl.wf(),
            ctrl.seed == c0.seed,
            ctrl.spread == c0.spread,
            ctrl.frequency == c0.frequency,
            ctrl.background_mode == c0.background_mode,
            ctrl.dialup_mode == c0.dialup_mode,
            ctrl.print_color == c0.print_color,
            ctrl.row + (chars@.len() - i) <= u64::MAX,
            ctrl.col + (chars@.len() - i) <= u64::MAX,
            (ctrl.row as int, ctrl.col as int) == cursor_after(
                row0,
                col0,
                chars@.take(i as int),
            ),
            out@.map_values(|e: Emission| e@) == char_plan(c0, row0, col0, chars@.take(i as int)),
        decreases chars@.len() - i,
    {
        let ch = chars[i];
        let ghost pre_row = ctrl.row as int;
        let ghost pre_col = ctrl.col as int;
        if ch == '\n' {
            let mut t = String::new();
            push_char(&mut t, '\n');
            out.push(Emission { text: t, pace: false });
            ctrl.row = ctrl.row + 1;
            ctrl.col = 0;
        } else if ctrl.print_color {
            let rgb = ctrl.rainbow_at(ctrl.row, ctrl.col);
            let mut t = color_escape(rgb, ctrl.background_mode);
            push_char(&mut t, ch);
            out.push(Emission { text: t, pace: true });
            ctrl.col = ctrl.col + 1;
        } else {
            let mut t = String::new();
            push_char(&mut t, ch);
            out.push(Emission { text: t, pace: true });
            ctrl.col = ctrl.col + 1;
        }
        proof {
            assert(chars@.take(i + 1) =~= chars@.take(i as int).push(ch));
            lemma_cursor_after_snoc(row0, col0, chars@.take(i as int), ch);
            lemma_char_plan_snoc(c0, row0, col0, chars@.take(i as int), ch);
            let u = char_unit(c0, pre_row, pre_col, ch);
            assert(out@.last()@ == u);
            assert(out@.map_values(|e: Emission| e@) =~= char_plan(
                c0,
                row0,
                col0,
                chars@.take(i as int).push(ch),
            ));
        }
        i = i + 1;
    }
    proof {
        assert(chars@.take(chars@.len() as int) =~= chars@);
    }
    if ctrl.print_color {
        out.push(Emission { text: reset_escape(), pace: false });
    }
    proof {
        if c0.print_color {
            assert(out@.map_values(|e: Emission| e@) =~= char_stream_plan(
                c0,
                row0,
                col0,
                chars@,
                style,
            ));
        } else {
            assert(out@.map_values(|e: Emission| e@) =~= char_stream_plan(
                c0,
                row0,
                col0,
                chars@,
                style,
            ));
            lemma_char_plan_pass_through(c0, row0, col0, chars@);
        }
    }
    out
}

/// Line-stream mode. Emits one unit per pre-split line — its colorized
/// body and the line terminator — advancing the row once per line with
/// the column starting over at zero, and closes with the reset when color
/// is on. Lines must be pre-split: none may carry an embedded terminator.
pub fn colorize_lines(ctrl: &mut ColorControl, lines: &Vec<String>) -> (out: Vec<Emission>)
    requires
        old(ctrl).wf(),
        old(ctrl).row + lines@.len() <= u64::MAX,
        forall|i: int| 0 <= i < lines@.len() ==> !lines@[i]@.contains('\n'),
    ensures
        final(ctrl).wf(),
        final(ctrl).seed == old(ctrl).seed,
        final(ctrl).spread == old(ctrl).spread,
        final(ctrl).frequency == old(ctrl).frequency,
        final(ctrl).background_mode == old(ctrl).background_mode,
        final(ctrl).dialup_mode == old(ctrl).dialup_mode,
        final(ctrl).print_color == old(ctrl).print_color,
        final(ctrl).row == old(ctrl).row + lines@.len(),
        final(ctrl).col == if lines@.len() == 0 {
            old(ctrl).col
        } else {
            0u64
        },
        out@.map_values(|e: Emission| e@) == line_stream_plan(
            *old(ctrl),
            old(ctrl).row as int,
            lines@.map_values(|l: String| l@),
        ),
        !old(ctrl).print_color ==> plan_text(out@.map_values(|e: Emission| e@)) == joined_lines(
            lines@.map_values(|l: String| l@),
        ),
{
    let ghost c0 = *old(ctrl);
    let ghost row0 = old(ctrl).row as int;
    let ghost ls = lines@.map_values(|l: String| l@);
    let mut out: Vec<Emission> = Vec::new();
    let mut i: usize = 0;
    while i < lines.len()
        invariant
            i <= lines@.len(),
            ctrl.wf(),
            ctrl.seed == c0.seed,
            ctrl.spread == c0.spread,
            ctrl.frequency == c0.frequency,
            ctrl.background_mode == c0.background_mode,
            ctrl.dialup_mode == c0.dialup_mode,
            ctrl.print_color == c0.print_color,
            ls == lines@.map_values(|l: String| l@),
            row0 == c0.row as int,
            ctrl.row == c0.row + i,
            ctrl.col == if i == 0 {
                c0.col
            } else {
                0u64
            },
            c0.row + lines@.len() <= u64::MAX,
            out@.len() == i,
            out@.map_values(|e: Emission| e@) == lines_plan(c0, row0, ls.take(i as int)),
        decreases lines@.len() - i,
    {
        let line = &lines[i];
        let row_now = ctrl.row;
        let mut body = colorize_line_body(ctrl, line, row_now);
        push_char(&mut body, '\n');
        out.push(Emission { text: body, pace: true });
        proof {
            assert(ls.take(i + 1) =~= ls.take(i as int).push(line@));
            lemma_lines_plan_snoc(c0, row0, ls.take(i as int), line@);
            lemma_line_body_same_params(*ctrl, c0, row0 + i, 0, line@);
            assert(ls[i as int] == line@);
            assert(ls.take(i as int).len() == i);
            assert(lines_plan(c0, row0, ls.take(i + 1)) == lines_plan(
                c0,
                row0,
                ls.take(i as int),
            ).push(line_unit(c0, row0 + i, line@)));
            assert(out@[i as int]@ == line_unit(c0, row0 + i, line@));
            assert(out@.map_values(|e: Emission| e@) =~= lines_plan(c0, row0, ls.take(i + 1)));
        }
        ctrl.row = ctrl.row + 1;
        ctrl.col = 0;
        i = i + 1;
    }
    proof {
        assert(ls.take(ls.len() as int) =~= ls);
    }
    if ctrl.print_color {
        out.push(Emission { text: reset_escape(), pace: false });
    }
    proof {
        assert(out@.map_values(|e: Emission| e@) =~= line_stream_plan(c0, row0, ls));
        if !c0.print_color {
            lemma_lines_plan_pass_through(c0, row0, ls);
        }
    }
    out
}

proof fn lemma_lines_plan_snoc(c: ColorControl, row: int, ls: Seq<Seq<char>>, line: Seq<char>)
    ensures
        lines_plan(c, row, ls.push(line)) == lines_plan(c, row, ls).push(
            line_unit(c, row + ls.len(), line),
        ),
    decreases ls.len(),
{
    reveal_with_fuel(lines_plan, 3);
    assert(ls.push(line)[0] == if ls.len() == 0 {
        line
    } else {
        ls[0]
    });
    if ls.len() == 0 {
        assert(ls.push(line).drop_first() =~= Seq::<Seq<char>>::empty());
        assert(lines_plan(c, row, ls.push(line)) =~= lines_plan(c, row, ls).push(
            line_unit(c, row, line),
        ));
    } else {
        assert(ls.push(line).drop_first() =~= ls.drop_first().push(line));
        lemma_lines_plan_snoc(c, row + 1, ls.drop_first(), line);
        assert(lines_plan(c, row, ls.push(line)) =~= lines_plan(c, row, ls).push(
            line_unit(c, row + ls.len(), line),
        ));
    }
}

proof fn lemma_line_body_same_params(
    c1: ColorControl,
    c2: ColorControl,
    row: int,
    col: int,
    s: Seq<char>,
)
    requires
        c1.seed == c2.seed,
        c1.spread == c2.spread,
        c1.frequency == c2.frequency,
        c1.background_mode == c2.background_mode,
        c1.print_color == c2.print_color,
    ensures
        line_body(c1, row, col, s) == line_body(c2, row, col, s),
    decreases s.len(),
{
    if s.len() > 0 {
        lemma_line_body_same_params(c1, c2, row, col + 1, s.drop_first());
    }
}

/// The colorized body of one line at the given row: helper of line mode.
fn colorize_line_body(ctrl: &ColorControl, line: &String, row: u64) -> (s: String)
    requires
        ctrl.wf(),
    ensures
        s@ == line_body(*ctrl, row as int, 0, line@),
{
    let text = line.as_str();
    let n = text.unicode_len();
    let mut s = String::new();
    proof {
        assert(line@.skip(0) =~= line@);
        assert(Seq::<char>::empty() + line_body(*ctrl, row as int, 0, line@) =~= line_body(
            *ctrl,
            row as int,
            0,
            line@,
        ));
    }
    let mut j: usize = 0;
    while j < n
        invariant
            j <= n,
            n == line@.len(),
            text@ == line@,
            ctrl.wf(),
            s@ + line_body(*ctrl, row as int, j as int, line@.skip(j as int)) == line_body(
                *ctrl,
                row as int,
                0,
                line@,
            ),
        decreases n - j,
    {
        let ch = text.get_char(j);
        let ghost pre = s@;
        if ctrl.print_color {
            let rgb = ctrl.rainbow_at(row, j as u64);
            let esc = color_escape(rgb, ctrl.background_mode);
            s.append(esc.as_str());
        }
        push_char(&mut s, ch);
        proof {
            let rest = line@.skip(j as int);
            assert(rest[0] == ch);
            assert(rest.drop_first() =~= line@.skip(j + 1));
            assert(s@ + line_body(*ctrl, row as int, j + 1, line@.skip(j + 1)) =~= pre
                + line_body(*ctrl, row as int, j as int, rest));
        }
        j = j + 1;
    }
    proof {
        assert(line@.skip(n as int) =~= Seq::<char>::empty());
        assert(s@ =~= line_body(*ctrl, row as int, 0, line@));
    }
    s
}

/// The units' text, concatenated: what actually reaches the terminal when
/// the caller prints a plan in order.
pub fn emissions_to_string(units: &Vec<Emission>) -> (s: String)
    ensures
        s@ == plan_text(units@.map_values(|e: Emission| e@)),
{
    let mut s = String::new();
    let mut i: usize = 0;
    while i < units.len()
        invariant
            i <= units@.len(),
            s@ == plan_text(units@.map_values(|e: Emission| e@).take(i as int)),
        decreases units@.len() - i,
    {
        s.append(units[i].text.as_str());
        proof {
            let m = units@.map_values(|e: Emission| e@);
            assert(m.take(i + 1) =~= m.take(i as int).push(m[i as int]));
            lemma_plan_text_snoc(m.take(i as int), m[i as int]);
        }
        i = i + 1;
    }
    proof {
        let m = units@.map_values(|e: Emission| e@);
        assert(m.take(m.len() as int) =~= m);
    }
    s
}

} // verus!
