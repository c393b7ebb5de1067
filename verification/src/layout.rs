//! The ASCII-art cat box around a wrapped fact.
//!
//! The box is sized by the longest wrapped line: a title bar carries the
//! heading, the cat face occupies the left margin of the first lines, and
//! the bottom bar carries the fact's two-digit-padded number. The text
//! is built character-exactly by the spec below.

use vstd::prelude::*;

use crate::strutil::{char_run, dec_digits, decimal_string, push_char, repeat_char};
use vstd::string::{StrSliceExecFns, StringExecFns};

verus! {

/// The longest line length among `ls` from position `i` on (zero when
/// nothing is left).
pub open spec fn max_from(ls: Seq<Seq<char>>, i: int) -> int
    decreases ls.len() - i,
{
    if i < 0 || i >= ls.len() {
        0
    } else {
        let m = max_from(ls, i + 1);
        if ls[i].len() >= m {
            ls[i].len() as int
        } else {
            m
        }
    }
}

/// The longest line length among `ls`.
pub open spec fn max_line_len(ls: Seq<Seq<char>>) -> int {
    max_from(ls, 0)
}

/// Every line is at most the maximum.
pub proof fn lemma_max_from_ge(ls: Seq<Seq<char>>, i: int, j: int)
    requires
        0 <= i <= j < ls.len(),
    ensures
        max_from(ls, i) >= ls[j].len(),
    decreases j - i,
{
    if i < j {
        lemma_max_from_ge(ls, i + 1, j);
    }
}

/// The space padding that brings a line out to the box width.
pub open spec fn box_pad(fl: int, line: Seq<char>) -> Seq<char> {
    repeat_char(' ', fl - line.len())
}

/// The box rows below the first: the second shows the cat's mouth, the
/// rest the left wall, each carrying one wrapped line padded to width.
pub open spec fn mid_lines(ls: Seq<Seq<char>>, fl: int, x: int) -> Seq<char>
    decreases ls.len() - x,
{
    if x < 1 || x >= ls.len() {
        Seq::empty()
    } else {
        (if x == 1 {
            "\n > ^ <  "@
        } else {
            "\n   │    "@
        }) + ls[x] + box_pad(fl, ls[x]) + " │"@ + mid_lines(ls, fl, x + 1)
    }
}

/// The number label on the bottom bar: two digits at least, zero-padded.
pub open spec fn num_label(num: int) -> Seq<char> {
    if num < 10 {
        seq!['0'] + dec_digits(num)
    } else {
        dec_digits(num)
    }
}

/// The whole cat box around the wrapped lines `ls`, numbered `num`:
/// title bar, the first line beside the cat's eyes, the remaining lines,
/// the closing wall when there are several lines, and the bottom bar.
pub open spec fn cat_box_spec(ls: Seq<Seq<char>>, num: int) -> Seq<char> {
    let fl = max_line_len(ls);
    let spaces = repeat_char(' ', 2 + fl);
    "   ┌─ Cat Fact "@ + repeat_char('─', fl - 6) + "┐\n /\\_/\\ "@ + spaces + "│\n( o.o ) "@
        + ls[0] + box_pad(fl, ls[0]) + " │"@ + (if ls.len() > 1 {
        mid_lines(ls, fl, 1) + "\n   │   "@ + spaces + "│"@
    } else {
        "\n > ^ <"@ + spaces + " │"@
    }) + "\n   └"@ + repeat_char('─', fl - 1) + " #"@ + num_label(num) + " ─┘"@
}

/// The longest line length of the wrapped fact.
pub fn max_line_width(lines: &Vec<String>) -> (m: usize)
    ensures
        m as int == max_line_len(lines.deep_view()),
{
    let ghost ls = lines.deep_view();
    let mut m: usize = 0;
    let mut i: usize = lines.len();
    while i > 0
        invariant
            i <= lines@.len(),
            ls == lines.deep_view(),
            m as int == max_from(ls, i as int),
        decreases i,
    {
        i = i - 1;
        let l = lines[i].as_str().unicode_len();
        proof {
            assert(ls[i as int] == lines@[i as int]@);
        }
        if l >= m {
            m = l;
        }
    }
    m
}

/// Build the cat box. The longest line must reach the heading's width
/// (six units) and leave room for the frame.
pub fn build_cat_box(fact_vec: &Vec<String>, num_display: usize) -> (s: String)
    requires
        fact_vec@.len() >= 1,
        max_line_len(fact_vec.deep_view()) >= 6,
        max_line_len(fact_vec.deep_view()) + 2 <= usize::MAX,
    ensures
        s@ == cat_box_spec(fact_vec.deep_view(), num_display as int),
{
    let ghost ls = fact_vec.deep_view();
    let fl = max_line_width(fact_vec);
    let spaces = char_run(' ', fl + 2);
    let mut s = String::new();
    s.append("   ┌─ Cat Fact ");
    let dash_top = char_run('─', fl - 6);
    s.append(dash_top.as_str());
    s.append("┐\n /\\_/\\ ");
    s.append(spaces.as_str());
    s.append("│\n( o.o ) ");
    let first = fact_vec[0].as_str();
    let first_len = first.unicode_len();
    proof {
        assert(ls[0] == fact_vec@[0]@);
        lemma_max_from_ge(ls, 0, 0);
    }
    s.append(first);
    let pad0 = char_run(' ', fl - first_len);
    s.append(pad0.as_str());
    s.append(" │");
    proof {
        assert(spaces@ =~= repeat_char(' ', 2 + fl));
    }
    if fact_vec.len() > 1 {
        let ghost head = s@;
        let mut x: usize = 1;
        while x < fact_vec.len()
            invariant
                1 <= x <= fact_vec@.len(),
                ls == fact_vec.deep_view(),
                fl as int == max_line_len(ls),
                s@ + mid_lines(ls, fl as int, x as int) == head + mid_lines(ls, fl as int, 1),
            decreases fact_vec@.len() - x,
        {
            let ghost pre = s@;
            if x == 1 {
                s.append("\n > ^ <  ");
            } else {
                s.append("\n   │    ");
            }
            let line = fact_vec[x].as_str();
            let line_len = line.unicode_len();
            proof {
                assert(ls[x as int] == fact_vec@[x as int]@);
                lemma_max_from_ge(ls, 0, x as int);
            }
            s.append(line);
            let pad = char_run(' ', fl - line_len);
            s.append(pad.as_str());
            s.append(" │");
            proof {
                assert(s@ + mid_lines(ls, fl as int, x + 1) =~= pre + mid_lines(
                    ls,
                    fl as int,
                    x as int,
                ));
            }
            x = x + 1;
        }
        proof {
            assert(mid_lines(ls, fl as int, fact_vec@.len() as int) =~= Seq::<char>::empty());
            assert(s@ =~= head + mid_lines(ls, fl as int, 1));
        }
        s.append("\n   │   ");
        s.append(spaces.as_str());
        s.append("│");
    } else {
        s.append("\n > ^ <");
        s.append(spaces.as_str());
        s.append(" │");
    }
    s.append("\n   └");
    let dash_btm = char_run('─', fl - 1);
    s.append(dash_btm.as_str());
    s.append(" #");
    if num_display < 10 {
        push_char(&mut s, '0');
    }
    let nd = decimal_string(num_display);
    s.append(nd.as_str());
    s.append(" ─┘");
    proof {
        if num_display < 10 {
            assert(seq!['0'] + dec_digits(num_display as int) =~= num_label(num_display as int));
        }
        assert(s@ =~= cat_box_spec(ls, num_display as int));
    }
    s
}

} // verus!
