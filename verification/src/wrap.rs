//! Greedy word wrapping for the boxed display.
//!
//! Text no longer than the limit passes through as a single line. Longer
//! text is split into whitespace-separated words and refilled greedily:
//! a word joins the current line (after a single joining space) while the
//! running size — which counts each added word plus one for its joining
//! space — stays below the limit, and otherwise closes the current line
//! and opens a new one with that word. A word longer than the limit gets
//! a line of its own rather than being broken.

use vstd::prelude::*;

use crate::strutil::{chars_to_string, copy_chars, str_to_chars};

verus! {

/// ASCII whitespace: what separates words.
pub open spec fn is_space(c: char) -> bool {
    c == ' ' || c == '\t' || c == '\n' || c == '\r' || c == '\u{b}' || c == '\u{c}'
}

/// The whitespace-separated words of `s` from position `i` on, with `cur`
/// the partial word read so far: the accumulator form of word splitting.
pub open spec fn words_acc(s: Seq<char>, i: int, cur: Seq<char>) -> Seq<Seq<char>>
    recommends
        0 <= i <= s.len(),
    decreases s.len() - i,
{
    if i < 0 || i >= s.len() {
        if cur.len() > 0 {
            seq![cur]
        } else {
            Seq::empty()
        }
    } else if is_space(s[i]) {
        (if cur.len() > 0 {
            seq![cur]
        } else {
            Seq::empty()
        }) + words_acc(s, i + 1, Seq::empty())
    } else {
        words_acc(s, i + 1, cur.push(s[i]))
    }
}

/// The whitespace-separated words of `s`: maximal runs of non-space
/// characters, in order.
pub open spec fn words_of(s: Seq<char>) -> Seq<Seq<char>> {
    words_acc(s, 0, Seq::empty())
}

/// The greedy fill over a word list: `cur` is the line being built and
/// `size` its running size count (each added word plus one for a joining
/// space). A word whose length keeps `size + len` under `max` joins the
/// line; any other word closes the line — possibly empty — and starts
/// the next one.
pub open spec fn fill_lines(ws: Seq<Seq<char>>, max: int, cur: Seq<char>, size: int) -> Seq<
    Seq<char>,
>
    decreases ws.len(),
{
    if ws.len() == 0 {
        if cur.len() > 0 {
            seq![cur]
        } else {
            Seq::empty()
        }
    } else {
        let w = ws[0];
        if size + w.len() < max {
            fill_lines(
                ws.drop_first(),
                max,
                if cur.len() == 0 {
                    w
                } else {
                    cur + seq![' '] + w
                },
                size + w.len() + 1,
            )
        } else {
            seq![cur] + fill_lines(ws.drop_first(), max, w, w.len() as int)
        }
    }
}

/// What `word_wrap` returns: the input unchanged as one line when it fits
/// the limit, and the greedy refill of its words otherwise.
pub open spec fn word_wrap_spec(s: Seq<char>, max: int) -> Seq<Seq<char>> {
    if s.len() <= max {
        seq![s]
    } else {
        fill_lines(words_of(s), max, Seq::empty(), 0)
    }
}

/// Exec counterpart of `is_space`.
pub fn is_space_char(c: char) -> (b: bool)
    ensures
        b == is_space(c),
{
    c == ' ' || c == '\t' || c == '\n' || c == '\r' || c == '\u{b}' || c == '\u{c}'
}

/// Wrap `input` to lines of fewer than `max_size` size units, greedily.
pub fn word_wrap(input: &str, max_size: usize) -> (result: Vec<String>)
    ensures
        result.deep_view() == word_wrap_spec(input@, max_size as int),
{
    let chars = str_to_chars(input);
    let n = chars.len();
    if n <= max_size {
        let mut result: Vec<String> = Vec::new();
        result.push(chars_to_string(&chars));
        proof {
            assert(result.deep_view() =~= seq![input@]);
        }
        return result;
    }
    let ghost s = input@;
    let mut words: Vec<Vec<char>> = Vec::new();
    let mut cur: Vec<char> = Vec::new();
    let mut i: usize = 0;
    proof {
        assert(cur@ =~= Seq::<char>::empty());
        assert(words.deep_view() + words_acc(s, 0, cur@) =~~= words_acc(s, 0, Seq::empty()));
    }
    while i < n
        invariant
            i <= n,
            n == chars@.len(),
            chars@ == s,
            words_of(s) == words.deep_view() + words_acc(s, i as int, cur@),
        decreases n - i,
    {
        let c = chars[i];
        if is_space_char(c) {
            if cur.len() > 0 {
                let ghost w0 = words.deep_view();
                let ghost cur0 = cur@;
                words.push(cur);
                cur = Vec::new();
                proof {
                    assert(cur@ =~= Seq::<char>::empty());
                    assert(words.deep_view() =~~= w0.push(cur0));
                    assert(words.deep_view() + words_acc(s, i + 1, cur@) =~~= w0 + (seq![cur0]
                        + words_acc(s, i + 1, Seq::<char>::empty())));
                }
            } else {
                proof {
                    assert(cur@ =~= Seq::<char>::empty());
                    assert(words.deep_view() + words_acc(s, i + 1, cur@) =~~= words.deep_view()
                        + words_acc(s, i as int, cur@));
                }
            }
        } else {
            cur.push(c);
        }
        i = i + 1;
    }
    if cur.len() > 0 {
        let ghost w0 = words.deep_view();
        let ghost cur0 = cur@;
        words.push(cur);
        proof {
            assert(words.deep_view() =~~= w0.push(cur0));
            assert(words.deep_view() =~~= w0 + seq![cur0]);
        }
    } else {
        proof {
            assert(words.deep_view() + words_acc(s, n as int, cur@) =~~= words.deep_view());
        }
    }
    proof {
        assert(words.deep_view() == words_of(s));
    }
    let ghost ws = words.deep_view();
    let mut filled: Vec<Vec<char>> = Vec::new();
    let mut line: Vec<char> = Vec::new();
    let mut size: usize = 0;
    let mut k: usize = 0;
    proof {
        assert(ws.skip(0) =~= ws);
        assert(line@ =~= Seq::<char>::empty());
        assert(filled.deep_view() + fill_lines(ws, max_size as int, line@, 0) =~~= fill_lines(
            ws,
            max_size as int,
            Seq::<char>::empty(),
            0,
        ));
    }
    while k < words.len()
        invariant
            k <= words@.len(),
            ws == words.deep_view(),
            fill_lines(ws, max_size as int, Seq::empty(), 0) == filled.deep_view() + fill_lines(
                ws.skip(k as int),
                max_size as int,
                line@,
                size as int,
            ),
        decreases words@.len() - k,
    {
        let w = &words[k];
        proof {
            assert(ws.skip(k as int)[0] == ws[k as int]);
            assert(ws.skip(k as int).drop_first() =~= ws.skip(k + 1));
            assert(ws[k as int] =~= w@);
        }
        if size < max_size && w.len() < max_size - size {
            let ghost line0 = line@;
            if line.len() > 0 {
                line.push(' ');
            }
            let mut j: usize = 0;
            while j < w.len()
                invariant
                    j <= w@.len(),
                    line@ == (if line0.len() == 0 {
                        Seq::<char>::empty()
                    } else {
                        line0.push(' ')
                    }) + w@.take(j as int),
                decreases w@.len() - j,
            {
                line.push(w[j]);
                j = j + 1;
                assert(line@ =~= (if line0.len() == 0 {
                    Seq::<char>::empty()
                } else {
                    line0.push(' ')
                }) + w@.take(j as int));
            }
            proof {
                if line0.len() == 0 {
                    assert(line@ =~= w@);
                } else {
                    assert(line@ =~= line0 + seq![' '] + w@);
                }
            }
            size = size + w.len() + 1;
        } else {
            let ghost f0 = filled.deep_view();
            let ghost line0 = line@;
            filled.push(line);
            line = copy_chars(w);
            size = w.len();
            proof {
                assert(filled.deep_view() =~~= f0.push(line0));
                assert(f0.push(line0) + fill_lines(
                    ws.skip(k + 1),
                    max_size as int,
                    line@,
                    size as int,
                ) =~~= f0 + (seq![line0] + fill_lines(
                    ws.skip(k + 1),
                    max_size as int,
                    line@,
                    size as int,
                )));
            }
        }
        k = k + 1;
    }
    proof {
        assert(ws.skip(words@.len() as int) =~= Seq::<Seq<char>>::empty());
    }
    if line.len() > 0 {
        let ghost f0 = filled.deep_view();
        let ghost line0 = line@;
        filled.push(line);
        proof {
            assert(filled.deep_view() =~~= f0.push(line0));
            assert(f0.push(line0) =~~= f0 + seq![line0]);
        }
    } else {
        proof {
            assert(filled.deep_view() + fill_lines(
                Seq::<Seq<char>>::empty(),
                max_size as int,
                line@,
                size as int,
            ) =~~= filled.deep_view());
        }
    }
    proof {
        assert(filled.deep_view() == fill_lines(ws, max_size as int, Seq::empty(), 0));
    }
    let mut result: Vec<String> = Vec::new();
    let mut t: usize = 0;
    while t < filled.len()
        invariant
            t <= filled@.len(),
            result@.len() == t,
            result.deep_view() == filled.deep_view().take(t as int),
        decreases filled@.len() - t,
    {
        result.push(chars_to_string(&filled[t]));
        proof {
            assert(result@.len() == t + 1);
            assert(result@[t as int]@ =~= filled@[t as int].deep_view());
            assert(result.deep_view() =~~= filled.deep_view().take(t + 1));
        }
        t = t + 1;
    }
    proof {
        assert(filled.deep_view().take(filled@.len() as int) =~= filled.deep_view());
    }
    result
}

} // verus!
