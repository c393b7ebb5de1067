//! Command-line flag parsing, as a pure state machine.
//!
//! The scanner walks the argument words once. A number flag makes it
//! expect a number in the next word; a help flag stops the scan on the
//! spot. Unknown words are ignored. The caller performs whatever printing
//! or exiting the outcome asks for.

use vstd::prelude::*;

use crate::strutil::{str_eq, str_to_chars};

verus! {

/// The flags the scanner accumulates: whether to colorize, whether to
/// print raw, and a requested fact number if one was given.
#[derive(Clone, Copy, Debug, PartialEq, Eq)]
pub struct TerminalArgs {
    pub color: bool,
    pub raw: bool,
    pub num: Option<usize>,
}

/// What a scan of the arguments ends in: the accumulated flags, a request
/// for the help text, or a number flag that its number never followed.
#[derive(Clone, Copy, Debug, PartialEq, Eq)]
pub enum ArgOutcome {
    Parsed(TerminalArgs),
    Help,
    MissingNumber,
}

/// A decimal digit.
pub open spec fn is_digit(c: char) -> bool {
    48 <= c as u32 <= 57
}

/// The value of a decimal digit.
pub open spec fn digit_val(c: char) -> int {
    c as u32 - 48
}

/// The value of a digit string, most significant first.
pub open spec fn digits_val(s: Seq<char>) -> int
    decreases s.len(),
{
    if s.len() == 0 {
        0
    } else {
        digits_val(s.drop_last()) * 10 + digit_val(s.last())
    }
}

/// The part of a number word that must be digits: everything after an
/// optional leading plus sign.
pub open spec fn parse_body(s: Seq<char>) -> Seq<char> {
    if s.len() > 0 && s[0] == '+' {
        s.drop_first()
    } else {
        s
    }
}

/// Whether a word is an acceptable number: at least one digit, nothing
/// but digits after the optional sign, and a value that fits the machine
/// word.
pub open spec fn is_valid_usize(s: Seq<char>) -> bool {
    &&& parse_body(s).len() > 0
    &&& forall|i: int| 0 <= i < parse_body(s).len() ==> is_digit(parse_body(s)[i])
    &&& digits_val(parse_body(s)) <= usize::MAX
}

/// The value of an acceptable number word.
pub open spec fn parsed_usize(s: Seq<char>) -> int {
    digits_val(parse_body(s))
}

proof fn lemma_digits_val_nonneg(s: Seq<char>)
    requires
        forall|i: int| 0 <= i < s.len() ==> is_digit(s[i]),
    ensures
        digits_val(s) >= 0,
    decreases s.len(),
{
    if s.len() > 0 {
        lemma_digits_val_nonneg(s.drop_last());
    }
}

/// More digits can only grow the value: the whole digit string is worth
/// at least any of its prefixes.
proof fn lemma_digits_val_prefix(s: Seq<char>, k: int)
    requires
        0 <= k <= s.len(),
        forall|i: int| 0 <= i < s.len() ==> is_digit(s[i]),
    ensures
        digits_val(s) >= digits_val(s.take(k)),
    decreases s.len() - k,
{
    if k < s.len() {
        lemma_digits_val_prefix(s, k + 1);
        assert(s.take(k + 1).drop_last() =~= s.take(k));
        assert(s.take(k + 1).last() == s[k]);
        lemma_digits_val_nonneg(s.take(k));
    } else {
        assert(s.take(k) =~= s);
    }
}

/// Parse a word as a nonnegative number, exactly when it is an
/// acceptable one: an optional plus sign, then digits whose value fits.
pub fn parse_usize(s: &str) -> (r: Option<usize>)
    ensures
        r == if is_valid_usize(s@) {
            Some(parsed_usize(s@) as usize)
        } else {
            None::<usize>
        },
{
    let chars = str_to_chars(s);
    let start: usize = if chars.len() > 0 && chars[0] == '+' {
        1
    } else {
        0
    };
    let ghost body = parse_body(s@);
    proof {
        assert(body =~= s@.skip(start as int));
    }
    if chars.len() == start {
        return None;
    }
    let mut i: usize = start;
    while i < chars.len()
        invariant
            start <= i <= chars@.len(),
            chars@ == s@,
            body == parse_body(s@),
            body == s@.skip(start as int),
            forall|j: int| start <= j < i ==> is_digit(s@[j]),
        decreases chars@.len() - i,
    {
        let u = chars[i] as u32;
        if u < 48 || u > 57 {
            proof {
                assert(body[i - start] == s@[i as int]);
                assert(!is_digit(body[i - start]));
            }
            return None;
        }
        i = i + 1;
    }
    proof {
        assert(forall|j: int| 0 <= j < body.len() ==> is_digit(#[trigger] body[j]));
    }
    let mut val: usize = 0;
    let mut k: usize = start;
    while k < chars.len()
        invariant
            start <= k <= chars@.len(),
            chars@ == s@,
            body == parse_body(s@),
            body == s@.skip(start as int),
            forall|j: int| 0 <= j < body.len() ==> is_digit(#[trigger] body[j]),
            val as int == digits_val(body.take(k - start)),
        decreases chars@.len() - k,
    {
        let u = chars[k] as u32;
        proof {
            assert(body[k - start] == s@[k as int]);
        }
        let d = (u - 48) as usize;
        if val > (usize::MAX - d) / 10 {
            proof {
                let m = k + 1 - start;
                assert(body.take(m).drop_last() =~= body.take(k - start));
                assert(body.take(m).last() == body[m - 1]);
                assert(digits_val(body.take(m)) == val * 10 + d);
                assert(val * 10 + d > usize::MAX) by (nonlinear_arith)
                    requires
                        val > (usize::MAX - d) / 10,
                        0 <= d <= 9,
                ;
                lemma_digits_val_prefix(body, m);
                assert(!is_valid_usize(s@));
            }
            return None;
        }
        proof {
            assert(val * 10 + d <= usize::MAX) by (nonlinear_arith)
                requires
                    val <= (usize::MAX - d) / 10,
                    0 <= d <= 9,
            ;
            let m = k + 1 - start;
            assert(body.take(m).drop_last() =~= body.take(k - start));
            assert(body.take(m).last() == body[m - 1]);
        }
        val = val * 10 + d;
        k = k + 1;
    }
    proof {
        assert(body.take(chars@.len() - start) =~= body);
        lemma_digits_val_nonneg(body);
    }
    Some(val)
}

/// The starting flag state: nothing requested.
pub open spec fn args_init() -> TerminalArgs {
    TerminalArgs { color: false, raw: false, num: None }
}

/// One scan of the argument words from position `i`, with the flags
/// accumulated so far and whether a number is owed by the next word.
/// Color cannot be set once raw is: raw output is always colorless.
/// A help flag ends the scan immediately; unknown words change nothing.
pub open spec fn parse_from(
    args: Seq<Seq<char>>,
    i: int,
    cur: TerminalArgs,
    expect_num: bool,
) -> ArgOutcome
    decreases args.len() - i,
{
    if i < 0 || i >= args.len() {
        if expect_num {
            ArgOutcome::MissingNumber
        } else {
            ArgOutcome::Parsed(cur)
        }
    } else {
        let a = args[i];
        if expect_num {
            if is_valid_usize(a) {
                parse_from(
                    args,
                    i + 1,
                    TerminalArgs {
                        color: cur.color,
                        raw: cur.raw,
                        num: Some(parsed_usize(a) as usize),
                    },
                    false,
                )
            } else {
                ArgOutcome::MissingNumber
            }
        } else if a == "-c"@ || a == "--color"@ {
            parse_from(
                args,
                i + 1,
                if cur.raw {
                    cur
                } else {
                    TerminalArgs { color: true, raw: cur.raw, num: cur.num }
                },
                false,
            )
        } else if a == "-r"@ || a == "--raw"@ {
            parse_from(args, i + 1, TerminalArgs { color: false, raw: true, num: cur.num }, false)
        } else if a == "-n"@ || a == "--num"@ || a == "--number"@ {
            parse_from(args, i + 1, cur, true)
        } else if a == "-h"@ || a == "--help"@ || a == "-?"@ {
            ArgOutcome::Help
        } else {
            parse_from(args, i + 1, cur, false)
        }
    }
}

/// What `parse_args` returns for the whole argument list.
pub open spec fn parse_args_spec(args: Seq<Seq<char>>) -> ArgOutcome {
    parse_from(args, 0, args_init(), false)
}

/// Scan the argument words. The outcome is exactly the state machine's:
/// the accumulated flags, a help request, or a missing number.
pub fn parse_args(args: &Vec<String>) -> (r: ArgOutcome)
    ensures
        r == parse_args_spec(args.deep_view()),
{
    let ghost av = args.deep_view();
    let mut cur = TerminalArgs { color: false, raw: false, num: None };
    let mut expect_num = false;
    let mut i: usize = 0;
    while i < args.len()
        invariant
            i <= args@.len(),
            av == args.deep_view(),
            parse_args_spec(av) == parse_from(av, i as int, cur, expect_num),
        decreases args@.len() - i,
    {
        let a = args[i].as_str();
        proof {
            assert(av[i as int] == args@[i as int]@);
        }
        if expect_num {
            match parse_usize(a) {
                Option::Some(v) => {
                    cur = TerminalArgs { color: cur.color, raw: cur.raw, num: Some(v) };
                    expect_num = false;
                },
                Option::None => {
                    return ArgOutcome::MissingNumber;
                },
            }
        } else if str_eq(a, "-c") || str_eq(a, "--color") {
            if !cur.raw {
                cur = TerminalArgs { color: true, raw: cur.raw, num: cur.num };
            }
        } else if str_eq(a, "-r") || str_eq(a, "--raw") {
            cur = TerminalArgs { color: false, raw: true, num: cur.num };
        } else if str_eq(a, "-n") || str_eq(a, "--num") || str_eq(a, "--number") {
            expect_num = true;
        } else if str_eq(a, "-h") || str_eq(a, "--help") || str_eq(a, "-?") {
            return ArgOutcome::Help;
        }
        i = i + 1;
    }
    if expect_num {
        return ArgOutcome::MissingNumber;
    }
    ArgOutcome::Parsed(cur)
}

} // verus!
