//! Picking the fact to show, and the raw display line.

use vstd::prelude::*;

use crate::strutil::{dec_digits, decimal_string};
use vstd::string::StringExecFns;

verus! {

/// Which fact a run shows: a zero-based index into the fact list, or why
/// a requested number cannot be honored.
#[derive(Clone, Copy, Debug, PartialEq, Eq)]
pub enum FactChoice {
    TooLarge,
    TooSmall,
    Index(usize),
}

/// The selection rule: a requested number beyond the list is too large,
/// zero is too small — facts count from one — and any other request
/// names the fact one below it. Without a request the caller-supplied
/// fallback pick is used as is.
pub open spec fn choose_fact_spec(num: Option<usize>, fallback: usize, count: usize) -> FactChoice {
    match num {
        Option::Some(n) => if n > count {
            FactChoice::TooLarge
        } else if n == 0 {
            FactChoice::TooSmall
        } else {
            FactChoice::Index((n - 1) as usize)
        },
        Option::None => FactChoice::Index(fallback),
    }
}

/// Decide which fact to show. `fallback` is the caller's pick — drawn at
/// random by the program — for when no number was requested.
pub fn choose_fact_index(num: Option<usize>, fallback: usize, count: usize) -> (r: FactChoice)
    requires
        fallback < count,
    ensures
        r == choose_fact_spec(num, fallback, count),
        r is Index ==> r->Index_0 < count,
{
    match num {
        Option::Some(n) => {
            if n > count {
                FactChoice::TooLarge
            } else if n == 0 {
                FactChoice::TooSmall
            } else {
                FactChoice::Index(n - 1)
            }
        },
        Option::None => FactChoice::Index(fallback),
    }
}

/// The raw, unframed display of a fact: its one-based number and its
/// text on a single line.
pub fn raw_fact_line(num_display: usize, fact: &str) -> (s: String)
    ensures
        s@ == "Cat Fax #"@ + dec_digits(num_display as int) + ": "@ + fact@,
{
    let mut s = String::new();
    s.append("Cat Fax #");
    let nd = decimal_string(num_display);
    s.append(nd.as_str());
    s.append(": ");
    s.append(fact);
    assert(s@ =~= "Cat Fax #"@ + dec_digits(num_display as int) + ": "@ + fact@);
    s
}

} // verus!
