//! The error of parsing.
use vstd::prelude::*;
use crate::text::{dec, push_dec, push_str};

verus! {

/// The error of parsing.
#[derive(Debug, Clone)]
pub struct ParseError {
    /// The position where parsing stopped, as `line:column`, both counted
    /// from one.
    pub location: String,
    /// What was expected at that position.
    pub expected: String,
}

/// Line and column (both from one) of position `pos` in `s`.
pub open spec fn line_col(s: Seq<char>, pos: int) -> (nat, nat)
    decreases pos,
{
    if pos <= 0 {
        (1, 1)
    } else {
        let (l, c) = line_col(s, pos - 1);
        if s[pos - 1] == '\n' {
            (l + 1, 1)
        } else {
            (l, c + 1)
        }
    }
}

/// `line:column` of position `pos` in `s`.
pub open spec fn location_text(s: Seq<char>, pos: int) -> Seq<char> {
    dec(line_col(s, pos).0) + seq![':'] + dec(line_col(s, pos).1)
}

proof fn lemma_line_col_bounds(s: Seq<char>, pos: int)
    requires
        0 <= pos,
    ensures
        1 <= line_col(s, pos).0 <= pos + 1,
        1 <= line_col(s, pos).1 <= pos + 1,
    decreases pos,
{
    if pos > 0 {
        lemma_line_col_bounds(s, pos - 1);
    }
}

impl ParseError {
    /// The error for a failure at position `pos` of `s`, where `expected`
    /// was wanted.
    pub fn at(s: &Vec<char>, pos: usize, expected: &str) -> (r: ParseError)
        requires
            pos <= s.len(),
        ensures
            r.location@ == location_text(s@, pos as int),
            r.expected@ == expected@,
    {
        let mut line: u128 = 1;
        let mut col: u128 = 1;
        let mut k: usize = 0;
        while k < pos
            invariant
                k <= pos <= s.len(),
                (line as nat, col as nat) == line_col(s@, k as int),
            decreases pos - k,
        {
            proof {
                lemma_line_col_bounds(s@, k as int);
            }
            if s[k] == '\n' {
                line = line + 1;
                col = 1;
            } else {
                col = col + 1;
            }
            k = k + 1;
        }
        let mut location = String::new();
        push_dec(&mut location, line);
        proof { reveal_strlit(":"); }
        push_str(&mut location, ":");
        push_dec(&mut location, col);
        let mut e = String::new();
        push_str(&mut e, expected);
        proof {
            assert(location@ =~= location_text(s@, pos as int));
            assert(e@ =~= expected@);
        }
        ParseError { location, expected: e }
    }
}

} // verus!
