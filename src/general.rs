//! Lexical rules shared by both formats.
//!
//! Each rule is given twice: as a spec function that reads `s` from position
//! `i` and gives the value matched with the position after it (or `None`),
//! and as an executable function proved to compute exactly that. A public
//! function of the same name applies the rule to a whole text, which must be
//! consumed to its end.
use vstd::prelude::*;
use crate::error::ParseError;
use crate::text::{string_of, trim_bounds, trimmed, lemma_digits_value_lt, pow10, all_digits, chars_of, digit_value, digits_value, is_blank, is_digit, is_nl, is_ws};
use crate::vtt::{Anchor, Percentage};

verus! {

/// An executable match result `r` agrees with the spec result `m`: both fail,
/// or both give the same value (seen through its view) and end.
pub open spec fn agrees<V: View>(r: Option<(V, usize)>, m: Option<(V::V, int)>) -> bool {
    match r {
        Some((v, e)) => m == Some((v@, e as int)),
        None => m is None,
    }
}

/// Like `agrees`, for a rule that gives no value.
pub open spec fn agrees_end(r: Option<usize>, m: Option<int>) -> bool {
    match r {
        Some(e) => m == Some(e as int),
        None => m is None,
    }
}

/// Classes of characters that runs are made of.
#[derive(Clone, Copy, PartialEq, Eq, Structural)]
pub enum Class {
    /// Space or tab.
    Ws,
    /// Space, tab, carriage return or line feed.
    Blank,
    /// Carriage return or line feed.
    Nl,
    /// Anything but a carriage return or a line feed.
    NotNl,
    /// Anything but a space, tab, carriage return or line feed.
    NotBlank,
    /// A decimal digit.
    Digit,
}

pub open spec fn in_class(c: char, k: Class) -> bool {
    match k {
        Class::Ws => is_ws(c),
        Class::Blank => is_blank(c),
        Class::Nl => is_nl(c),
        Class::NotNl => !is_nl(c),
        Class::NotBlank => !is_blank(c),
        Class::Digit => is_digit(c),
    }
}

pub fn member(c: char, k: Class) -> (r: bool)
    ensures
        r == in_class(c, k),
{
    match k {
        Class::Ws => c == ' ' || c == '\t',
        Class::Blank => c == ' ' || c == '\t' || c == '\n' || c == '\r',
        Class::Nl => c == '\n' || c == '\r',
        Class::NotNl => !(c == '\n' || c == '\r'),
        Class::NotBlank => !(c == ' ' || c == '\t' || c == '\n' || c == '\r'),
        Class::Digit => '0' <= c && c <= '9',
    }
}

/// End of the longest run of characters of class `k` that starts at `i`.
pub open spec fn run_end(s: Seq<char>, i: int, k: Class) -> int
    decreases s.len() - i,
{
    if 0 <= i < s.len() && in_class(s[i], k) {
        run_end(s, i + 1, k)
    } else {
        i
    }
}

pub proof fn lemma_run_end(s: Seq<char>, i: int, k: Class)
    requires
        0 <= i <= s.len(),
    ensures
        i <= run_end(s, i, k) <= s.len(),
        forall|j: int| i <= j < run_end(s, i, k) ==> in_class(#[trigger] s[j], k),
        run_end(s, i, k) < s.len() ==> !in_class(s[run_end(s, i, k)], k),
    decreases s.len() - i,
{
    if i < s.len() && in_class(s[i], k) {
        lemma_run_end(s, i + 1, k);
    }
}

pub fn scan(s: &Vec<char>, i: usize, k: Class) -> (r: usize)
    requires
        i <= s.len(),
    ensures
        r == run_end(s@, i as int, k),
        i <= r <= s.len(),
{
    let mut j = i;
    while j < s.len() && member(s[j], k)
        invariant
            i <= j <= s.len(),
            run_end(s@, i as int, k) == run_end(s@, j as int, k),
        decreases s.len() - j,
    {
        j = j + 1;
    }
    j
}

/// Whether `s` holds the literal `t` at position `i`.
pub open spec fn lit_at(s: Seq<char>, i: int, t: Seq<char>) -> bool {
    0 <= i && i + t.len() <= s.len() && s.subrange(i, i + t.len()) == t
}

pub fn has_lit(s: &Vec<char>, i: usize, t: &str) -> (r: bool)
    requires
        i <= s.len(),
    ensures
        r == lit_at(s@, i as int, t@),
{
    let tc = chars_of(t);
    if tc.len() > s.len() - i {
        return false;
    }
    let mut k: usize = 0;
    while k < tc.len()
        invariant
            i + tc@.len() <= s.len(),
            k <= tc@.len(),
            tc@ == t@,
            forall|m: int| 0 <= m < k ==> s@[i + m] == tc@[m],
        decreases tc.len() - k,
    {
        if s[i + k] != tc[k] {
            proof {
                assert(s@.subrange(i as int, i + tc@.len())[k as int] != t@[k as int]);
            }
            return false;
        }
        k = k + 1;
    }
    proof {
        assert(s@.subrange(i as int, i + t@.len()) =~= t@);
    }
    true
}

/// End of the newline (`"\r\n"`, `"\n"` or `"\r"`) at `i`.
pub open spec fn newline_end(s: Seq<char>, i: int) -> Option<int> {
    if 0 <= i && i + 1 < s.len() && s[i] == '\r' && s[i + 1] == '\n' {
        Some(i + 2)
    } else if 0 <= i < s.len() && is_nl(s[i]) {
        Some(i + 1)
    } else {
        None
    }
}

pub fn newline_at(s: &Vec<char>, i: usize) -> (r: Option<usize>)
    requires
        i <= s.len(),
    ensures
        agrees_end(r, newline_end(s@, i as int)),
        r matches Some(e) ==> i < e <= s.len(),
{
    if i < s.len() && i + 1 < s.len() && s[i] == '\r' && s[i + 1] == '\n' {
        Some(i + 2)
    } else if i < s.len() && (s[i] == '\n' || s[i] == '\r') {
        Some(i + 1)
    } else {
        None
    }
}

/// A run of decimal digits, of any length but at least one, whose value fits
/// `u32`.
pub open spec fn number_at(s: Seq<char>, i: int) -> Option<(u32, int)> {
    let e = run_end(s, i, Class::Digit);
    let v = digits_value(s.subrange(i, e));
    if e > i && v <= u32::MAX {
        Some((v as u32, e))
    } else {
        None
    }
}

/// `min(value of s[i..j], cap)`.
pub fn digits_capped(s: &Vec<char>, i: usize, j: usize, cap: u64) -> (r: u64)
    requires
        i <= j <= s.len(),
        cap <= 1_000_000_000_000_000_000,
        forall|m: int| i <= m < j ==> is_digit(#[trigger] s@[m]),
    ensures
        r == if digits_value(s@.subrange(i as int, j as int)) < cap {
            digits_value(s@.subrange(i as int, j as int))
        } else {
            cap as nat
        },
{
    let mut v: u64 = 0;
    let mut k = i;
    proof {
        assert(s@.subrange(i as int, i as int) =~= Seq::<char>::empty());
    }
    while k < j
        invariant
            i <= k <= j <= s.len(),
            cap <= 1_000_000_000_000_000_000,
            forall|m: int| i <= m < j ==> is_digit(#[trigger] s@[m]),
            v == if digits_value(s@.subrange(i as int, k as int)) < cap {
                digits_value(s@.subrange(i as int, k as int))
            } else {
                cap as nat
            },
        decreases j - k,
    {
        let d = (s[k] as u32 - '0' as u32) as u64;
        proof {
            assert(is_digit(s@[k as int]));
            assert(s@.subrange(i as int, k + 1).drop_last() =~= s@.subrange(i as int, k as int));
            assert(s@.subrange(i as int, k + 1).last() == s@[k as int]);
        }
        let w = v * 10 + d;
        v = if w < cap { w } else { cap };
        k = k + 1;
    }
    v
}

pub fn number_at_exec(s: &Vec<char>, i: usize) -> (r: Option<(u32, usize)>)
    requires
        i <= s.len(),
    ensures
        agrees(r, number_at(s@, i as int)),
        r matches Some(p) ==> i < p.1 <= s.len(),
{
    let e = scan(s, i, Class::Digit);
    proof { lemma_run_end(s@, i as int, Class::Digit); }
    if e == i {
        return None;
    }
    let v = digits_capped(s, i, e, 0x1_0000_0000);
    if v <= 0xffff_ffff {
        Some((v as u32, e))
    } else {
        None
    }
}

/// An optional sign and a run of digits, whose value fits `i32`.
pub open spec fn int_at(s: Seq<char>, i: int) -> Option<(i32, int)> {
    let signed = 0 <= i < s.len() && (s[i] == '+' || s[i] == '-');
    let neg = signed && s[i] == '-';
    let d = if signed { i + 1 } else { i };
    let e = run_end(s, d, Class::Digit);
    let v = digits_value(s.subrange(d, e));
    if e > d && (if neg { v <= 0x8000_0000 } else { v <= 0x7fff_ffff }) {
        Some((if neg { -(v as int) } else { v as int } as i32, e))
    } else {
        None
    }
}

pub fn int_at_exec(s: &Vec<char>, i: usize) -> (r: Option<(i32, usize)>)
    requires
        i <= s.len(),
    ensures
        agrees(r, int_at(s@, i as int)),
        r matches Some(p) ==> i < p.1 <= s.len(),
{
    let signed = i < s.len() && (s[i] == '+' || s[i] == '-');
    let neg = signed && s[i] == '-';
    let d = if signed { i + 1 } else { i };
    let e = scan(s, d, Class::Digit);
    proof { lemma_run_end(s@, d as int, Class::Digit); }
    if e == d {
        return None;
    }
    let v = digits_capped(s, d, e, 0x1_0000_0000);
    if neg && v <= 0x8000_0000 {
        let w: i64 = -(v as i64);
        Some((w as i32, e))
    } else if !neg && v <= 0x7fff_ffff {
        Some((v as i32, e))
    } else {
        None
    }
}

/// Exactly `n` digits at `i`.
pub open spec fn fixed_digits_at(s: Seq<char>, i: int, n: int) -> Option<(nat, int)> {
    if 0 <= i && i + n <= s.len() && all_digits(s.subrange(i, i + n)) {
        Some((digits_value(s.subrange(i, i + n)), i + n))
    } else {
        None
    }
}

/// Two digits.
pub open spec fn two_number_at(s: Seq<char>, i: int) -> Option<(u8, int)> {
    match fixed_digits_at(s, i, 2) {
        Some((v, e)) => Some((v as u8, e)),
        None => None,
    }
}

/// Three digits.
pub open spec fn three_number_at(s: Seq<char>, i: int) -> Option<(u16, int)> {
    match fixed_digits_at(s, i, 3) {
        Some((v, e)) => Some((v as u16, e)),
        None => None,
    }
}

proof fn lemma_digits_value_bound(ds: Seq<char>)
    requires
        all_digits(ds),
    ensures
        ds.len() == 2 ==> digits_value(ds) < 100,
        ds.len() == 3 ==> digits_value(ds) < 1000,
{
    lemma_digits_value_lt(ds);
    reveal_with_fuel(pow10, 4);
}

fn fixed_digits_exec(s: &Vec<char>, i: usize, n: usize) -> (r: Option<(u64, usize)>)
    requires
        i <= s.len(),
        n == 2 || n == 3,
    ensures
        match r {
            Some((v, e)) => fixed_digits_at(s@, i as int, n as int) == Some((v as nat, e as int)),
            None => fixed_digits_at(s@, i as int, n as int) is None,
        },
        r matches Some(p) ==> p.1 == i + n && (n == 2 ==> p.0 < 100) && (n == 3 ==> p.0 < 1000),
{
    if n > s.len() - i {
        return None;
    }
    let e = scan(s, i, Class::Digit);
    proof { lemma_run_end(s@, i as int, Class::Digit); }
    if e < i + n {
        proof {
            assert(!is_digit(s@.subrange(i as int, i + n)[e - i]));
        }
        return None;
    }
    let v = digits_capped(s, i, i + n, 1000);
    proof {
        assert(all_digits(s@.subrange(i as int, i + n)));
        lemma_digits_value_bound(s@.subrange(i as int, i + n));
    }
    Some((v, i + n))
}

pub fn two_number_at_exec(s: &Vec<char>, i: usize) -> (r: Option<(u8, usize)>)
    requires
        i <= s.len(),
    ensures
        agrees(r, two_number_at(s@, i as int)),
        r matches Some(p) ==> p.1 == i + 2,
{
    match fixed_digits_exec(s, i, 2) {
        Some((v, e)) => Some((v as u8, e)),
        None => None,
    }
}

pub fn three_number_at_exec(s: &Vec<char>, i: usize) -> (r: Option<(u16, usize)>)
    requires
        i <= s.len(),
    ensures
        agrees(r, three_number_at(s@, i as int)),
        r matches Some(p) ==> p.1 == i + 3,
{
    match fixed_digits_exec(s, i, 3) {
        Some((v, e)) => Some((v as u16, e)),
        None => None,
    }
}

} // verus!

verus! {

/// The digit at `k` of `f`, or zero past its end.
pub open spec fn digit_or_zero(f: Seq<char>, k: int) -> nat {
    if 0 <= k < f.len() { digit_value(f[k]) } else { 0 }
}

/// The first `n` digits of the fraction `f`, in units of `10^-n`; missing
/// digits count as zeros, further digits are dropped.
pub open spec fn frac_units(f: Seq<char>, n: nat) -> nat
    decreases n,
{
    if n == 0 {
        0
    } else {
        frac_units(f, (n - 1) as nat) * 10 + digit_or_zero(f, n - 1)
    }
}

/// Digits, a period and digits: gives the position of the period and the end.
pub open spec fn decimal_at(s: Seq<char>, i: int) -> Option<(int, int)> {
    let d = run_end(s, i, Class::Digit);
    let e = run_end(s, d + 1, Class::Digit);
    if d > i && d < s.len() && s[d] == '.' && e > d + 1 {
        Some((d, e))
    } else {
        None
    }
}

/// Value in millionths of the decimal written in `s[i..e]` with its period at `d`.
pub open spec fn decimal_millionths(s: Seq<char>, i: int, d: int, e: int) -> nat {
    digits_value(s.subrange(i, d)) * 1_000_000 + frac_units(s.subrange(d + 1, e), 6)
}

/// A decimal with a period, in millionths (further digits are dropped); its
/// whole part must stay under `10^13`.
pub open spec fn float_at(s: Seq<char>, i: int) -> Option<(u64, int)> {
    match decimal_at(s, i) {
        Some((d, e)) => if digits_value(s.subrange(i, d)) < 10_000_000_000_000 {
            Some((decimal_millionths(s, i, d, e) as u64, e))
        } else {
            None
        },
        None => None,
    }
}

/// An integer percentage up to 100, such as `"50%"`.
pub open spec fn percentage_int_at(s: Seq<char>, i: int) -> Option<(u32, int)> {
    match number_at(s, i) {
        Some((n, e)) => if e < s.len() && s[e] == '%' && n <= 100 {
            Some((n, e + 1))
        } else {
            None
        },
        None => None,
    }
}

/// A decimal percentage up to 100, such as `"50.5%"`.
pub open spec fn percentage_float_at(s: Seq<char>, i: int) -> Option<(Percentage, int)> {
    match decimal_at(s, i) {
        Some((d, e)) => {
            let whole = digits_value(s.subrange(i, d));
            let frac = digits_value(s.subrange(d + 1, e));
            if e < s.len() && s[e] == '%' && (whole < 100 || (whole == 100 && frac == 0)) {
                Some((Percentage { value: decimal_millionths(s, i, d, e) as u32 }, e + 1))
            } else {
                None
            }
        },
        None => None,
    }
}

/// A percentage: an integer one, or else a decimal one.
pub open spec fn percentage_at(s: Seq<char>, i: int) -> Option<(Percentage, int)> {
    match percentage_int_at(s, i) {
        Some((n, e)) => Some((Percentage { value: (n * 1_000_000) as u32 }, e)),
        None => percentage_float_at(s, i),
    }
}

/// Two percentages separated by a comma.
pub open spec fn anchor_at(s: Seq<char>, i: int) -> Option<(Anchor, int)> {
    match percentage_at(s, i) {
        Some((x, e)) => if e < s.len() && s[e] == ',' {
            match percentage_at(s, e + 1) {
                Some((y, f)) => Some((Anchor { x, y }, f)),
                None => None,
            }
        } else {
            None
        },
        None => None,
    }
}

proof fn lemma_frac_units_bound(f: Seq<char>, n: nat)
    requires
        all_digits(f),
    ensures
        frac_units(f, n) < pow10(n),
    decreases n,
{
    if n > 0 {
        lemma_frac_units_bound(f, (n - 1) as nat);
        if n - 1 < f.len() {
            assert(is_digit(f[n - 1]));
        }
    }
}

fn frac_units_exec(s: &Vec<char>, i: usize, j: usize) -> (r: u64)
    requires
        i <= j <= s.len(),
        forall|m: int| i <= m < j ==> is_digit(#[trigger] s@[m]),
    ensures
        r == frac_units(s@.subrange(i as int, j as int), 6),
        r < 1_000_000,
{
    let ghost f = s@.subrange(i as int, j as int);
    proof {
        assert(all_digits(f));
        lemma_frac_units_bound(f, 6);
        reveal_with_fuel(pow10, 7);
    }
    let mut acc: u64 = 0;
    let mut k: usize = 0;
    while k < 6
        invariant
            k <= 6,
            i <= j <= s.len(),
            f == s@.subrange(i as int, j as int),
            forall|m: int| i <= m < j ==> is_digit(#[trigger] s@[m]),
            acc == frac_units(f, k as nat),
            acc < pow10(k as nat),
        decreases 6 - k,
    {
        proof {
            lemma_frac_units_bound(f, (k + 1) as nat);
            assert(all_digits(f));
        }
        let d: u64 = if k < j - i {
            proof { assert(is_digit(s@[i + k])); }
            (s[i + k] as u32 - '0' as u32) as u64
        } else {
            0
        };
        proof {
            reveal_with_fuel(pow10, 7);
        }
        acc = acc * 10 + d;
        k = k + 1;
    }
    acc
}

fn decimal_at_exec(s: &Vec<char>, i: usize) -> (r: Option<(usize, usize)>)
    requires
        i <= s.len(),
    ensures
        match r {
            Some((d, e)) => decimal_at(s@, i as int) == Some((d as int, e as int))
                && i < d < e <= s.len(),
            None => decimal_at(s@, i as int) is None,
        },
{
    let d = scan(s, i, Class::Digit);
    if d > i && d < s.len() && s[d] == '.' {
        let e = scan(s, d + 1, Class::Digit);
        if e > d + 1 {
            return Some((d, e));
        }
    }
    None
}

pub fn float_at_exec(s: &Vec<char>, i: usize) -> (r: Option<(u64, usize)>)
    requires
        i <= s.len(),
    ensures
        agrees(r, float_at(s@, i as int)),
        r matches Some(p) ==> i < p.1 <= s.len(),
{
    match decimal_at_exec(s, i) {
        Some((d, e)) => {
            proof {
                lemma_run_end(s@, i as int, Class::Digit);
                lemma_run_end(s@, d + 1, Class::Digit);
            }
            let whole = digits_capped(s, i, d, 10_000_000_000_000);
            if whole < 10_000_000_000_000 {
                let frac = frac_units_exec(s, d + 1, e);
                Some((whole * 1_000_000 + frac, e))
            } else {
                None
            }
        },
        None => None,
    }
}

pub fn percentage_int_at_exec(s: &Vec<char>, i: usize) -> (r: Option<(u32, usize)>)
    requires
        i <= s.len(),
    ensures
        agrees(r, percentage_int_at(s@, i as int)),
        r matches Some(p) ==> p.0 <= 100 && i < p.1 <= s.len(),
{
    match number_at_exec(s, i) {
        Some((n, e)) => if e < s.len() && s[e] == '%' && n <= 100 {
            Some((n, e + 1))
        } else {
            None
        },
        None => None,
    }
}

pub fn percentage_float_at_exec(s: &Vec<char>, i: usize) -> (r: Option<(Percentage, usize)>)
    requires
        i <= s.len(),
    ensures
        agrees(r, percentage_float_at(s@, i as int)),
        r matches Some(p) ==> i < p.1 <= s.len(),
{
    match decimal_at_exec(s, i) {
        Some((d, e)) => {
            proof {
                lemma_run_end(s@, i as int, Class::Digit);
                lemma_run_end(s@, d + 1, Class::Digit);
            }
            if e < s.len() && s[e] == '%' {
                let whole = digits_capped(s, i, d, 101);
                let frac_nonzero = digits_capped(s, d + 1, e, 1);
                if whole < 100 || (whole == 100 && frac_nonzero == 0) {
                    let units = frac_units_exec(s, d + 1, e);
                    return Some((Percentage { value: (whole * 1_000_000 + units) as u32 }, e + 1));
                }
            }
            None
        },
        None => None,
    }
}

pub fn percentage_at_exec(s: &Vec<char>, i: usize) -> (r: Option<(Percentage, usize)>)
    requires
        i <= s.len(),
    ensures
        agrees(r, percentage_at(s@, i as int)),
        r matches Some(p) ==> i < p.1 <= s.len(),
{
    match percentage_int_at_exec(s, i) {
        Some((n, e)) => Some((Percentage { value: n * 1_000_000 }, e)),
        None => percentage_float_at_exec(s, i),
    }
}

pub fn anchor_at_exec(s: &Vec<char>, i: usize) -> (r: Option<(Anchor, usize)>)
    requires
        i <= s.len(),
    ensures
        agrees(r, anchor_at(s@, i as int)),
        r matches Some(p) ==> i < p.1 <= s.len(),
{
    match percentage_at_exec(s, i) {
        Some((x, e)) => if e < s.len() && s[e] == ',' {
            match percentage_at_exec(s, e + 1) {
                Some((y, f)) => Some((Anchor { x, y }, f)),
                None => None,
            }
        } else {
            None
        },
        None => None,
    }
}

} // verus!

verus! {

/// The views of a sequence of strings.
pub open spec fn views(v: Seq<String>) -> Seq<Seq<char>> {
    v.map_values(|t: String| t@)
}

/// A run of characters that are neither whitespace nor newlines.
pub open spec fn sequence_at(s: Seq<char>, i: int) -> Option<(Seq<char>, int)> {
    let e = run_end(s, i, Class::NotBlank);
    if e > i {
        Some((s.subrange(i, e), e))
    } else {
        None
    }
}

/// A line that does not start with whitespace and is not whitespace alone,
/// with its newline; the value is the line trimmed, never empty.
pub open spec fn line_at(s: Seq<char>, i: int) -> Option<(Seq<char>, int)> {
    let e = run_end(s, i, Class::NotNl);
    if 0 <= i < s.len() && !is_blank(s[i]) && trimmed(s, i, e).len() > 0 {
        match newline_end(s, e) {
            Some(f) => Some((trimmed(s, i, e), f)),
            None => None,
        }
    } else {
        None
    }
}

/// One line of a multi-line block: not whitespace alone, not empty, ended by
/// a newline. The value is the line trimmed, never empty.
pub open spec fn block_line_at(s: Seq<char>, j: int) -> Option<(Seq<char>, int)> {
    let w = run_end(s, j, Class::Ws);
    let e = run_end(s, j, Class::NotNl);
    if w > j && newline_end(s, w) is Some {
        None
    } else if e > j && trimmed(s, j, e).len() > 0 {
        match newline_end(s, e) {
            Some(f) => Some((trimmed(s, j, e), f)),
            None => None,
        }
    } else {
        None
    }
}

/// As many block lines as follow from `j`, with the position after them.
pub open spec fn block_lines_from(s: Seq<char>, j: int) -> (Seq<Seq<char>>, int)
    decreases s.len() - j,
{
    match block_line_at(s, j) {
        Some((t, f)) => if j < f <= s.len() {
            let (rest, g) = block_lines_from(s, f);
            (seq![t] + rest, g)
        } else {
            (Seq::empty(), j)
        },
        None => (Seq::empty(), j),
    }
}

/// One or more block lines, the first not starting with whitespace.
pub open spec fn multiline_at(s: Seq<char>, i: int) -> Option<(Seq<Seq<char>>, int)> {
    if 0 <= i < s.len() && !is_blank(s[i]) && block_line_at(s, i) is Some {
        Some(block_lines_from(s, i))
    } else {
        None
    }
}

/// End of the lines (each non-empty and ended by a newline) that follow `j`.
pub open spec fn text_lines_end(s: Seq<char>, j: int) -> int
    decreases s.len() - j,
{
    let e = run_end(s, j, Class::NotNl);
    if 0 <= j && e > j {
        match newline_end(s, e) {
            Some(f) => if f <= s.len() { text_lines_end(s, f) } else { j },
            None => j,
        }
    } else {
        j
    }
}

/// One or more non-empty lines, each with its newline; the value is the text
/// as it stands.
pub open spec fn text_block_at(s: Seq<char>, i: int) -> Option<(Seq<char>, int)> {
    let e = text_lines_end(s, i);
    if 0 <= i && e > i {
        Some((s.subrange(i, e), e))
    } else {
        None
    }
}

pub fn sequence_at_exec(s: &Vec<char>, i: usize) -> (r: Option<(String, usize)>)
    requires
        i <= s.len(),
    ensures
        agrees(r, sequence_at(s@, i as int)),
        r matches Some(p) ==> i < p.1 <= s.len(),
{
    let e = scan(s, i, Class::NotBlank);
    if e > i {
        Some((string_of(s, i, e), e))
    } else {
        None
    }
}

pub fn line_at_exec(s: &Vec<char>, i: usize) -> (r: Option<(String, usize)>)
    requires
        i <= s.len(),
    ensures
        agrees(r, line_at(s@, i as int)),
        r matches Some(p) ==> i < p.1 <= s.len(),
{
    let e = scan(s, i, Class::NotNl);
    if i < s.len() && !member(s[i], Class::Blank) {
        let (a, b) = trim_bounds(s, i, e);
        if a == b {
            return None;
        }
        match newline_at(s, e) {
            Some(f) => Some((string_of(s, a, b), f)),
            None => None,
        }
    } else {
        None
    }
}

fn block_line_at_exec(s: &Vec<char>, j: usize) -> (r: Option<(String, usize)>)
    requires
        j <= s.len(),
    ensures
        agrees(r, block_line_at(s@, j as int)),
        r matches Some(p) ==> j < p.1 <= s.len(),
{
    let w = scan(s, j, Class::Ws);
    let e = scan(s, j, Class::NotNl);
    if w > j && newline_at(s, w).is_some() {
        None
    } else if e > j {
        let (a, b) = trim_bounds(s, j, e);
        if a == b {
            return None;
        }
        match newline_at(s, e) {
            Some(f) => Some((string_of(s, a, b), f)),
            None => None,
        }
    } else {
        None
    }
}

fn block_lines_exec(s: &Vec<char>, i: usize) -> (r: (Vec<String>, usize))
    requires
        i <= s.len(),
    ensures
        (views(r.0@), r.1 as int) == block_lines_from(s@, i as int),
        i <= r.1 <= s.len(),
{
    let mut acc: Vec<String> = Vec::new();
    let mut j = i;
    while j < s.len()
        invariant
            i <= j <= s.len(),
            block_lines_from(s@, i as int) == (views(acc@) + block_lines_from(s@, j as int).0,
                block_lines_from(s@, j as int).1),
        decreases s.len() - j,
    {
        match block_line_at_exec(s, j) {
            Some((t, f)) => {
                let ghost old_acc = acc@;
                let ghost rest = block_lines_from(s@, f as int).0;
                acc.push(t);
                proof {
                    assert(views(acc@) =~= views(old_acc).push(t@));
                    assert(views(old_acc) + (seq![t@] + rest) =~= views(acc@) + rest);
                }
                j = f;
            },
            None => {
                proof {
                    assert(views(acc@) + Seq::empty() =~= views(acc@));
                }
                return (acc, j);
            },
        }
    }
    proof {
        assert(block_line_at(s@, j as int) is None);
        assert(views(acc@) + Seq::empty() =~= views(acc@));
    }
    (acc, j)
}

pub fn multiline_at_exec(s: &Vec<char>, i: usize) -> (r: Option<(Vec<String>, usize)>)
    requires
        i <= s.len(),
    ensures
        match r {
            Some((v, e)) => multiline_at(s@, i as int) == Some((views(v@), e as int)) && i < e <= s.len(),
            None => multiline_at(s@, i as int) is None,
        },
{
    if i < s.len() && !member(s[i], Class::Blank) {
        match block_line_at_exec(s, i) {
            Some((_, f)) => {
                proof {
                    lemma_block_lines_from_end(s@, f as int);
                }
                let (v, e) = block_lines_exec(s, i);
                Some((v, e))
            },
            None => None,
        }
    } else {
        None
    }
}

pub proof fn lemma_block_lines_from_end(s: Seq<char>, j: int)
    ensures
        block_lines_from(s, j).1 >= j,
    decreases s.len() - j,
{
    match block_line_at(s, j) {
        Some((t, f)) => if j < f <= s.len() {
            lemma_block_lines_from_end(s, f);
        },
        None => {},
    }
}

fn text_lines_end_exec(s: &Vec<char>, i: usize) -> (r: usize)
    requires
        i <= s.len(),
    ensures
        r == text_lines_end(s@, i as int),
        i <= r <= s.len(),
{
    let mut j = i;
    loop
        invariant
            i <= j <= s.len(),
            text_lines_end(s@, i as int) == text_lines_end(s@, j as int),
        decreases s.len() - j,
    {
        let e = scan(s, j, Class::NotNl);
        if e > j {
            match newline_at(s, e) {
                Some(f) => {
                    j = f;
                },
                None => {
                    return j;
                },
            }
        } else {
            return j;
        }
    }
}

pub fn text_block_at_exec(s: &Vec<char>, i: usize) -> (r: Option<(String, usize)>)
    requires
        i <= s.len(),
    ensures
        agrees(r, text_block_at(s@, i as int)),
        r matches Some(p) ==> i < p.1 <= s.len(),
{
    let e = text_lines_end_exec(s, i);
    if e > i {
        Some((string_of(s, i, e), e))
    } else {
        None
    }
}

} // verus!

verus! {

/// Whether a match ends exactly at `n`.
pub open spec fn covers<V>(m: Option<(V, int)>, n: int) -> bool {
    match m {
        Some((_, e)) => e == n,
        None => false,
    }
}

/// `r` is what applying a rule whose match is `m` to a whole text of
/// length `n` gives: its value when the match covers the text, else an error.
pub open spec fn accepts<V: View>(r: Result<V, ParseError>, m: Option<(V::V, int)>, n: int) -> bool {
    match r {
        Ok(v) => m == Some((v@, n)),
        Err(_) => !covers(m, n),
    }
}

/// Like `accepts`, for a rule that gives no value.
pub open spec fn accepts_end(r: Result<(), ParseError>, m: Option<int>, n: int) -> bool {
    r is Ok <==> m == Some(n)
}

pub fn finish<V: View>(s: &Vec<char>, r: Option<(V, usize)>, expected: &str) -> (out: Result<V, ParseError>)
    requires
        r matches Some(p) ==> p.1 <= s.len(),
    ensures
        match r {
            Some((v, e)) => if e == s.len() { out == Ok::<V, ParseError>(v) } else { out is Err },
            None => out is Err,
        },
{
    match r {
        Some((v, e)) => if e == s.len() {
            Ok(v)
        } else {
            Err(ParseError::at(s, e, expected))
        },
        None => Err(ParseError::at(s, 0, expected)),
    }
}

fn finish_end(s: &Vec<char>, r: Option<usize>, expected: &str) -> (out: Result<(), ParseError>)
    requires
        r matches Some(e) ==> e <= s.len(),
    ensures
        out is Ok <==> r == Some(s.len()),
{
    match r {
        Some(e) => if e == s.len() {
            Ok(())
        } else {
            Err(ParseError::at(s, e, expected))
        },
        None => Err(ParseError::at(s, 0, expected)),
    }
}

/// A space or a tab.
pub open spec fn whitespace_at(s: Seq<char>, i: int) -> Option<int> {
    if 0 <= i < s.len() && is_ws(s[i]) { Some(i + 1) } else { None }
}

/// One or more of `k`.
pub open spec fn some_at(s: Seq<char>, i: int, k: Class) -> Option<int> {
    if run_end(s, i, k) > i { Some(run_end(s, i, k)) } else { None }
}

/// Spaces and tabs, or else one newline.
pub open spec fn some_whitespaces_or_newline_at(s: Seq<char>, i: int) -> Option<int> {
    match some_at(s, i, Class::Ws) {
        Some(e) => Some(e),
        None => newline_end(s, i),
    }
}

fn some_exec(s: &Vec<char>, i: usize, k: Class) -> (r: Option<usize>)
    requires
        i <= s.len(),
    ensures
        agrees_end(r, some_at(s@, i as int, k)),
        r matches Some(e) ==> i < e <= s.len(),
{
    let e = scan(s, i, k);
    if e > i { Some(e) } else { None }
}

/// Applies the whitespace rule (a space or a tab) to the whole of `text`.
pub fn whitespace(text: &str) -> (r: Result<(), ParseError>)
    ensures
        accepts_end(r, whitespace_at(text@, 0), text@.len() as int),
{
    let s = chars_of(text);
    let m = if 0 < s.len() && member(s[0], Class::Ws) { Some(1) } else { None };
    finish_end(&s, m, "whitespace")
}

/// Applies the rule "spaces and tabs, possibly none" to the whole of `text`.
pub fn whitespaces(text: &str) -> (r: Result<(), ParseError>)
    ensures
        accepts_end(r, Some(run_end(text@, 0, Class::Ws)), text@.len() as int),
{
    let s = chars_of(text);
    let e = scan(&s, 0, Class::Ws);
    finish_end(&s, Some(e), "whitespace")
}

/// Applies the rule "one or more spaces and tabs" to the whole of `text`.
pub fn some_whitespaces(text: &str) -> (r: Result<(), ParseError>)
    ensures
        accepts_end(r, some_at(text@, 0, Class::Ws), text@.len() as int),
{
    let s = chars_of(text);
    finish_end(&s, some_exec(&s, 0, Class::Ws), "whitespace")
}

/// Applies the newline rule (`"\r\n"`, `"\n"` or `"\r"`) to the whole of `text`.
pub fn newline(text: &str) -> (r: Result<(), ParseError>)
    ensures
        accepts_end(r, newline_end(text@, 0), text@.len() as int),
{
    let s = chars_of(text);
    finish_end(&s, newline_at(&s, 0), "newline")
}

/// Applies the rule "newlines, possibly none" to the whole of `text`: a run
/// of carriage returns and line feeds.
pub fn newlines(text: &str) -> (r: Result<(), ParseError>)
    ensures
        accepts_end(r, Some(run_end(text@, 0, Class::Nl)), text@.len() as int),
{
    let s = chars_of(text);
    let e = scan(&s, 0, Class::Nl);
    finish_end(&s, Some(e), "newline")
}

/// Applies the rule "one or more newlines" to the whole of `text`.
pub fn some_newlines(text: &str) -> (r: Result<(), ParseError>)
    ensures
        accepts_end(r, some_at(text@, 0, Class::Nl), text@.len() as int),
{
    let s = chars_of(text);
    finish_end(&s, some_exec(&s, 0, Class::Nl), "newline")
}

/// Applies the rule "spaces and tabs, or else one newline" to the whole of
/// `text`.
pub fn some_whitespaces_or_newline(text: &str) -> (r: Result<(), ParseError>)
    ensures
        accepts_end(r, some_whitespaces_or_newline_at(text@, 0), text@.len() as int),
{
    let s = chars_of(text);
    let m = match some_exec(&s, 0, Class::Ws) {
        Some(e) => Some(e),
        None => newline_at(&s, 0),
    };
    finish_end(&s, m, "whitespace or newline")
}

/// Applies the rule "whitespace and newlines, possibly none" to the whole of
/// `text`.
pub fn whitespaces_or_newlines(text: &str) -> (r: Result<(), ParseError>)
    ensures
        accepts_end(r, Some(run_end(text@, 0, Class::Blank)), text@.len() as int),
{
    let s = chars_of(text);
    let e = scan(&s, 0, Class::Blank);
    finish_end(&s, Some(e), "whitespace or newline")
}

/// Applies the rule "one or more whitespace or newline characters" to the
/// whole of `text`.
pub fn some_whitespaces_or_newlines(text: &str) -> (r: Result<(), ParseError>)
    ensures
        accepts_end(r, some_at(text@, 0, Class::Blank), text@.len() as int),
{
    let s = chars_of(text);
    finish_end(&s, some_exec(&s, 0, Class::Blank), "whitespace or newline")
}

/// Reads the whole of `text` as a run of digits whose value fits `u32`.
pub fn number(text: &str) -> (r: Result<u32, ParseError>)
    ensures
        accepts(r, number_at(text@, 0), text@.len() as int),
{
    let s = chars_of(text);
    finish(&s, number_at_exec(&s, 0), "number")
}

/// Reads the whole of `text` as a signed integer that fits `i32`.
pub fn integer(text: &str) -> (r: Result<i32, ParseError>)
    ensures
        accepts(r, int_at(text@, 0), text@.len() as int),
{
    let s = chars_of(text);
    finish(&s, int_at_exec(&s, 0), "signed number")
}

/// Reads the whole of `text` as exactly two digits.
pub fn two_number(text: &str) -> (r: Result<u8, ParseError>)
    ensures
        accepts(r, two_number_at(text@, 0), text@.len() as int),
{
    let s = chars_of(text);
    finish(&s, two_number_at_exec(&s, 0), "two-digit number")
}

/// Reads the whole of `text` as exactly three digits.
pub fn three_number(text: &str) -> (r: Result<u16, ParseError>)
    ensures
        accepts(r, three_number_at(text@, 0), text@.len() as int),
{
    let s = chars_of(text);
    finish(&s, three_number_at_exec(&s, 0), "three-digit number")
}

/// Reads the whole of `text` as a decimal with a period, in millionths.
pub fn float(text: &str) -> (r: Result<u64, ParseError>)
    ensures
        accepts(r, float_at(text@, 0), text@.len() as int),
{
    let s = chars_of(text);
    finish(&s, float_at_exec(&s, 0), "float")
}

/// Reads the whole of `text` as an integer percentage up to 100.
pub fn percentage_int(text: &str) -> (r: Result<u32, ParseError>)
    ensures
        accepts(r, percentage_int_at(text@, 0), text@.len() as int),
{
    let s = chars_of(text);
    finish(&s, percentage_int_at_exec(&s, 0), "percentage")
}

/// Reads the whole of `text` as a decimal percentage up to 100.
pub fn percentage_float(text: &str) -> (r: Result<Percentage, ParseError>)
    ensures
        accepts(r, percentage_float_at(text@, 0), text@.len() as int),
{
    let s = chars_of(text);
    finish(&s, percentage_float_at_exec(&s, 0), "percentage")
}

/// Reads the whole of `text` as a percentage up to 100.
pub fn percentage(text: &str) -> (r: Result<Percentage, ParseError>)
    ensures
        accepts(r, percentage_at(text@, 0), text@.len() as int),
{
    let s = chars_of(text);
    finish(&s, percentage_at_exec(&s, 0), "percentage")
}

/// Reads the whole of `text` as two percentages separated by a comma.
pub fn anchor(text: &str) -> (r: Result<Anchor, ParseError>)
    ensures
        accepts(r, anchor_at(text@, 0), text@.len() as int),
{
    let s = chars_of(text);
    finish(&s, anchor_at_exec(&s, 0), "anchor")
}

/// Reads the whole of `text` as a run of characters without whitespace or
/// newlines.
pub fn sequence(text: &str) -> (r: Result<String, ParseError>)
    ensures
        accepts(r, sequence_at(text@, 0), text@.len() as int),
{
    let s = chars_of(text);
    finish(&s, sequence_at_exec(&s, 0), "text")
}

/// Reads the whole of `text` as one or more non-empty lines, each with its
/// newline, and gives them as they stand.
pub fn text_block(text: &str) -> (r: Result<String, ParseError>)
    ensures
        accepts(r, text_block_at(text@, 0), text@.len() as int),
{
    let s = chars_of(text);
    finish(&s, text_block_at_exec(&s, 0), "text")
}

/// Reads the whole of `text` as one line with its newline, and gives it
/// trimmed.
pub fn line(text: &str) -> (r: Result<String, ParseError>)
    ensures
        accepts(r, line_at(text@, 0), text@.len() as int),
{
    let s = chars_of(text);
    finish(&s, line_at_exec(&s, 0), "line")
}

/// Reads the whole of `text` as a block of lines, none blank, and gives them
/// trimmed.
pub fn multiline(text: &str) -> (r: Result<Vec<String>, ParseError>)
    ensures
        match r {
            Ok(v) => multiline_at(text@, 0) == Some((views(v@), text@.len() as int)),
            Err(_) => !covers(multiline_at(text@, 0), text@.len() as int),
        },
{
    let s = chars_of(text);
    match multiline_at_exec(&s, 0) {
        Some((v, e)) => if e == s.len() {
            Ok(v)
        } else {
            Err(ParseError::at(&s, e, "line"))
        },
        None => Err(ParseError::at(&s, 0, "line")),
    }
}

} // verus!

verus! {

/// End of the literal `t` at `i`, if it stands there.
pub open spec fn lit_end(s: Seq<char>, i: int, t: Seq<char>) -> Option<int> {
    if lit_at(s, i, t) { Some(i + t.len()) } else { None }
}

pub fn lit_exec(s: &Vec<char>, i: usize, t: &str) -> (r: Option<usize>)
    requires
        i <= s.len(),
    ensures
        agrees_end(r, lit_end(s@, i as int, t@)),
        r matches Some(e) ==> i <= e <= s.len(),
{
    if has_lit(s, i, t) {
        let tc = chars_of(t);
        Some(i + tc.len())
    } else {
        None
    }
}

} // verus!

verus! {

/// A whole number over 100 written before `%` is no percentage: neither the
/// integer form nor the decimal form reads it.
pub proof fn lemma_percentage_over_hundred(s: Seq<char>, i: int, n: u32)
    requires
        n > 100,
        0 <= i,
        lit_at(s, i, crate::text::dec(n as nat) + seq!['%']),
    ensures
        percentage_at(s, i) is None,
{
    let t = crate::text::dec(n as nat);
    crate::srt_round_trip::lemma_lit_split(s, i, t, seq!['%']);
    crate::srt_round_trip::lemma_lit_index(s, i + t.len(), seq!['%'], 0);
    crate::srt_round_trip::lemma_number_of_dec(s, i, n);
    let d = run_end(s, i, Class::Digit);
    assert(d == i + t.len());
}

} // verus!
