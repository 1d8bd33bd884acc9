//! Characters and character sequences: classes, trimming, decimal digits, and
//! conversion between `str`, `Vec<char>` and `String`.
use vstd::prelude::*;

verus! {

/// A space or a tab.
pub open spec fn is_ws(c: char) -> bool {
    c == ' ' || c == '\t'
}

/// A carriage return or a line feed.
pub open spec fn is_nl(c: char) -> bool {
    c == '\n' || c == '\r'
}

/// A space, a tab, a carriage return or a line feed.
pub open spec fn is_blank(c: char) -> bool {
    is_ws(c) || is_nl(c)
}

pub open spec fn is_digit(c: char) -> bool {
    '0' <= c && c <= '9'
}

pub open spec fn digit_value(c: char) -> nat {
    (c as u32 - '0' as u32) as nat
}

pub open spec fn digit_char(d: nat) -> char {
    if d == 0 { '0' }
    else if d == 1 { '1' }
    else if d == 2 { '2' }
    else if d == 3 { '3' }
    else if d == 4 { '4' }
    else if d == 5 { '5' }
    else if d == 6 { '6' }
    else if d == 7 { '7' }
    else if d == 8 { '8' }
    else { '9' }
}

/// The characters that Unicode gives the `White_Space` property, which is
/// what `str::trim` removes.
pub open spec fn is_unicode_ws(c: char) -> bool {
    ('\u{9}' <= c && c <= '\u{d}') || c == ' ' || c == '\u{85}' || c == '\u{a0}'
        || c == '\u{1680}' || ('\u{2000}' <= c && c <= '\u{200a}') || c == '\u{2028}'
        || c == '\u{2029}' || c == '\u{202f}' || c == '\u{205f}' || c == '\u{3000}'
}

pub fn unicode_ws(c: char) -> (r: bool)
    ensures
        r == is_unicode_ws(c),
{
    ('\u{9}' <= c && c <= '\u{d}') || c == ' ' || c == '\u{85}' || c == '\u{a0}'
        || c == '\u{1680}' || ('\u{2000}' <= c && c <= '\u{200a}') || c == '\u{2028}'
        || c == '\u{2029}' || c == '\u{202f}' || c == '\u{205f}' || c == '\u{3000}'
}

/// Start of `s[i..j]` once leading Unicode whitespace is dropped.
pub open spec fn trim_start_at(s: Seq<char>, i: int, j: int) -> int
    decreases j - i,
{
    if i < j && is_unicode_ws(s[i]) {
        trim_start_at(s, i + 1, j)
    } else {
        i
    }
}

/// End of `s[i..j]` once trailing Unicode whitespace is dropped.
pub open spec fn trim_end_at(s: Seq<char>, i: int, j: int) -> int
    decreases j - i,
{
    if i < j && is_unicode_ws(s[j - 1]) {
        trim_end_at(s, i, j - 1)
    } else {
        j
    }
}

/// `s[i..j]` without leading and trailing Unicode whitespace.
pub open spec fn trimmed(s: Seq<char>, i: int, j: int) -> Seq<char> {
    let a = trim_start_at(s, i, j);
    s.subrange(a, trim_end_at(s, a, j))
}

/// A sequence with no leading or trailing Unicode whitespace.
pub open spec fn is_trimmed(t: Seq<char>) -> bool {
    t.len() > 0 ==> !is_unicode_ws(t[0]) && !is_unicode_ws(t[t.len() - 1])
}

/// Bounds of `s[i..j]` with surrounding whitespace dropped.
pub fn trim_bounds(s: &Vec<char>, i: usize, j: usize) -> (r: (usize, usize))
    requires
        i <= j <= s.len(),
    ensures
        r.0 == trim_start_at(s@, i as int, j as int),
        r.1 == trim_end_at(s@, r.0 as int, j as int),
        i <= r.0 <= r.1 <= j,
{
    let mut a = i;
    while a < j && unicode_ws(s[a])
        invariant
            i <= a <= j <= s.len(),
            trim_start_at(s@, i as int, j as int) == trim_start_at(s@, a as int, j as int),
        decreases j - a,
    {
        a = a + 1;
    }
    let mut b = j;
    while a < b && unicode_ws(s[b - 1])
        invariant
            a <= b <= j <= s.len(),
            trim_end_at(s@, a as int, j as int) == trim_end_at(s@, a as int, b as int),
        decreases b - a,
    {
        b = b - 1;
    }
    (a, b)
}

/// The decimal digits of `n`, without leading zeros.
pub open spec fn dec(n: nat) -> Seq<char>
    decreases n,
{
    if n < 10 {
        seq![digit_char(n)]
    } else {
        dec(n / 10).push(digit_char(n % 10))
    }
}

/// `n` in decimal, padded with zeros on the left to two digits.
pub open spec fn dec2(n: nat) -> Seq<char> {
    if n < 10 { seq!['0'] + dec(n) } else { dec(n) }
}

/// `n` in decimal, padded with zeros on the left to three digits.
pub open spec fn dec3(n: nat) -> Seq<char> {
    if n < 10 { seq!['0', '0'] + dec(n) } else if n < 100 { seq!['0'] + dec(n) } else { dec(n) }
}

/// A signed integer in decimal, with a minus sign when negative.
pub open spec fn dec_int(n: int) -> Seq<char> {
    if n < 0 { seq!['-'] + dec((-n) as nat) } else { dec(n as nat) }
}

/// The value of a run of decimal digits.
pub open spec fn digits_value(ds: Seq<char>) -> nat
    decreases ds.len(),
{
    if ds.len() == 0 {
        0
    } else {
        digits_value(ds.drop_last()) * 10 + digit_value(ds.last())
    }
}

pub open spec fn pow10(n: nat) -> nat
    decreases n,
{
    if n == 0 { 1 } else { 10 * pow10((n - 1) as nat) }
}

pub proof fn lemma_digits_value_lt(ds: Seq<char>)
    requires
        all_digits(ds),
    ensures
        digits_value(ds) < pow10(ds.len()),
    decreases ds.len(),
{
    if ds.len() > 0 {
        assert(all_digits(ds.drop_last()));
        lemma_digits_value_lt(ds.drop_last());
        assert(is_digit(ds[ds.len() - 1]));
    }
}

pub open spec fn all_digits(ds: Seq<char>) -> bool {
    forall|k: int| 0 <= k < ds.len() ==> is_digit(#[trigger] ds[k])
}

fn digit_str(d: u128) -> (r: &'static str)
    requires
        d < 10,
    ensures
        r@ == seq![digit_char(d as nat)],
{
    proof {
        reveal_strlit("0");
        reveal_strlit("1");
        reveal_strlit("2");
        reveal_strlit("3");
        reveal_strlit("4");
        reveal_strlit("5");
        reveal_strlit("6");
        reveal_strlit("7");
        reveal_strlit("8");
        reveal_strlit("9");
    }
    if d == 0 { "0" }
    else if d == 1 { "1" }
    else if d == 2 { "2" }
    else if d == 3 { "3" }
    else if d == 4 { "4" }
    else if d == 5 { "5" }
    else if d == 6 { "6" }
    else if d == 7 { "7" }
    else if d == 8 { "8" }
    else { "9" }
}

/// Appends `n` in decimal.
pub fn push_dec(out: &mut String, n: u128)
    ensures
        final(out)@ == old(out)@ + dec(n as nat),
    decreases n,
{
    if n >= 10 {
        push_dec(out, n / 10);
    }
    out.append(digit_str(n % 10));
    proof {
        assert(final(out)@ =~= old(out)@ + dec(n as nat));
    }
}

/// Appends a literal.
pub fn push_str(out: &mut String, t: &str)
    ensures
        final(out)@ == old(out)@ + t@,
{
    out.append(t);
}

/// Appends `n` in decimal, at least two digits wide.
pub fn push_dec2(out: &mut String, n: u64)
    ensures
        final(out)@ == old(out)@ + dec2(n as nat),
{
    if n < 10 {
        proof { reveal_strlit("0"); }
        out.append("0");
    }
    push_dec(out, n as u128);
    proof {
        assert(final(out)@ =~= old(out)@ + dec2(n as nat));
    }
}

/// Appends `n` in decimal, at least three digits wide.
pub fn push_dec3(out: &mut String, n: u64)
    ensures
        final(out)@ == old(out)@ + dec3(n as nat),
{
    proof { reveal_strlit("0"); reveal_strlit("00"); }
    if n < 10 {
        out.append("00");
    } else if n < 100 {
        out.append("0");
    }
    push_dec(out, n as u128);
    proof {
        assert(final(out)@ =~= old(out)@ + dec3(n as nat));
    }
}

/// Appends a signed integer in decimal.
pub fn push_int(out: &mut String, n: i32)
    ensures
        final(out)@ == old(out)@ + dec_int(n as int),
{
    if n < 0 {
        proof { reveal_strlit("-"); }
        out.append("-");
        let m: i64 = -(n as i64);
        push_dec(out, m as u128);
    } else {
        push_dec(out, n as u128);
    }
    proof {
        assert(final(out)@ =~= old(out)@ + dec_int(n as int));
    }
}

/// The characters of `s`, in order.
pub fn chars_of(s: &str) -> (r: Vec<char>)
    ensures
        r@ == s@,
{
    let mut r: Vec<char> = Vec::new();
    for c in it: s.chars()
        invariant
            it.seq() == s@,
            r@ == s@.take(it.index() as int),
    {
        r.push(c);
    }
    r
}

/// Relies on `String::from_iter` over `&char`: the string holds the given
/// characters in order.
#[verifier::external_body]
fn string_from_chars(cs: &[char]) -> (r: String)
    ensures
        r@ == cs@,
{
    String::from_iter(cs)
}

/// `s[i..j]` as a `String`.
pub fn string_of(s: &Vec<char>, i: usize, j: usize) -> (r: String)
    requires
        i <= j <= s.len(),
    ensures
        r@ == s@.subrange(i as int, j as int),
{
    let sl = vstd::slice::slice_subrange(s.as_slice(), i, j);
    string_from_chars(sl)
}

} // verus!
