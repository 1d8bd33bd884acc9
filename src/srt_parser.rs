//! The grammar of SubRip documents, and a parser proved to follow it.
use vstd::prelude::*;
use crate::error::ParseError;
use crate::error::location_text;
use crate::general::{
    accepts, agrees, has_lit, lit_at, multiline_at, multiline_at_exec, newline_at, newline_end,
    number_at, number_at_exec, run_end, scan, some_at, three_number_at, three_number_at_exec,
    two_number_at, two_number_at_exec, Class,
};
use crate::text::chars_of;
use crate::srt::{SrtSubtitle, SrtTimestamp, SubRip, SubtitleView, subtitles_view};

verus! {

/// `HH:MM:SS,mmm`, with exactly two, two, two and three digits.
pub open spec fn timestamp_at(s: Seq<char>, i: int) -> Option<(SrtTimestamp, int)> {
    match two_number_at(s, i) {
        Some((h, a)) => if a < s.len() && s[a] == ':' {
            match two_number_at(s, a + 1) {
                Some((m, b)) => if b < s.len() && s[b] == ':' {
                    match two_number_at(s, b + 1) {
                        Some((sec, c)) => if c < s.len() && s[c] == ',' {
                            match three_number_at(s, c + 1) {
                                Some((ms, d)) => Some((
                                    SrtTimestamp { hours: h, minutes: m, seconds: sec, milliseconds: ms },
                                    d,
                                )),
                                None => None,
                            }
                        } else {
                            None
                        },
                        None => None,
                    }
                } else {
                    None
                },
                None => None,
            }
        } else {
            None
        },
        None => None,
    }
}

/// Whether a line break starts at `i`: a line feed, or a carriage return not
/// followed by a line feed (`"\r\n"` counts once, at its line feed).
pub open spec fn break_at(s: Seq<char>, i: int) -> bool {
    0 <= i < s.len() && (s[i] == '\n' || (s[i] == '\r' && !(i + 1 < s.len() && s[i + 1] == '\n')))
}

/// Number of line breaks in `s[i..e]`.
pub open spec fn breaks(s: Seq<char>, i: int, e: int) -> nat
    decreases e - i,
{
    if i >= e {
        0
    } else {
        (if break_at(s, i) { 1nat } else { 0nat }) + breaks(s, i + 1, e)
    }
}

/// Position just after the first line break in `s[i..e]`.
pub open spec fn after_first_break(s: Seq<char>, i: int, e: int) -> int
    decreases e - i,
{
    if i >= e {
        e
    } else if break_at(s, i) {
        i + 1
    } else {
        after_first_break(s, i + 1, e)
    }
}

/// Whitespace and newlines that hold at most one line break: no blank line.
pub open spec fn separator_at(s: Seq<char>, i: int) -> Option<int> {
    let e = run_end(s, i, Class::Blank);
    if e > i && breaks(s, i, e) <= 1 {
        Some(e)
    } else {
        None
    }
}

/// Where a blank line starts in the whitespace at `i`, if it holds one.
pub open spec fn blank_line_at(s: Seq<char>, i: int) -> Option<int> {
    let e = run_end(s, i, Class::Blank);
    if breaks(s, i, e) > 1 {
        Some(after_first_break(s, i, e))
    } else {
        None
    }
}

/// End of an optional separator.
pub open spec fn opt_separator(s: Seq<char>, i: int) -> int {
    match separator_at(s, i) {
        Some(e) => e,
        None => i,
    }
}

/// One entry: sequence number, separator, start timestamp, `-->` (with
/// optional separators around it), end timestamp, separator, and a block of
/// text lines.
#[verifier::opaque]
pub open spec fn subtitle_at(s: Seq<char>, i: int) -> Option<(SubtitleView, int)> {
    match number_at(s, i) {
        Some((n, a)) => match separator_at(s, a) {
            Some(b) => match timestamp_at(s, b) {
                Some((start, c)) => {
                    let c2 = opt_separator(s, c);
                    if lit_at(s, c2, seq!['-', '-', '>']) {
                        let d = opt_separator(s, c2 + 3);
                        match timestamp_at(s, d) {
                            Some((end, e)) => match separator_at(s, e) {
                                Some(f) => match multiline_at(s, f) {
                                    Some((text, g)) => Some((
                                        SubtitleView { sequence: n, start, end, text, line_position: None },
                                        g,
                                    )),
                                    None => None,
                                },
                                None => None,
                            },
                            None => None,
                        }
                    } else {
                        None
                    }
                },
                None => None,
            },
            None => None,
        },
        None => None,
    }
}

/// The entries that follow position `i`, each after one or more newlines,
/// and the position after the last of them.
pub open spec fn entries_after(s: Seq<char>, i: int) -> (Seq<SubtitleView>, int)
    decreases s.len() - i,
{
    let j = run_end(s, i, Class::Nl);
    if j > i {
        match subtitle_at(s, j) {
            Some((e, k)) => if i < k <= s.len() {
                let (rest, g) = entries_after(s, k);
                (seq![e] + rest, g)
            } else {
                (Seq::empty(), i)
            },
            None => (Seq::empty(), i),
        }
    } else {
        (Seq::empty(), i)
    }
}

/// Zero or more entries separated by newlines, from `i`.
pub open spec fn entries_at(s: Seq<char>, i: int) -> (Seq<SubtitleView>, int) {
    match subtitle_at(s, i) {
        Some((e, k)) => {
            let (rest, g) = entries_after(s, k);
            (seq![e] + rest, g)
        },
        None => (Seq::empty(), i),
    }
}

/// Where reading a document stops: after leading whitespace, the entries,
/// and trailing whitespace.
pub open spec fn srt_stop(s: Seq<char>) -> int {
    run_end(s, entries_at(s, run_end(s, 0, Class::Blank)).1, Class::Blank)
}

/// A whole SubRip document: optional whitespace, one or more entries,
/// optional whitespace, and nothing else.
pub open spec fn srt_doc(s: Seq<char>) -> Option<Seq<SubtitleView>> {
    if srt_stop(s) == s.len() && entries_at(s, run_end(s, 0, Class::Blank)).0.len() > 0 {
        Some(entries_at(s, run_end(s, 0, Class::Blank)).0)
    } else {
        None
    }
}

/// Where reading an entry from `i` fails, and what was expected there: the
/// first step of the entry that does not match, or the start of a blank line
/// inside the entry.
pub open spec fn entry_failure(s: Seq<char>, i: int) -> (int, Seq<char>) {
    let blank = "no blank line inside an entry"@;
    match number_at(s, i) {
        None => (i, "sequence number"@),
        Some((_, a)) => match blank_line_at(s, a) {
            Some(p) => (p, blank),
            None => match separator_at(s, a) {
                None => (a, "whitespace or newline"@),
                Some(b) => match timestamp_at(s, b) {
                    None => (b, "timestamp"@),
                    Some((_, c)) => match blank_line_at(s, c) {
                        Some(p) => (p, blank),
                        None => {
                            let c2 = opt_separator(s, c);
                            if !lit_at(s, c2, seq!['-', '-', '>']) {
                                (c2, "-->"@)
                            } else {
                                match blank_line_at(s, c2 + 3) {
                                    Some(p) => (p, blank),
                                    None => {
                                        let d = opt_separator(s, c2 + 3);
                                        match timestamp_at(s, d) {
                                            None => (d, "timestamp"@),
                                            Some((_, e)) => match blank_line_at(s, e) {
                                                Some(p) => (p, blank),
                                                None => match separator_at(s, e) {
                                                    None => (e, "whitespace or newline"@),
                                                    Some(f) => (f, "text line"@),
                                                },
                                            },
                                        }
                                    },
                                }
                            }
                        },
                    },
                },
            },
        },
    }
}

/// Where reading a document fails, and what was expected there: the
/// furthest of the failure of the entry tried last and the first character
/// left over after the entries.
pub open spec fn srt_failure(s: Seq<char>) -> (int, Seq<char>) {
    let a = run_end(s, 0, Class::Blank);
    let (es, b) = entries_at(s, a);
    let c = run_end(s, b, Class::Blank);
    let j = if es.len() == 0 { a } else { run_end(s, b, Class::Nl) };
    if es.len() == 0 || j > b {
        let (p, x) = entry_failure(s, j);
        if p >= c { (p, x) } else { (c, "end of input"@) }
    } else {
        (c, "end of input"@)
    }
}

pub fn timestamp_at_exec(s: &Vec<char>, i: usize) -> (r: Option<(SrtTimestamp, usize)>)
    requires
        i <= s.len(),
    ensures
        agrees(r, timestamp_at(s@, i as int)),
        r matches Some(p) ==> i < p.1 <= s.len(),
{
    if let Some((h, a)) = two_number_at_exec(s, i) {
        if a < s.len() && s[a] == ':' {
            if let Some((m, b)) = two_number_at_exec(s, a + 1) {
                if b < s.len() && s[b] == ':' {
                    if let Some((sec, c)) = two_number_at_exec(s, b + 1) {
                        if c < s.len() && s[c] == ',' {
                            if let Some((ms, d)) = three_number_at_exec(s, c + 1) {
                                return Some((
                                    SrtTimestamp { hours: h, minutes: m, seconds: sec, milliseconds: ms },
                                    d,
                                ));
                            }
                        }
                    }
                }
            }
        }
    }
    None
}

fn break_exec(s: &Vec<char>, i: usize) -> (r: bool)
    requires
        i < s.len(),
    ensures
        r == break_at(s@, i as int),
{
    s[i] == '\n' || (s[i] == '\r' && !(i + 1 < s.len() && s[i + 1] == '\n'))
}

/// The blank run at `i`, with how many line breaks it holds (counting stops
/// at two) and where its first one ends.
fn blank_run_exec(s: &Vec<char>, i: usize) -> (r: (usize, usize, usize))
    requires
        i <= s.len(),
    ensures
        r.0 == run_end(s@, i as int, Class::Blank),
        i <= r.0 <= s.len(),
        r.1 <= 2,
        r.1 == (if breaks(s@, i as int, r.0 as int) > 1 { 2 } else { breaks(s@, i as int, r.0 as int) }),
        r.1 == 2 ==> r.2 == after_first_break(s@, i as int, r.0 as int),
{
    let e = scan(s, i, Class::Blank);
    let mut k = i;
    let mut count: usize = 0;
    let mut first: usize = e;
    while k < e && count < 2
        invariant
            i <= k <= e <= s.len(),
            count <= 2,
            count + breaks(s@, k as int, e as int) == breaks(s@, i as int, e as int),
            count == 0 ==> after_first_break(s@, k as int, e as int) == after_first_break(s@, i as int, e as int),
            count > 0 ==> first == after_first_break(s@, i as int, e as int),
        decreases e - k,
    {
        if break_exec(s, k) {
            if count == 0 {
                first = k + 1;
            }
            count = count + 1;
        }
        k = k + 1;
    }
    (e, count, first)
}

fn separator_exec(s: &Vec<char>, i: usize) -> (r: Option<usize>)
    requires
        i <= s.len(),
    ensures
        match r {
            Some(e) => separator_at(s@, i as int) == Some(e as int) && i < e <= s.len(),
            None => separator_at(s@, i as int) is None,
        },
{
    let (e, count, _) = blank_run_exec(s, i);
    if e > i && count <= 1 {
        Some(e)
    } else {
        None
    }
}

fn blank_line_exec(s: &Vec<char>, i: usize) -> (r: Option<usize>)
    requires
        i <= s.len(),
    ensures
        match r {
            Some(p) => blank_line_at(s@, i as int) == Some(p as int) && p <= s.len(),
            None => blank_line_at(s@, i as int) is None,
        },
{
    let (e, count, first) = blank_run_exec(s, i);
    if count == 2 {
        proof {
            lemma_after_first_break(s@, i as int, e as int);
        }
        Some(first)
    } else {
        None
    }
}

proof fn lemma_after_first_break(s: Seq<char>, i: int, e: int)
    requires
        i <= e,
    ensures
        after_first_break(s, i, e) <= e,
    decreases e - i,
{
    if i < e && !break_at(s, i) {
        lemma_after_first_break(s, i + 1, e);
    }
}

fn opt_separator_exec(s: &Vec<char>, i: usize) -> (r: usize)
    requires
        i <= s.len(),
    ensures
        r == opt_separator(s@, i as int),
        i <= r <= s.len(),
{
    match separator_exec(s, i) {
        Some(e) => e,
        None => i,
    }
}

pub fn subtitle_at_exec(s: &Vec<char>, i: usize) -> (r: Option<(SrtSubtitle, usize)>)
    requires
        i <= s.len(),
    ensures
        agrees(r, subtitle_at(s@, i as int)),
        r matches Some(p) ==> i < p.1 <= s.len(),
{
    proof {
        reveal(subtitle_at);
        reveal_strlit("-->");
        assert("-->"@ =~= seq!['-', '-', '>']);
    }
    if let Some((n, a)) = number_at_exec(s, i) {
        if let Some(b) = separator_exec(s, a) {
            if let Some((start, c)) = timestamp_at_exec(s, b) {
                let c2 = opt_separator_exec(s, c);
                if has_lit(s, c2, "-->") {
                    let d = opt_separator_exec(s, c2 + 3);
                    if let Some((end, e)) = timestamp_at_exec(s, d) {
                        if let Some(f) = separator_exec(s, e) {
                            if let Some((text, g)) = multiline_at_exec(s, f) {
                                return Some((
                                    SrtSubtitle { sequence: n, start, end, text, line_position: None },
                                    g,
                                ));
                            }
                        }
                    }
                }
            }
        }
    }
    None
}

fn entries_exec(s: &Vec<char>, i: usize) -> (r: (Vec<SrtSubtitle>, usize))
    requires
        i <= s.len(),
    ensures
        (subtitles_view(r.0@), r.1 as int) == entries_at(s@, i as int),
        i <= r.1 <= s.len(),
{
    let mut acc: Vec<SrtSubtitle> = Vec::new();
    let first = subtitle_at_exec(s, i);
    let mut j: usize;
    match first {
        Some((e, k)) => {
            acc.push(e);
            j = k;
        },
        None => {
            proof {
                assert(subtitles_view(acc@) =~= Seq::empty());
            }
            return (acc, i);
        },
    }
    proof {
        assert(subtitles_view(acc@) =~= seq![acc@[0]@]);
    }
    loop
        invariant
            i <= j <= s.len(),
            entries_at(s@, i as int) == (subtitles_view(acc@) + entries_after(s@, j as int).0,
                entries_after(s@, j as int).1),
        decreases s.len() - j,
    {
        let n = scan(s, j, Class::Nl);
        if n > j {
            match subtitle_at_exec(s, n) {
                Some((e, k)) => {
                    let ghost old_acc = acc@;
                    let ghost rest = entries_after(s@, k as int).0;
                    acc.push(e);
                    proof {
                        assert(subtitles_view(acc@) =~= subtitles_view(old_acc).push(e@));
                        assert(subtitles_view(old_acc) + (seq![e@] + rest) =~= subtitles_view(acc@)
                            + rest);
                    }
                    j = k;
                },
                None => {
                    proof {
                        assert(subtitles_view(acc@) + Seq::empty() =~= subtitles_view(acc@));
                    }
                    return (acc, j);
                },
            }
        } else {
            proof {
                assert(subtitles_view(acc@) + Seq::empty() =~= subtitles_view(acc@));
            }
            return (acc, j);
        }
    }
}

fn entry_failure_exec(s: &Vec<char>, i: usize) -> (r: (usize, &'static str))
    requires
        i <= s.len(),
    ensures
        r.0 as int == entry_failure(s@, i as int).0,
        r.1@ == entry_failure(s@, i as int).1,
        r.0 <= s.len(),
{
    proof {
        reveal_strlit("-->");
        assert("-->"@ =~= seq!['-', '-', '>']);
    }
    let blank = "no blank line inside an entry";
    let a = match number_at_exec(s, i) {
        None => {
            return (i, "sequence number");
        },
        Some((_, a)) => a,
    };
    if let Some(p) = blank_line_exec(s, a) {
        return (p, blank);
    }
    let b = match separator_exec(s, a) {
        None => {
            return (a, "whitespace or newline");
        },
        Some(b) => b,
    };
    let c = match timestamp_at_exec(s, b) {
        None => {
            return (b, "timestamp");
        },
        Some((_, c)) => c,
    };
    if let Some(p) = blank_line_exec(s, c) {
        return (p, blank);
    }
    let c2 = opt_separator_exec(s, c);
    if !has_lit(s, c2, "-->") {
        return (c2, "-->");
    }
    if let Some(p) = blank_line_exec(s, c2 + 3) {
        return (p, blank);
    }
    let d = opt_separator_exec(s, c2 + 3);
    let e = match timestamp_at_exec(s, d) {
        None => {
            return (d, "timestamp");
        },
        Some((_, e)) => e,
    };
    if let Some(p) = blank_line_exec(s, e) {
        return (p, blank);
    }
    match separator_exec(s, e) {
        None => (e, "whitespace or newline"),
        Some(f) => (f, "text line"),
    }
}

/// Parses a whole document.
pub fn srt_exec(s: &Vec<char>) -> (r: Result<SubRip, ParseError>)
    ensures
        match r {
            Ok(d) => srt_doc(s@) == Some(d@),
            Err(e) => srt_doc(s@) is None && e.location@ == location_text(s@, srt_failure(s@).0)
                && e.expected@ == srt_failure(s@).1,
        },
{
    proof {
        reveal_strlit("end of input");
    }
    let a = scan(s, 0, Class::Blank);
    let (subtitles, b) = entries_exec(s, a);
    let c = scan(s, b, Class::Blank);
    if c == s.len() && subtitles.len() > 0 {
        return Ok(SubRip { subtitles });
    }
    let j = if subtitles.len() == 0 { a } else { scan(s, b, Class::Nl) };
    if subtitles.len() == 0 || j > b {
        let (p, x) = entry_failure_exec(s, j);
        if p >= c {
            return Err(ParseError::at(s, p, x));
        }
    }
    Err(ParseError::at(s, c, "end of input"))
}

/// Reads the whole of `text` as one timestamp.
pub fn timestamp(text: &str) -> (r: Result<SrtTimestamp, ParseError>)
    ensures
        accepts(r, timestamp_at(text@, 0), text@.len() as int),
{
    let s = chars_of(text);
    match timestamp_at_exec(&s, 0) {
        Some((t, e)) => if e == s.len() {
            Ok(t)
        } else {
            Err(ParseError::at(&s, e, "end of input"))
        },
        None => Err(ParseError::at(&s, 0, "timestamp")),
    }
}

/// Reads the whole of `text` as one entry.
pub fn subtitle(text: &str) -> (r: Result<SrtSubtitle, ParseError>)
    ensures
        accepts(r, subtitle_at(text@, 0), text@.len() as int),
{
    let s = chars_of(text);
    match subtitle_at_exec(&s, 0) {
        Some((t, e)) => if e == s.len() {
            Ok(t)
        } else {
            Err(ParseError::at(&s, e, "end of input"))
        },
        None => Err(ParseError::at(&s, 0, "subtitle entry")),
    }
}

/// Reads the whole of `text` as a document.
pub fn srt(text: &str) -> (r: Result<SubRip, ParseError>)
    ensures
        match r {
            Ok(d) => srt_doc(text@) == Some(d@),
            Err(e) => srt_doc(text@) is None,
        },
{
    let s = chars_of(text);
    srt_exec(&s)
}

} // verus!
