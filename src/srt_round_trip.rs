//! Reading back what was rendered: a SubRip document whose fields are in the
//! ranges the format writes, and whose lines are trimmed and free of
//! newlines, is parsed back to itself.
use vstd::prelude::*;
use crate::general::{block_line_at, block_lines_from, lit_at, multiline_at, newline_end, number_at, run_end, two_number_at, three_number_at, in_class, Class};
use crate::srt::{body_text, document_text, lines_text, subtitle_text, tail_text, timestamp_text, SrtTimestamp, SubtitleView};
use crate::srt_parser::{entries_after, entries_at, opt_separator, separator_at, srt_doc, subtitle_at, timestamp_at};
use crate::text::{is_unicode_ws, all_digits, dec, dec2, dec3, digit_char, digit_value, digits_value, is_blank, is_digit, is_nl, is_trimmed, is_ws, trim_end_at, trim_start_at, trimmed};

verus! {

/// A line that reads back as itself: not empty, without surrounding
/// whitespace, without newlines.
pub open spec fn line_ok(l: Seq<char>) -> bool {
    l.len() > 0 && is_trimmed(l) && forall|k: int| 0 <= k < l.len() ==> !is_nl(#[trigger] l[k])
}

/// A timestamp whose fields fit the widths the format writes.
pub open spec fn timestamp_ok(t: SrtTimestamp) -> bool {
    t.hours < 100 && t.minutes < 100 && t.seconds < 100 && t.milliseconds < 1000
}

/// An entry that reads back as itself.
pub open spec fn subtitle_ok(e: SubtitleView) -> bool {
    &&& e.text.len() > 0
    &&& forall|k: int| 0 <= k < e.text.len() ==> line_ok(#[trigger] e.text[k])
    &&& timestamp_ok(e.start)
    &&& timestamp_ok(e.end)
    &&& e.line_position is None
}

pub proof fn lemma_digit_char(d: nat)
    requires
        d < 10,
    ensures
        is_digit(digit_char(d)),
        digit_value(digit_char(d)) == d,
{
}

proof fn lemma_digits_push(x: Seq<char>, c: char)
    ensures
        digits_value(x.push(c)) == digits_value(x) * 10 + digit_value(c),
{
    assert(x.push(c).drop_last() =~= x);
}

pub proof fn lemma_dec(n: nat)
    ensures
        dec(n).len() >= 1,
        all_digits(dec(n)),
        digits_value(dec(n)) == n,
    decreases n,
{
    if n < 10 {
        lemma_digit_char(n);
        lemma_digits_push(Seq::empty(), digit_char(n));
        assert(Seq::<char>::empty().push(digit_char(n)) =~= seq![digit_char(n)]);
    } else {
        lemma_dec(n / 10);
        lemma_digit_char(n % 10);
        lemma_digits_push(dec(n / 10), digit_char(n % 10));
        assert forall|k: int| 0 <= k < dec(n).len() implies is_digit(#[trigger] dec(n)[k]) by {
            if k < dec(n / 10).len() {
                assert(dec(n)[k] == dec(n / 10)[k]);
            }
        }
    }
}

pub proof fn lemma_dec_small(n: nat)
    ensures
        n < 10 ==> dec(n).len() == 1,
        10 <= n < 100 ==> dec(n).len() == 2,
        100 <= n < 1000 ==> dec(n).len() == 3,
    decreases n,
{
    if n >= 10 {
        lemma_dec_small(n / 10);
    }
}

proof fn lemma_zero_prefix(x: Seq<char>)
    ensures
        digits_value(seq!['0'] + x) == digits_value(x),
    decreases x.len(),
{
    let y = seq!['0'] + x;
    if x.len() == 0 {
        assert(y.drop_last() =~= Seq::<char>::empty());
        assert(y.last() == '0');
        assert(digit_value('0') == 0);
        assert(digits_value(y) == digits_value(y.drop_last()) * 10 + digit_value(y.last()));
        assert(digits_value(x) == 0);
    } else {
        lemma_zero_prefix(x.drop_last());
        assert(y.drop_last() =~= seq!['0'] + x.drop_last());
        assert(y.last() == x.last());
        assert(digits_value(y) == digits_value(y.drop_last()) * 10 + digit_value(y.last()));
        assert(digits_value(x) == digits_value(x.drop_last()) * 10 + digit_value(x.last()));
    }
}

pub proof fn lemma_dec2(n: nat)
    requires
        n < 100,
    ensures
        dec2(n).len() == 2,
        all_digits(dec2(n)),
        digits_value(dec2(n)) == n,
{
    lemma_dec(n);
    lemma_dec_small(n);
    if n < 10 {
        lemma_zero_prefix(dec(n));
        assert forall|k: int| 0 <= k < 2 implies is_digit(#[trigger] dec2(n)[k]) by {
            if k == 1 {
                assert(dec2(n)[1] == dec(n)[0]);
            }
        }
    }
}

pub proof fn lemma_dec3(n: nat)
    requires
        n < 1000,
    ensures
        dec3(n).len() == 3,
        all_digits(dec3(n)),
        digits_value(dec3(n)) == n,
{
    lemma_dec(n);
    lemma_dec_small(n);
    if n < 10 {
        lemma_zero_prefix(dec(n));
        lemma_zero_prefix(seq!['0'] + dec(n));
        assert(seq!['0', '0'] + dec(n) =~= seq!['0'] + (seq!['0'] + dec(n)));
        assert forall|k: int| 0 <= k < 3 implies is_digit(#[trigger] dec3(n)[k]) by {
            if k == 2 {
                assert(dec3(n)[2] == dec(n)[0]);
            }
        }
    } else if n < 100 {
        lemma_zero_prefix(dec(n));
        assert forall|k: int| 0 <= k < 3 implies is_digit(#[trigger] dec3(n)[k]) by {
            if k >= 1 {
                assert(dec3(n)[k] == dec(n)[k - 1]);
            }
        }
    }
}

/// Splits a literal that stands at `i` into its two parts.
pub proof fn lemma_lit_split(s: Seq<char>, i: int, a: Seq<char>, b: Seq<char>)
    requires
        lit_at(s, i, a + b),
    ensures
        lit_at(s, i, a),
        lit_at(s, i + a.len(), b),
{
    let ab = s.subrange(i, i + a.len() + b.len());
    assert(ab == a + b);
    assert(s.subrange(i, i + a.len()) =~= ab.subrange(0, a.len() as int));
    assert(ab.subrange(0, a.len() as int) =~= a);
    assert(s.subrange(i + a.len(), i + a.len() + b.len()) =~= ab.subrange(
        a.len() as int,
        (a.len() + b.len()) as int,
    ));
    assert(ab.subrange(a.len() as int, (a.len() + b.len()) as int) =~= b);
}

pub proof fn lemma_lit_index(s: Seq<char>, i: int, a: Seq<char>, k: int)
    requires
        lit_at(s, i, a),
        0 <= k < a.len(),
    ensures
        s[i + k] == a[k],
{
    assert(s.subrange(i, i + a.len())[k] == s[i + k]);
}

/// A single character holds at most one line break.
pub proof fn lemma_single_char_breaks(s: Seq<char>, i: int)
    ensures
        crate::srt_parser::breaks(s, i, i + 1) <= 1,
{
    assert(crate::srt_parser::breaks(s, i + 1, i + 1) == 0);
}

/// A run of class `k` that stops at `j`.
pub proof fn lemma_run_to(s: Seq<char>, i: int, j: int, k: Class)
    requires
        0 <= i <= j <= s.len(),
        forall|m: int| i <= m < j ==> in_class(#[trigger] s[m], k),
        j == s.len() || !in_class(s[j], k),
    ensures
        run_end(s, i, k) == j,
    decreases j - i,
{
    if i < j {
        lemma_run_to(s, i + 1, j, k);
    }
}

pub proof fn lemma_number_of_dec(s: Seq<char>, i: int, n: u32)
    requires
        lit_at(s, i, dec(n as nat)),
        i + dec(n as nat).len() == s.len() || !is_digit(s[i + dec(n as nat).len()]),
    ensures
        number_at(s, i) == Some((n, i + dec(n as nat).len())),
{
    let t = dec(n as nat);
    lemma_dec(n as nat);
    assert forall|m: int| i <= m < i + t.len() implies in_class(#[trigger] s[m], Class::Digit) by {
        lemma_lit_index(s, i, t, m - i);
    }
    lemma_run_to(s, i, i + t.len(), Class::Digit);
    assert(s.subrange(i, i + t.len()) == t);
}

pub proof fn lemma_two_of_dec2(s: Seq<char>, i: int, n: u8)
    requires
        n < 100,
        lit_at(s, i, dec2(n as nat)),
    ensures
        two_number_at(s, i) == Some((n, i + 2)),
{
    lemma_dec2(n as nat);
    assert(s.subrange(i, i + 2) == dec2(n as nat));
}

pub proof fn lemma_three_of_dec3(s: Seq<char>, i: int, n: u16)
    requires
        n < 1000,
        lit_at(s, i, dec3(n as nat)),
    ensures
        three_number_at(s, i) == Some((n, i + 3)),
{
    lemma_dec3(n as nat);
    assert(s.subrange(i, i + 3) == dec3(n as nat));
}

proof fn lemma_timestamp_text_len(t: SrtTimestamp)
    requires
        timestamp_ok(t),
    ensures
        timestamp_text(t).len() == 12,
{
    lemma_dec2(t.hours as nat);
    lemma_dec2(t.minutes as nat);
    lemma_dec2(t.seconds as nat);
    lemma_dec3(t.milliseconds as nat);
}

proof fn lemma_timestamp_of_text(s: Seq<char>, i: int, t: SrtTimestamp)
    requires
        timestamp_ok(t),
        lit_at(s, i, timestamp_text(t)),
    ensures
        timestamp_at(s, i) == Some((t, i + 12)),
        is_digit(s[i]),
{
    let h = dec2(t.hours as nat);
    let m = dec2(t.minutes as nat);
    let sc = dec2(t.seconds as nat);
    let ms = dec3(t.milliseconds as nat);
    lemma_dec2(t.hours as nat);
    lemma_dec2(t.minutes as nat);
    lemma_dec2(t.seconds as nat);
    lemma_dec3(t.milliseconds as nat);
    assert(timestamp_text(t) == h + (seq![':'] + (m + (seq![':'] + (sc + (seq![','] + ms))))));
    lemma_lit_split(s, i, h, seq![':'] + (m + (seq![':'] + (sc + (seq![','] + ms)))));
    lemma_lit_split(s, i + 2, seq![':'], m + (seq![':'] + (sc + (seq![','] + ms))));
    lemma_lit_split(s, i + 3, m, seq![':'] + (sc + (seq![','] + ms)));
    lemma_lit_split(s, i + 5, seq![':'], sc + (seq![','] + ms));
    lemma_lit_split(s, i + 6, sc, seq![','] + ms);
    lemma_lit_split(s, i + 8, seq![','], ms);
    lemma_lit_index(s, i + 2, seq![':'], 0);
    lemma_lit_index(s, i + 5, seq![':'], 0);
    lemma_lit_index(s, i + 8, seq![','], 0);
    lemma_lit_index(s, i, h, 0);
    lemma_two_of_dec2(s, i, t.hours);
    lemma_two_of_dec2(s, i + 3, t.minutes);
    lemma_two_of_dec2(s, i + 6, t.seconds);
    lemma_three_of_dec3(s, i + 9, t.milliseconds);
}

/// One line, followed by a newline, reads back as itself.
pub proof fn lemma_block_line(s: Seq<char>, j: int, l: Seq<char>)
    requires
        line_ok(l),
        lit_at(s, j, l + seq!['\n']),
    ensures
        block_line_at(s, j) == Some((l, j + l.len() + 1)),
{
    lemma_lit_split(s, j, l, seq!['\n']);
    lemma_lit_index(s, j + l.len(), seq!['\n'], 0);
    let e = j + l.len();
    assert forall|m: int| j <= m < e implies in_class(#[trigger] s[m], Class::NotNl) by {
        lemma_lit_index(s, j, l, m - j);
    }
    lemma_run_to(s, j, e, Class::NotNl);
    lemma_lit_index(s, j, l, 0);
    lemma_lit_index(s, j, l, l.len() - 1);
    assert(!is_ws(s[j]));
    lemma_run_to(s, j, j, Class::Ws);
    assert(trim_start_at(s, j, e) == j);
    assert(trim_end_at(s, j, e) == e);
    assert(s.subrange(j, e) == l);
    assert(newline_end(s, e) == Some(e + 1));
}

/// The lines from index `k` on read back as themselves, up to a position
/// that is the end or holds a newline.
proof fn lemma_block_lines(s: Seq<char>, j: int, ls: Seq<Seq<char>>, k: int)
    requires
        0 <= k <= ls.len(),
        0 <= j,
        forall|m: int| 0 <= m < ls.len() ==> line_ok(#[trigger] ls[m]),
        lit_at(s, j, lines_text(ls, k)),
        j + lines_text(ls, k).len() == s.len() || s[j + lines_text(ls, k).len()] == '\n',
    ensures
        block_lines_from(s, j) == (ls.subrange(k, ls.len() as int), j + lines_text(ls, k).len()),
    decreases ls.len() - k,
{
    if k < ls.len() {
        let l = ls[k];
        assert(line_ok(l));
        assert(lines_text(ls, k) == (l + seq!['\n']) + lines_text(ls, k + 1));
        lemma_lit_split(s, j, l + seq!['\n'], lines_text(ls, k + 1));
        lemma_block_line(s, j, l);
        lemma_block_lines(s, j + l.len() + 1, ls, k + 1);
        assert(ls.subrange(k, ls.len() as int) =~= seq![l] + ls.subrange(k + 1, ls.len() as int));
    } else {
        assert(lines_text(ls, k) =~= Seq::<char>::empty());
        lemma_run_to(s, j, j, Class::Ws);
        lemma_run_to(s, j, j, Class::NotNl);
        assert(block_line_at(s, j) is None);
        assert(ls.subrange(k, ls.len() as int) =~= Seq::<Seq<char>>::empty());
    }
}

pub proof fn lemma_multiline(s: Seq<char>, j: int, ls: Seq<Seq<char>>)
    requires
        ls.len() > 0,
        0 <= j,
        forall|m: int| 0 <= m < ls.len() ==> line_ok(#[trigger] ls[m]),
        lit_at(s, j, lines_text(ls, 0)),
        j + lines_text(ls, 0).len() == s.len() || s[j + lines_text(ls, 0).len()] == '\n',
    ensures
        multiline_at(s, j) == Some((ls, j + lines_text(ls, 0).len())),
        !is_blank(s[j]),
{
    let l = ls[0];
    assert(line_ok(l));
    assert(lines_text(ls, 0) == (l + seq!['\n']) + lines_text(ls, 1));
    lemma_lit_split(s, j, l + seq!['\n'], lines_text(ls, 1));
    lemma_block_line(s, j, l);
    lemma_lit_split(s, j, l, seq!['\n']);
    lemma_lit_index(s, j, l, 0);
    lemma_block_lines(s, j, ls, 0);
    assert(ls.subrange(0, ls.len() as int) =~= ls);
}

/// The text of an entry, followed by the end or a newline, reads back as
/// the entry.
proof fn lemma_subtitle(s: Seq<char>, i: int, e: SubtitleView)
    requires
        subtitle_ok(e),
        0 <= i,
        lit_at(s, i, subtitle_text(e)),
        i + subtitle_text(e).len() == s.len() || s[i + subtitle_text(e).len()] == '\n',
    ensures
        subtitle_at(s, i) == Some((e, i + subtitle_text(e).len())),
        is_digit(s[i]),
{
    reveal(subtitle_at);
    let n = dec(e.sequence as nat);
    let ts = timestamp_text(e.start);
    let te = timestamp_text(e.end);
    let arrow = seq![' ', '-', '-', '>', ' '];
    let body = body_text(e.text);
    lemma_dec(e.sequence as nat);
    lemma_timestamp_text_len(e.start);
    lemma_timestamp_text_len(e.end);
    assert(body == lines_text(e.text, 0));
    assert(subtitle_text(e) == n + (seq!['\n'] + (ts + (arrow + (te + (seq!['\n'] + body))))));
    let a = i + n.len();
    let b = a + 1;
    let c = b + 12;
    let d = c + 5;
    let f = d + 12;
    let g = f + 1;
    lemma_lit_split(s, i, n, seq!['\n'] + (ts + (arrow + (te + (seq!['\n'] + body)))));
    lemma_lit_split(s, a, seq!['\n'], ts + (arrow + (te + (seq!['\n'] + body))));
    lemma_lit_split(s, b, ts, arrow + (te + (seq!['\n'] + body)));
    lemma_lit_split(s, c, arrow, te + (seq!['\n'] + body));
    lemma_lit_split(s, d, te, seq!['\n'] + body);
    lemma_lit_split(s, f, seq!['\n'], body);
    lemma_lit_index(s, a, seq!['\n'], 0);
    lemma_lit_index(s, f, seq!['\n'], 0);
    lemma_lit_index(s, i, n, 0);
    assert(is_digit(n[0]));
    assert forall|k: int| 0 <= k < 5 implies s[c + k] == arrow[k] by {
        lemma_lit_index(s, c, arrow, k);
    }
    // sequence number
    lemma_number_of_dec(s, i, e.sequence);
    // start timestamp
    lemma_timestamp_of_text(s, b, e.start);
    assert(newline_end(s, a) == Some(b));
    assert(newline_end(s, b) is None);
    lemma_run_to(s, a, b, Class::Blank);
    lemma_single_char_breaks(s, a);
    assert(separator_at(s, a) == Some(b));
    // arrow
    assert(newline_end(s, c) is None);
    lemma_run_to(s, c, c + 1, Class::Blank);
    lemma_single_char_breaks(s, c);
    assert(opt_separator(s, c) == c + 1);
    assert(s.subrange(c + 1, c + 4) =~= seq!['-', '-', '>']);
    assert(lit_at(s, c + 1, seq!['-', '-', '>']));
    lemma_timestamp_of_text(s, d, e.end);
    assert(newline_end(s, c + 4) is None);
    lemma_run_to(s, c + 4, d, Class::Blank);
    lemma_single_char_breaks(s, c + 4);
    assert(opt_separator(s, c + 4) == d);
    // payload
    lemma_multiline(s, g, e.text);
    assert(newline_end(s, f) == Some(g));
    assert(newline_end(s, g) is None);
    lemma_run_to(s, f, g, Class::Blank);
    lemma_single_char_breaks(s, f);
    assert(separator_at(s, f) == Some(g));
}

#[verifier::rlimit(50)]
proof fn lemma_entries_after(s: Seq<char>, i: int, es: Seq<SubtitleView>, k: int)
    requires
        1 <= k <= es.len(),
        0 <= i,
        forall|m: int| 0 <= m < es.len() ==> subtitle_ok(#[trigger] es[m]),
        lit_at(s, i, tail_text(es, k)),
        i + tail_text(es, k).len() == s.len(),
    ensures
        entries_after(s, i) == (es.subrange(k, es.len() as int), s.len() as int),
    decreases es.len() - k,
{
    if k < es.len() {
        let e = es[k];
        assert(subtitle_ok(e));
        assert(tail_text(es, k) == seq!['\n'] + (subtitle_text(e) + tail_text(es, k + 1)));
        lemma_lit_split(s, i, seq!['\n'], subtitle_text(e) + tail_text(es, k + 1));
        lemma_lit_split(s, i + 1, subtitle_text(e), tail_text(es, k + 1));
        lemma_lit_index(s, i, seq!['\n'], 0);
        let j = i + 1 + subtitle_text(e).len();
        if k + 1 < es.len() {
            assert(tail_text(es, k + 1) == seq!['\n'] + (subtitle_text(es[k + 1]) + tail_text(es, k + 2)));
            lemma_lit_index(s, j, tail_text(es, k + 1), 0);
        } else {
            assert(tail_text(es, k + 1) =~= Seq::<char>::empty());
        }
        lemma_subtitle(s, i + 1, e);
        lemma_run_to(s, i, i + 1, Class::Nl);
        lemma_entries_after(s, j, es, k + 1);
        assert(es.subrange(k, es.len() as int) =~= seq![e] + es.subrange(k + 1, es.len() as int));
    } else {
        assert(tail_text(es, k) =~= Seq::<char>::empty());
        lemma_run_to(s, i, i, Class::Nl);
        assert(es.subrange(k, es.len() as int) =~= Seq::<SubtitleView>::empty());
    }
}

/// The entries of the rendering of a document with at least one entry.
#[verifier::rlimit(50)]
proof fn lemma_entries_from_start(es: Seq<SubtitleView>)
    requires
        forall|m: int| 0 <= m < es.len() ==> subtitle_ok(#[trigger] es[m]),
        es.len() > 0,
    ensures
        entries_at(document_text(es), 0) == (es, document_text(es).len() as int),
        !is_blank(document_text(es)[0]),
{
    let s = document_text(es);
    let e = es[0];
    assert(subtitle_ok(e));
    assert(s.subrange(0, s.len() as int) =~= s);
    lemma_lit_split(s, 0, subtitle_text(e), tail_text(es, 1));
    let k = subtitle_text(e).len() as int;
    if es.len() > 1 {
        assert(tail_text(es, 1) == seq!['\n'] + (subtitle_text(es[1]) + tail_text(es, 2)));
        lemma_lit_index(s, k, tail_text(es, 1), 0);
    } else {
        assert(tail_text(es, 1) =~= Seq::<char>::empty());
    }
    lemma_subtitle(s, 0, e);
    lemma_entries_after(s, k, es, 1);
    assert(es =~= seq![e] + es.subrange(1, es.len() as int));
}

/// Round trip: a document with at least one entry, whose entries are all
/// well-formed, is parsed back, from its rendering, to exactly its own
/// entries.
pub proof fn lemma_srt_round_trip(es: Seq<SubtitleView>)
    requires
        es.len() > 0,
        forall|m: int| 0 <= m < es.len() ==> subtitle_ok(#[trigger] es[m]),
    ensures
        srt_doc(document_text(es)) == Some(es),
{
    let s = document_text(es);
    lemma_entries_from_start(es);
    lemma_run_to(s, 0, 0, Class::Blank);
    lemma_run_to(s, s.len() as int, s.len() as int, Class::Blank);
}

/// Rendering, parsing and rendering again gives the first rendering, for a
/// document with at least one entry, whose entries are all well-formed.
pub proof fn lemma_srt_render_idempotent(es: Seq<SubtitleView>)
    requires
        es.len() > 0,
        forall|m: int| 0 <= m < es.len() ==> subtitle_ok(#[trigger] es[m]),
    ensures
        srt_doc(document_text(es)) is Some,
        document_text(srt_doc(document_text(es))->0) == document_text(es),
{
    lemma_srt_round_trip(es);
}

} // verus!

verus! {

proof fn lemma_trim_start(s: Seq<char>, i: int, j: int)
    requires
        i <= j,
    ensures
        i <= trim_start_at(s, i, j) <= j,
        trim_start_at(s, i, j) < j ==> !is_unicode_ws(s[trim_start_at(s, i, j)]),
    decreases j - i,
{
    if i < j && is_unicode_ws(s[i]) {
        lemma_trim_start(s, i + 1, j);
    }
}

proof fn lemma_trim_end(s: Seq<char>, i: int, j: int)
    requires
        i <= j,
    ensures
        i <= trim_end_at(s, i, j) <= j,
        trim_end_at(s, i, j) > i ==> !is_unicode_ws(s[trim_end_at(s, i, j) - 1]),
    decreases j - i,
{
    if i < j && is_unicode_ws(s[j - 1]) {
        lemma_trim_end(s, i, j - 1);
    }
}

/// A trimmed piece of a line holds no newline and no surrounding whitespace.
proof fn lemma_trimmed(s: Seq<char>, i: int, j: int)
    requires
        0 <= i <= j <= s.len(),
        forall|m: int| i <= m < j ==> !is_nl(#[trigger] s[m]),
    ensures
        is_trimmed(trimmed(s, i, j)),
        forall|m: int| 0 <= m < trimmed(s, i, j).len() ==> !is_nl(#[trigger] trimmed(s, i, j)[m]),
{
    let a = trim_start_at(s, i, j);
    lemma_trim_start(s, i, j);
    lemma_trim_end(s, a, j);
    let b = trim_end_at(s, a, j);
    let t = s.subrange(a, b);
    assert forall|m: int| 0 <= m < t.len() implies !is_nl(#[trigger] t[m]) by {
        assert(t[m] == s[a + m]);
    }
}

proof fn lemma_block_line_parsed(s: Seq<char>, j: int)
    requires
        0 <= j <= s.len(),
        block_line_at(s, j) is Some,
    ensures
        match block_line_at(s, j) {
            Some((t, _)) => line_ok(t),
            None => true,
        },
{
    let e = run_end(s, j, Class::NotNl);
    crate::general::lemma_run_end(s, j, Class::NotNl);
    lemma_trimmed(s, j, e);
}

proof fn lemma_block_lines_parsed(s: Seq<char>, j: int)
    requires
        0 <= j <= s.len(),
    ensures
        forall|k: int| 0 <= k < block_lines_from(s, j).0.len() ==> line_ok(#[trigger] block_lines_from(s, j).0[k]),
    decreases s.len() - j,
{
    match block_line_at(s, j) {
        Some((t, f)) => if j < f <= s.len() {
            lemma_block_line_parsed(s, j);
            lemma_block_lines_parsed(s, f);
            let rest = block_lines_from(s, f).0;
            assert(block_lines_from(s, j).0 == seq![t] + rest);
            assert forall|k: int| 0 <= k < block_lines_from(s, j).0.len() implies line_ok(#[trigger] block_lines_from(s, j).0[k]) by {
                if k > 0 {
                    assert(block_lines_from(s, j).0[k] == rest[k - 1]);
                }
            }
        },
        None => {},
    }
}

proof fn lemma_two_digits_small(s: Seq<char>, i: int)
    requires
        two_number_at(s, i) is Some,
    ensures
        match two_number_at(s, i) {
            Some((v, _)) => v < 100,
            None => true,
        },
{
    crate::text::lemma_digits_value_lt(s.subrange(i, i + 2));
    reveal_with_fuel(crate::text::pow10, 3);
}

proof fn lemma_three_digits_small(s: Seq<char>, i: int)
    requires
        three_number_at(s, i) is Some,
    ensures
        match three_number_at(s, i) {
            Some((v, _)) => v < 1000,
            None => true,
        },
{
    crate::text::lemma_digits_value_lt(s.subrange(i, i + 3));
    reveal_with_fuel(crate::text::pow10, 4);
}

proof fn lemma_timestamp_parsed(s: Seq<char>, i: int)
    requires
        timestamp_at(s, i) is Some,
    ensures
        match timestamp_at(s, i) {
            Some((t, _)) => timestamp_ok(t),
            None => true,
        },
{
    let a = i + 2;
    lemma_two_digits_small(s, i);
    lemma_two_digits_small(s, a + 1);
    lemma_two_digits_small(s, a + 4);
    lemma_three_digits_small(s, a + 7);
}

proof fn lemma_subtitle_parsed(s: Seq<char>, i: int)
    requires
        0 <= i <= s.len(),
        subtitle_at(s, i) is Some,
    ensures
        match subtitle_at(s, i) {
            Some((e, k)) => subtitle_ok(e) && i <= k <= s.len(),
            None => true,
        },
{
    reveal(subtitle_at);
    let (n, a) = number_at(s, i)->0;
    let b = separator_at(s, a)->0;
    let c = match timestamp_at(s, b) {
        Some((_, c)) => c,
        None => 0,
    };
    lemma_timestamp_parsed(s, b);
    let c2 = opt_separator(s, c);
    let d = opt_separator(s, c2 + 3);
    let e = match timestamp_at(s, d) {
        Some((_, e)) => e,
        None => 0,
    };
    lemma_timestamp_parsed(s, d);
    let f = separator_at(s, e)->0;
    assert(0 <= f <= s.len()) by {
        crate::general::lemma_run_end(s, e, Class::Blank);
    }
    crate::general::lemma_run_end(s, i, Class::Digit);
    crate::general::lemma_run_end(s, a, Class::Blank);
    lemma_block_lines_parsed(s, f);
    lemma_block_lines_bounds(s, f);
    let ls = block_lines_from(s, f).0;
    match block_line_at(s, f) {
        Some((t, g)) => {
            assert(0 <= g <= s.len()) by {
                crate::general::lemma_run_end(s, f, Class::NotNl);
            }
            assert(ls.len() > 0);
        },
        None => {},
    }
}

proof fn lemma_block_lines_bounds(s: Seq<char>, j: int)
    requires
        0 <= j <= s.len(),
    ensures
        j <= block_lines_from(s, j).1 <= s.len(),
    decreases s.len() - j,
{
    match block_line_at(s, j) {
        Some((t, f)) => if j < f <= s.len() {
            lemma_block_lines_bounds(s, f);
        },
        None => {},
    }
}

proof fn lemma_entries_after_parsed(s: Seq<char>, i: int)
    requires
        0 <= i <= s.len(),
    ensures
        forall|k: int| 0 <= k < entries_after(s, i).0.len() ==> subtitle_ok(#[trigger] entries_after(s, i).0[k]),
    decreases s.len() - i,
{
    let j = run_end(s, i, Class::Nl);
    crate::general::lemma_run_end(s, i, Class::Nl);
    if j > i {
        match subtitle_at(s, j) {
            Some((e, k)) => if i < k <= s.len() {
                lemma_subtitle_parsed(s, j);
                lemma_entries_after_parsed(s, k);
                let rest = entries_after(s, k).0;
                assert forall|m: int| 0 <= m < entries_after(s, i).0.len() implies subtitle_ok(#[trigger] entries_after(s, i).0[m]) by {
                    if m > 0 {
                        assert(entries_after(s, i).0[m] == rest[m - 1]);
                    }
                }
            },
            None => {},
        }
    }
}

/// Every entry that parsing gives has its fields in range, its text lines
/// trimmed and free of newlines, and at least one line.
pub proof fn lemma_parsed_entries(s: Seq<char>)
    requires
        srt_doc(s) is Some,
    ensures
        forall|k: int| 0 <= k < srt_doc(s)->0.len() ==> subtitle_ok(#[trigger] srt_doc(s)->0[k]),
{
    let a = run_end(s, 0, Class::Blank);
    crate::general::lemma_run_end(s, 0, Class::Blank);
    match subtitle_at(s, a) {
        Some((e, k)) => {
            lemma_subtitle_parsed(s, a);
            lemma_entries_after_parsed(s, k);
            let rest = entries_after(s, k).0;
            assert(srt_doc(s)->0 == seq![e] + rest);
            assert forall|m: int| 0 <= m < srt_doc(s)->0.len() implies subtitle_ok(#[trigger] srt_doc(s)->0[m]) by {
                if m > 0 {
                    assert(srt_doc(s)->0[m] == rest[m - 1]);
                }
            }
        },
        None => {},
    }
}

/// Round trip from text: when parsing some text gives a document, rendering
/// that document and parsing again gives the same document.
pub proof fn lemma_srt_parse_render_parse(s: Seq<char>)
    requires
        srt_doc(s) is Some,
    ensures
        srt_doc(document_text(srt_doc(s)->0)) == srt_doc(s),
{
    lemma_parsed_entries(s);
    lemma_srt_round_trip(srt_doc(s)->0);
}

/// Rendering a parsed document, parsing it and rendering again gives the
/// first rendering.
pub proof fn lemma_srt_parse_render_idempotent(s: Seq<char>)
    requires
        srt_doc(s) is Some,
    ensures
        srt_doc(document_text(srt_doc(s)->0)) is Some,
        document_text(srt_doc(document_text(srt_doc(s)->0))->0) == document_text(srt_doc(s)->0),
{
    lemma_srt_parse_render_parse(s);
}

} // verus!
