//! Reading back what was rendered, for WebVTT documents whose blocks are cues
//! without settings and comments.
use vstd::prelude::*;
use crate::general::{run_end, text_lines_end, text_block_at, in_class, line_at, lit_at, lit_end, newline_end, Class};
use crate::srt::{body_text, lines_text};
use crate::srt_round_trip::{lemma_dec2, lemma_dec3, lemma_lit_index, lemma_lit_split, lemma_multiline, lemma_run_to, lemma_three_of_dec3, lemma_two_of_dec2, line_ok};
use crate::text::{is_ws, dec2, dec3, is_blank, is_digit, is_nl, is_trimmed, trim_end_at, trim_start_at};
use crate::vtt::{header_text, comment_text, NoteView, block_text, blocks_tail_text, que_text, timings_text, vtt_text, vtt_timestamp_text, BlockView, QueView, VttTimestamp, VttTimings};
use crate::vtt_parser::{joined_from, block_at, blocks_after, blocks_at, comment_at, cue_at, cue_rest_at, header_at, region_at, style_at, timestamp_at, timings_at, vtt_doc};

verus! {

pub open spec fn vtt_timestamp_ok(t: VttTimestamp) -> bool {
    t.hours < 100 && t.minutes < 100 && t.seconds < 100 && t.milliseconds < 1000
}

/// A cue that reads back as itself: no settings, an identifier (if any) and
/// payload lines that are trimmed, non-empty and free of newlines, and a
/// first payload line that does not start with a digit.
pub open spec fn simple_cue_ok(q: QueView) -> bool {
    &&& q.settings is None
    &&& vtt_timestamp_ok(q.timings.start)
    &&& vtt_timestamp_ok(q.timings.end)
    &&& q.payload.len() > 0
    &&& forall|k: int| 0 <= k < q.payload.len() ==> line_ok(#[trigger] q.payload[k])
    &&& !is_digit(q.payload[0][0])
    &&& (q.identifier matches Some(id) ==> line_ok(id))
}

proof fn lemma_vtt_timestamp(s: Seq<char>, i: int, t: VttTimestamp)
    requires
        vtt_timestamp_ok(t),
        lit_at(s, i, vtt_timestamp_text(t)),
    ensures
        timestamp_at(s, i) == Some((t, i + 12)),
        vtt_timestamp_text(t).len() == 12,
        is_digit(s[i]),
{
    let h = dec2(t.hours as nat);
    let m = dec2(t.minutes as nat);
    let sc = dec2(t.seconds as nat);
    let ms = dec3(t.milliseconds as nat);
    lemma_dec2(t.hours as nat);
    lemma_dec2(t.minutes as nat);
    lemma_dec2(t.seconds as nat);
    lemma_dec3(t.milliseconds as nat);
    assert(vtt_timestamp_text(t) == h + (seq![':'] + (m + (seq![':'] + (sc + (seq!['.'] + ms))))));
    lemma_lit_split(s, i, h, seq![':'] + (m + (seq![':'] + (sc + (seq!['.'] + ms)))));
    lemma_lit_split(s, i + 2, seq![':'], m + (seq![':'] + (sc + (seq!['.'] + ms))));
    lemma_lit_split(s, i + 3, m, seq![':'] + (sc + (seq!['.'] + ms)));
    lemma_lit_split(s, i + 5, seq![':'], sc + (seq!['.'] + ms));
    lemma_lit_split(s, i + 6, sc, seq!['.'] + ms);
    lemma_lit_split(s, i + 8, seq!['.'], ms);
    lemma_lit_index(s, i + 2, seq![':'], 0);
    lemma_lit_index(s, i + 5, seq![':'], 0);
    lemma_lit_index(s, i + 8, seq!['.'], 0);
    lemma_lit_index(s, i, h, 0);
    lemma_two_of_dec2(s, i, t.hours);
    lemma_two_of_dec2(s, i + 3, t.minutes);
    lemma_two_of_dec2(s, i + 6, t.seconds);
    lemma_three_of_dec3(s, i + 9, t.milliseconds);
}

proof fn lemma_timings(s: Seq<char>, i: int, t: VttTimings)
    requires
        vtt_timestamp_ok(t.start),
        vtt_timestamp_ok(t.end),
        lit_at(s, i, timings_text(t)),
    ensures
        timings_at(s, i) == Some((t, i + 29)),
        timings_text(t).len() == 29,
        is_digit(s[i]),
{
    let a = vtt_timestamp_text(t.start);
    let arrow = seq![' ', '-', '-', '>', ' '];
    let b = vtt_timestamp_text(t.end);
    assert(timings_text(t) =~= a + (arrow + b));
    lemma_lit_split(s, i, a, arrow + b);
    lemma_vtt_timestamp(s, i, t.start);
    lemma_lit_split(s, i + 12, arrow, b);
    lemma_vtt_timestamp(s, i + 17, t.end);
    assert forall|k: int| 0 <= k < 5 implies s[i + 12 + k] == arrow[k] by {
        lemma_lit_index(s, i + 12, arrow, k);
    }
    lemma_run_to(s, i + 12, i + 13, Class::Ws);
    assert(s.subrange(i + 13, i + 16) =~= "-->"@) by {
        reveal_strlit("-->");
    }
    assert(lit_end(s, i + 13, "-->"@) == Some(i + 16)) by {
        reveal_strlit("-->");
    }
    lemma_run_to(s, i + 16, i + 17, Class::Ws);
}

/// The timings line and the payload of a cue, from `i`.
proof fn lemma_cue_rest(s: Seq<char>, i: int, q: QueView)
    requires
        simple_cue_ok(q),
        0 <= i,
        lit_at(s, i, timings_text(q.timings) + seq!['\n'] + body_text(q.payload)),
        i + 30 + body_text(q.payload).len() == s.len() || s[i + 30 + body_text(q.payload).len()] == '\n',
    ensures
        cue_rest_at(s, i, q.identifier, false) == Some((q, i + 30 + body_text(q.payload).len())),
        cue_rest_at(s, i, q.identifier, true) is None,
        is_digit(s[i]),
{
    let body = body_text(q.payload);
    assert(body == lines_text(q.payload, 0));
    lemma_lit_split(s, i, timings_text(q.timings) + seq!['\n'], body);
    lemma_lit_split(s, i, timings_text(q.timings), seq!['\n']);
    lemma_timings(s, i, q.timings);
    lemma_lit_index(s, i + 29, seq!['\n'], 0);
    lemma_run_to(s, i, i, Class::Ws);
    lemma_run_to(s, i + 29, i + 29, Class::Ws);
    assert(newline_end(s, i + 29) == Some(i + 30));
    assert(line_ok(q.payload[0]));
    assert(lines_text(q.payload, 0) == (q.payload[0] + seq!['\n']) + lines_text(q.payload, 1));
    lemma_lit_split(s, i + 30, q.payload[0] + seq!['\n'], lines_text(q.payload, 1));
    lemma_lit_split(s, i + 30, q.payload[0], seq!['\n']);
    lemma_lit_index(s, i + 30, q.payload[0], 0);
    lemma_run_to(s, i + 30, i + 30, Class::Ws);
    lemma_multiline(s, i + 30, q.payload);
}

proof fn lemma_cue_with_id(s: Seq<char>, i: int, q: QueView, id: Seq<char>)
    requires
        simple_cue_ok(q),
        q.identifier == Some(id),
        0 <= i,
        lit_at(s, i, que_text(q)),
        i + que_text(q).len() == s.len() || s[i + que_text(q).len()] == '\n',
    ensures
        cue_at(s, i) == Some((q, i + que_text(q).len())),
        !is_blank(s[i]),
{
    let rest = timings_text(q.timings) + seq!['\n'] + body_text(q.payload);
    lemma_timings_len(q.timings);
    assert(line_ok(id));
    assert(que_text(q) =~= (id + seq!['\n']) + rest);
    lemma_lit_split(s, i, id + seq!['\n'], rest);
    lemma_lit_split(s, i, id, seq!['\n']);
    lemma_lit_index(s, i, id, 0);
    lemma_run_to(s, i, i, Class::Ws);
    lemma_line(s, i, id);
    lemma_cue_rest(s, i + id.len() + 1, q);
}

#[verifier::rlimit(50)]
proof fn lemma_cue_without_id(s: Seq<char>, i: int, q: QueView)
    requires
        simple_cue_ok(q),
        q.identifier is None,
        0 <= i,
        lit_at(s, i, que_text(q)),
        i + que_text(q).len() == s.len() || s[i + que_text(q).len()] == '\n',
    ensures
        cue_at(s, i) == Some((q, i + que_text(q).len())),
        !is_blank(s[i]),
{
    let rest = timings_text(q.timings) + seq!['\n'] + body_text(q.payload);
    lemma_timings_len(q.timings);
    assert(que_text(q) =~= rest);
    lemma_cue_rest(s, i, q);
    lemma_run_to(s, i, i, Class::Ws);
    lemma_lit_split(s, i, timings_text(q.timings) + seq!['\n'], body_text(q.payload));
    lemma_lit_split(s, i, timings_text(q.timings), seq!['\n']);
    lemma_timings_line(q.timings);
    lemma_line(s, i, timings_text(q.timings));
    // The timings line read as an identifier is followed by the payload,
    // which does not start with a timestamp.
    let b = i + 30;
    assert(body_text(q.payload) == lines_text(q.payload, 0));
    assert(lines_text(q.payload, 0) == (q.payload[0] + seq!['\n']) + lines_text(q.payload, 1));
    lemma_lit_split(s, b, q.payload[0] + seq!['\n'], lines_text(q.payload, 1));
    lemma_lit_split(s, b, q.payload[0], seq!['\n']);
    lemma_lit_index(s, b, q.payload[0], 0);
    assert(line_ok(q.payload[0]));
    lemma_run_to(s, b, b, Class::Ws);
    assert(timestamp_at(s, b) is None);
    assert(timings_at(s, b) is None);
}

/// The timings line holds no newline and no surrounding whitespace.
proof fn lemma_timings_line(t: VttTimings)
    requires
        vtt_timestamp_ok(t.start),
        vtt_timestamp_ok(t.end),
    ensures
        is_trimmed(timings_text(t)),
        forall|k: int| 0 <= k < timings_text(t).len() ==> !is_nl(#[trigger] timings_text(t)[k]),
        is_digit(timings_text(t)[0]),
{
    lemma_timings_len(t);
    let a = vtt_timestamp_text(t.start);
    let b = vtt_timestamp_text(t.end);
    lemma_dec2(t.start.hours as nat);
    lemma_dec2(t.start.minutes as nat);
    lemma_dec2(t.start.seconds as nat);
    lemma_dec3(t.start.milliseconds as nat);
    lemma_dec2(t.end.hours as nat);
    lemma_dec2(t.end.minutes as nat);
    lemma_dec2(t.end.seconds as nat);
    lemma_dec3(t.end.milliseconds as nat);
    assert(timings_text(t)[0] == dec2(t.start.hours as nat)[0]);
    assert(timings_text(t)[28] == dec3(t.end.milliseconds as nat)[2]);
    assert forall|k: int| 0 <= k < timings_text(t).len() implies !is_nl(#[trigger] timings_text(t)[k]) by {
        if k < 2 {
            assert(timings_text(t)[k] == dec2(t.start.hours as nat)[k]);
        } else if 3 <= k < 5 {
            assert(timings_text(t)[k] == dec2(t.start.minutes as nat)[k - 3]);
        } else if 6 <= k < 8 {
            assert(timings_text(t)[k] == dec2(t.start.seconds as nat)[k - 6]);
        } else if 9 <= k < 12 {
            assert(timings_text(t)[k] == dec3(t.start.milliseconds as nat)[k - 9]);
        } else if 17 <= k < 19 {
            assert(timings_text(t)[k] == dec2(t.end.hours as nat)[k - 17]);
        } else if 20 <= k < 22 {
            assert(timings_text(t)[k] == dec2(t.end.minutes as nat)[k - 20]);
        } else if 23 <= k < 25 {
            assert(timings_text(t)[k] == dec2(t.end.seconds as nat)[k - 23]);
        } else if 26 <= k < 29 {
            assert(timings_text(t)[k] == dec3(t.end.milliseconds as nat)[k - 26]);
        }
    }
}

proof fn lemma_timings_len(t: VttTimings)
    requires
        vtt_timestamp_ok(t.start),
        vtt_timestamp_ok(t.end),
    ensures
        timings_text(t).len() == 29,
{
    lemma_dec2(t.start.hours as nat);
    lemma_dec2(t.start.minutes as nat);
    lemma_dec2(t.start.seconds as nat);
    lemma_dec3(t.start.milliseconds as nat);
    lemma_dec2(t.end.hours as nat);
    lemma_dec2(t.end.minutes as nat);
    lemma_dec2(t.end.seconds as nat);
    lemma_dec3(t.end.milliseconds as nat);
}

/// A line that holds no newline, followed by one, reads as itself.
proof fn lemma_line(s: Seq<char>, i: int, l: Seq<char>)
    requires
        l.len() > 0,
        is_trimmed(l),
        forall|k: int| 0 <= k < l.len() ==> !is_nl(#[trigger] l[k]),
        0 <= i,
        lit_at(s, i, l + seq!['\n']),
    ensures
        line_at(s, i) == Some((l, i + l.len() + 1)),
{
    lemma_lit_split(s, i, l, seq!['\n']);
    lemma_lit_index(s, i + l.len(), seq!['\n'], 0);
    let e = i + l.len();
    assert forall|m: int| i <= m < e implies in_class(#[trigger] s[m], Class::NotNl) by {
        lemma_lit_index(s, i, l, m - i);
    }
    lemma_run_to(s, i, e, Class::NotNl);
    lemma_lit_index(s, i, l, 0);
    lemma_lit_index(s, i, l, l.len() - 1);
    assert(trim_start_at(s, i, e) == i);
    assert(trim_end_at(s, i, e) == e);
    assert(s.subrange(i, e) == l);
}

/// Lines of a comment that read back as themselves: one or more, each
/// trimmed, non-empty, free of newlines, and not starting with a digit.
pub open spec fn comment_lines_ok(ls: Seq<Seq<char>>) -> bool {
    &&& ls.len() > 0
    &&& forall|k: int| 0 <= k < ls.len() ==> line_ok(#[trigger] ls[k]) && !is_digit(ls[k][0])
}

/// A comment whose text is such lines joined by newlines.
pub open spec fn comment_text_ok(t: Seq<char>) -> bool {
    exists|ls: Seq<Seq<char>>| comment_lines_ok(ls) && #[trigger] joined_from(ls, 0) == t
}

/// A block that reads back as itself: a cue as in `simple_cue_ok`, or a
/// comment, on the keyword's line or below it, made of lines as in
/// `comment_lines_ok`.
pub open spec fn simple_block_ok(b: BlockView) -> bool {
    match b {
        BlockView::Que(q) => simple_cue_ok(q),
        BlockView::Comment(NoteView::Side(t)) => comment_text_ok(t),
        BlockView::Comment(NoteView::Below(t)) => comment_text_ok(t),
        _ => false,
    }
}

/// Every block reads back as itself.
pub open spec fn simple_blocks_ok(bs: Seq<BlockView>) -> bool {
    forall|k: int| 0 <= k < bs.len() ==> simple_block_ok(#[trigger] bs[k])
}

proof fn lemma_joined_tail(ls: Seq<Seq<char>>, k: int)
    requires
        1 <= k <= ls.len(),
    ensures
        joined_from(ls, k) + seq!['\n'] == seq!['\n'] + lines_text(ls, k),
    decreases ls.len() - k,
{
    if k < ls.len() {
        lemma_joined_tail(ls, k + 1);
        assert(joined_from(ls, k) + seq!['\n'] =~= seq!['\n'] + ls[k] + (joined_from(ls, k + 1) + seq!['\n']));
        assert(seq!['\n'] + lines_text(ls, k) =~= seq!['\n'] + ls[k] + (seq!['\n'] + lines_text(ls, k + 1)));
    } else {
        assert(joined_from(ls, k) =~= Seq::<char>::empty());
        assert(lines_text(ls, k) =~= Seq::<char>::empty());
    }
}

/// Lines joined by newlines, with a final newline, are the lines each
/// followed by a newline.
proof fn lemma_joined_lines(ls: Seq<Seq<char>>)
    requires
        ls.len() > 0,
    ensures
        joined_from(ls, 0) + seq!['\n'] == lines_text(ls, 0),
{
    lemma_joined_tail(ls, 1);
    assert(joined_from(ls, 0) + seq!['\n'] =~= ls[0] + (joined_from(ls, 1) + seq!['\n']));
    assert(lines_text(ls, 0) =~= ls[0] + (seq!['\n'] + lines_text(ls, 1)));
}

/// Neither a timestamp nor a cue identifier line followed by timings starts
/// at `i`, where a keyword line `l` stands and is followed by a comment
/// line, a newline or the end.
#[verifier::rlimit(50)]
proof fn lemma_keyword_no_cue(s: Seq<char>, i: int, l: Seq<char>, ls: Seq<Seq<char>>)
    requires
        0 <= i,
        l.len() > 0,
        l[0] == 'N',
        is_trimmed(l),
        forall|m: int| 0 <= m < l.len() ==> !is_nl(#[trigger] l[m]),
        lit_at(s, i, l + seq!['\n']),
        comment_lines_ok(ls),
        i + l.len() + 1 == s.len() || s[i + l.len() + 1] == '\n' || s[i + l.len() + 1] == ls[0][0]
            || (exists|k: int| 0 <= k < ls.len() && s[i + l.len() + 1] == #[trigger] ls[k][0]),
    ensures
        cue_at(s, i) is None,
{
    lemma_line(s, i, l);
    lemma_lit_split(s, i, l, seq!['\n']);
    lemma_lit_index(s, i, l, 0);
    let e = i + l.len() + 1;
    if e < s.len() && s[e] != '\n' {
        let k = choose|k: int| 0 <= k < ls.len() && s[e] == #[trigger] ls[k][0];
        if s[e] == ls[0][0] {
            assert(line_ok(ls[0]) && !is_digit(ls[0][0]));
        } else {
            assert(line_ok(ls[k]) && !is_digit(ls[k][0]));
        }
        assert(!is_ws(s[e]));
    }
    lemma_run_to(s, i, i, Class::Ws);
    lemma_run_to(s, e, e, Class::Ws);
    assert(e + 2 > s.len() || !is_digit(s.subrange(e, e + 2)[0]));
    assert(timestamp_at(s, e) is None);
    assert(i + 2 > s.len() || !is_digit(s.subrange(i, i + 2)[0]));
    assert(timestamp_at(s, i) is None);
}

/// What follows a comment's first line: its second line, or else what
/// follows the comment.
proof fn lemma_after_first_line(s: Seq<char>, j: int, ls: Seq<Seq<char>>, end: int)
    requires
        0 <= j,
        comment_lines_ok(ls),
        lit_at(s, j, lines_text(ls, 0)),
        end == j + lines_text(ls, 0).len(),
        end == s.len() || s[end] == '\n',
    ensures
        j + ls[0].len() + 1 == s.len() || s[j + ls[0].len() + 1] == '\n'
            || (exists|k: int| 0 <= k < ls.len() && s[j + ls[0].len() + 1] == #[trigger] ls[k][0]),
        s[j] == ls[0][0],
{
    assert(line_ok(ls[0]));
    assert(lines_text(ls, 0) == (ls[0] + seq!['\n']) + lines_text(ls, 1));
    lemma_lit_split(s, j, ls[0] + seq!['\n'], lines_text(ls, 1));
    lemma_lit_split(s, j, ls[0], seq!['\n']);
    lemma_lit_index(s, j, ls[0], 0);
    let e = j + ls[0].len() + 1;
    if ls.len() > 1 {
        assert(line_ok(ls[1]));
        assert(lines_text(ls, 1) == (ls[1] + seq!['\n']) + lines_text(ls, 2));
        lemma_lit_split(s, e, ls[1] + seq!['\n'], lines_text(ls, 2));
        lemma_lit_split(s, e, ls[1], seq!['\n']);
        lemma_lit_index(s, e, ls[1], 0);
        assert(s[e] == ls[1][0]);
    } else {
        assert(lines_text(ls, 1) =~= Seq::<char>::empty());
    }
}

#[verifier::rlimit(50)]
proof fn lemma_side_comment(s: Seq<char>, i: int, ls: Seq<Seq<char>>)
    requires
        comment_lines_ok(ls),
        0 <= i,
        lit_at(s, i, comment_text(NoteView::Side(joined_from(ls, 0)))),
        i + comment_text(NoteView::Side(joined_from(ls, 0))).len() == s.len()
            || s[i + comment_text(NoteView::Side(joined_from(ls, 0))).len()] == '\n',
    ensures
        block_at(s, i) == Some((
            BlockView::Comment(NoteView::Side(joined_from(ls, 0))),
            i + comment_text(NoteView::Side(joined_from(ls, 0))).len(),
        )),
        !is_blank(s[i]),
{
    reveal(block_at);
    let t = joined_from(ls, 0);
    let kw = seq!['N', 'O', 'T', 'E', ' '];
    lemma_joined_lines(ls);
    let body = lines_text(ls, 0);
    assert(comment_text(NoteView::Side(t)) =~= kw + body);
    lemma_lit_split(s, i, kw, body);
    assert forall|k: int| 0 <= k < 5 implies s[i + k] == kw[k] by {
        lemma_lit_index(s, i, kw, k);
    }
    let end = i + 5 + body.len();
    lemma_after_first_line(s, i + 5, ls, end);
    assert(line_ok(ls[0]));
    let l = kw + ls[0];
    assert(l[0] == 'N');
    assert(l[l.len() - 1] == ls[0][ls[0].len() - 1]);
    assert forall|m: int| 0 <= m < l.len() implies !is_nl(#[trigger] l[m]) by {
        if m >= 5 {
            assert(l[m] == ls[0][m - 5]);
        }
    }
    assert(body == (ls[0] + seq!['\n']) + lines_text(ls, 1));
    lemma_lit_split(s, i + 5, ls[0] + seq!['\n'], lines_text(ls, 1));
    assert(s.subrange(i, i + l.len() + 1) =~= l + seq!['\n']);
    lemma_keyword_no_cue(s, i, l, ls);
    assert(s.subrange(i, i + 4) =~= "NOTE"@) by {
        reveal_strlit("NOTE");
    }
    assert(lit_end(s, i, "NOTE"@) == Some(i + 4)) by {
        reveal_strlit("NOTE");
    }
    assert(!is_ws(s[i + 5]));
    lemma_run_to(s, i + 4, i + 5, Class::Ws);
    lemma_multiline(s, i + 5, ls);
}

#[verifier::rlimit(50)]
proof fn lemma_below_comment(s: Seq<char>, i: int, ls: Seq<Seq<char>>)
    requires
        comment_lines_ok(ls),
        0 <= i,
        lit_at(s, i, comment_text(NoteView::Below(joined_from(ls, 0)))),
        i + comment_text(NoteView::Below(joined_from(ls, 0))).len() == s.len()
            || s[i + comment_text(NoteView::Below(joined_from(ls, 0))).len()] == '\n',
    ensures
        block_at(s, i) == Some((
            BlockView::Comment(NoteView::Below(joined_from(ls, 0))),
            i + comment_text(NoteView::Below(joined_from(ls, 0))).len(),
        )),
        !is_blank(s[i]),
{
    reveal(block_at);
    let t = joined_from(ls, 0);
    let kw = seq!['N', 'O', 'T', 'E', '\n'];
    lemma_joined_lines(ls);
    let body = lines_text(ls, 0);
    assert(comment_text(NoteView::Below(t)) =~= kw + body);
    lemma_lit_split(s, i, kw, body);
    assert forall|k: int| 0 <= k < 5 implies s[i + k] == kw[k] by {
        lemma_lit_index(s, i, kw, k);
    }
    let end = i + 5 + body.len();
    lemma_after_first_line(s, i + 5, ls, end);
    let l = seq!['N', 'O', 'T', 'E'];
    assert(s.subrange(i, i + 5) =~= l + seq!['\n']);
    assert(line_ok(ls[0]));
    assert(!is_digit(ls[0][0]));
    lemma_keyword_no_cue(s, i, l, ls);
    assert(s.subrange(i, i + 4) =~= "NOTE"@) by {
        reveal_strlit("NOTE");
    }
    assert(lit_end(s, i, "NOTE"@) == Some(i + 4)) by {
        reveal_strlit("NOTE");
    }
    lemma_run_to(s, i + 4, i + 4, Class::Ws);
    lemma_multiline(s, i + 5, ls);
}

proof fn lemma_block(s: Seq<char>, i: int, b: BlockView)
    requires
        simple_block_ok(b),
        0 <= i,
        lit_at(s, i, block_text(b)),
        i + block_text(b).len() == s.len() || s[i + block_text(b).len()] == '\n',
    ensures
        block_at(s, i) == Some((b, i + block_text(b).len())),
        !is_blank(s[i]),
{
    match b {
        BlockView::Que(q) => {
            reveal(block_at);
            match q.identifier {
                Some(id) => lemma_cue_with_id(s, i, q, id),
                None => lemma_cue_without_id(s, i, q),
            }
        },
        BlockView::Comment(NoteView::Side(t)) => {
            let ls = choose|ls: Seq<Seq<char>>| comment_lines_ok(ls) && #[trigger] joined_from(ls, 0) == t;
            lemma_side_comment(s, i, ls);
        },
        BlockView::Comment(NoteView::Below(t)) => {
            let ls = choose|ls: Seq<Seq<char>>| comment_lines_ok(ls) && #[trigger] joined_from(ls, 0) == t;
            lemma_below_comment(s, i, ls);
        },
        _ => {},
    }
}

#[verifier::rlimit(50)]
proof fn lemma_blocks_after(s: Seq<char>, i: int, bs: Seq<BlockView>, k: int)
    requires
        1 <= k <= bs.len(),
        0 <= i,
        simple_blocks_ok(bs),
        lit_at(s, i, blocks_tail_text(bs, k)),
        i + blocks_tail_text(bs, k).len() == s.len(),
    ensures
        blocks_after(s, i) == (bs.subrange(k, bs.len() as int), s.len() as int),
    decreases bs.len() - k,
{
    if k < bs.len() {
        let b = bs[k];
        assert(simple_block_ok(b));
        assert(blocks_tail_text(bs, k) == seq!['\n'] + (block_text(b) + blocks_tail_text(bs, k + 1)));
        lemma_lit_split(s, i, seq!['\n'], block_text(b) + blocks_tail_text(bs, k + 1));
        lemma_lit_split(s, i + 1, block_text(b), blocks_tail_text(bs, k + 1));
        lemma_lit_index(s, i, seq!['\n'], 0);
        let j = i + 1 + block_text(b).len();
        if k + 1 < bs.len() {
            assert(blocks_tail_text(bs, k + 1) == seq!['\n'] + (block_text(bs[k + 1]) + blocks_tail_text(
                bs,
                k + 2,
            )));
            lemma_lit_index(s, j, blocks_tail_text(bs, k + 1), 0);
        } else {
            assert(blocks_tail_text(bs, k + 1) =~= Seq::<char>::empty());
        }
        lemma_block(s, i + 1, b);
        lemma_run_to(s, i, i + 1, Class::Nl);
        lemma_blocks_after(s, j, bs, k + 1);
        assert(bs.subrange(k, bs.len() as int) =~= seq![b] + bs.subrange(k + 1, bs.len() as int));
    } else {
        assert(blocks_tail_text(bs, k) =~= Seq::<char>::empty());
        lemma_run_to(s, i, i, Class::Nl);
        assert(bs.subrange(k, bs.len() as int) =~= Seq::<BlockView>::empty());
    }
}

/// The header without a description, and the blank line after it.
proof fn lemma_plain_header(s: Seq<char>)
    requires
        lit_at(s, 0, seq!['W', 'E', 'B', 'V', 'T', 'T', '\n', '\n']),
    ensures
        header_at(s, 0) == Some((None::<crate::vtt::NoteView>, 7int)),
        newline_end(s, 7) == Some(8int),
{
    reveal(header_at);
    let h = seq!['W', 'E', 'B', 'V', 'T', 'T', '\n', '\n'];
    assert forall|k: int| 0 <= k < 8 implies s[k] == h[k] by {
        lemma_lit_index(s, 0, h, k);
    }
    assert(s.subrange(0, 6) =~= "WEBVTT"@) by {
        reveal_strlit("WEBVTT");
    }
    assert(lit_end(s, 0, "WEBVTT"@) == Some(6int)) by {
        reveal_strlit("WEBVTT");
    }
    lemma_run_to(s, 6, 6, Class::Ws);
    lemma_run_to(s, 6, 6, Class::NotNl);
    lemma_run_to(s, 7, 7, Class::NotNl);
}

/// The blocks of the rendering, read from `p`, just after the header's
/// blank line.
#[verifier::rlimit(50)]
proof fn lemma_blocks_from_start(s: Seq<char>, bs: Seq<BlockView>, p: int)
    requires
        simple_blocks_ok(bs),
        bs.len() > 0,
        0 <= p <= s.len(),
        lit_at(s, p, block_text(bs[0]) + blocks_tail_text(bs, 1)),
        p + (block_text(bs[0]) + blocks_tail_text(bs, 1)).len() == s.len(),
    ensures
        blocks_at(s, p) == (bs, s.len() as int),
        !is_blank(s[p]),
{
    let b = bs[0];
    assert(simple_block_ok(b));
    lemma_lit_split(s, p, block_text(b), blocks_tail_text(bs, 1));
    let k = (p + block_text(b).len()) as int;
    if bs.len() > 1 {
        assert(blocks_tail_text(bs, 1) == seq!['\n'] + (block_text(bs[1]) + blocks_tail_text(bs, 2)));
        lemma_lit_index(s, k, blocks_tail_text(bs, 1), 0);
    } else {
        assert(blocks_tail_text(bs, 1) =~= Seq::<char>::empty());
    }
    lemma_block(s, p, b);
    lemma_blocks_after(s, k, bs, 1);
    assert(bs =~= seq![b] + bs.subrange(1, bs.len() as int));
}

/// Lines of a header description that read back as themselves: one or more,
/// each non-empty and free of newlines.
pub open spec fn text_lines_ok(ls: Seq<Seq<char>>) -> bool {
    &&& ls.len() > 0
    &&& forall|k: int| 0 <= k < ls.len() ==> (#[trigger] ls[k]).len() > 0 && (forall|m: int|
        0 <= m < ls[k].len() ==> !is_nl(#[trigger] ls[k][m]))
}

/// A header description that reads back as itself: such lines, each with
/// its newline; on the `WEBVTT` line, not starting with a space or a tab.
pub open spec fn description_ok(h: Option<NoteView>) -> bool {
    match h {
        None => true,
        Some(NoteView::Below(t)) => exists|ls: Seq<Seq<char>>| text_lines_ok(ls) && #[trigger] lines_text(ls, 0) == t,
        Some(NoteView::Side(t)) => (exists|ls: Seq<Seq<char>>| text_lines_ok(ls) && #[trigger] lines_text(ls, 0) == t)
            && !is_ws(t[0]),
    }
}

proof fn lemma_text_lines(s: Seq<char>, j: int, ls: Seq<Seq<char>>, k: int)
    requires
        0 <= k <= ls.len(),
        0 <= j,
        forall|m: int| 0 <= m < ls.len() ==> (#[trigger] ls[m]).len() > 0 && (forall|n: int|
            0 <= n < ls[m].len() ==> !is_nl(#[trigger] ls[m][n])),
        lit_at(s, j, lines_text(ls, k)),
        j + lines_text(ls, k).len() < s.len(),
        s[j + lines_text(ls, k).len()] == '\n',
    ensures
        text_lines_end(s, j) == j + lines_text(ls, k).len(),
    decreases ls.len() - k,
{
    if k < ls.len() {
        let l = ls[k];
        assert(lines_text(ls, k) == (l + seq!['\n']) + lines_text(ls, k + 1));
        lemma_lit_split(s, j, l + seq!['\n'], lines_text(ls, k + 1));
        lemma_lit_split(s, j, l, seq!['\n']);
        lemma_lit_index(s, j + l.len(), seq!['\n'], 0);
        assert forall|m: int| j <= m < j + l.len() implies in_class(#[trigger] s[m], Class::NotNl) by {
            lemma_lit_index(s, j, l, m - j);
        }
        lemma_run_to(s, j, j + l.len(), Class::NotNl);
        lemma_text_lines(s, j + l.len() + 1, ls, k + 1);
    } else {
        assert(lines_text(ls, k) =~= Seq::<char>::empty());
        lemma_run_to(s, j, j, Class::NotNl);
    }
}

/// A description of lines at `j`, followed by a newline, is a text block.
proof fn lemma_description_block(s: Seq<char>, j: int, t: Seq<char>)
    requires
        0 <= j,
        exists|ls: Seq<Seq<char>>| text_lines_ok(ls) && #[trigger] lines_text(ls, 0) == t,
        lit_at(s, j, t),
        j + t.len() < s.len(),
        s[j + t.len()] == '\n',
    ensures
        text_block_at(s, j) == Some((t, j + t.len())),
        t.len() > 0,
        !is_nl(s[j]),
{
    let ls = choose|ls: Seq<Seq<char>>| text_lines_ok(ls) && #[trigger] lines_text(ls, 0) == t;
    lemma_text_lines(s, j, ls, 0);
    assert(ls[0].len() > 0);
    assert(lines_text(ls, 0) == (ls[0] + seq!['\n']) + lines_text(ls, 1));
    assert(t[0] == ls[0][0]);
    lemma_lit_index(s, j, t, 0);
    assert(s.subrange(j, j + t.len()) == t);
}

proof fn lemma_webvtt_keyword(s: Seq<char>)
    requires
        lit_at(s, 0, seq!['W', 'E', 'B', 'V', 'T', 'T']),
    ensures
        lit_end(s, 0, "WEBVTT"@) == Some(6int),
{
    assert(s.subrange(0, 6) =~= "WEBVTT"@) by {
        reveal_strlit("WEBVTT");
    }
    assert(lit_end(s, 0, "WEBVTT"@) == Some(6int)) by {
        reveal_strlit("WEBVTT");
    }
}

/// The header, the blank line after it, and the start of the first block.
#[verifier::rlimit(50)]
proof fn lemma_header(s: Seq<char>, h: Option<NoteView>)
    requires
        description_ok(h),
        lit_at(s, 0, header_text(h) + seq!['\n']),
        header_text(h).len() + 1 < s.len(),
        !is_blank(s[header_text(h).len() + 1int]),
    ensures
        match header_at(s, 0) {
            Some((h2, a)) => h2 == h && match newline_end(s, a) {
                Some(b) => run_end(s, b, Class::Blank) == header_text(h).len() + 1,
                None => false,
            },
            None => false,
        },
{
    reveal(header_at);
    let w = seq!['W', 'E', 'B', 'V', 'T', 'T'];
    let n = header_text(h).len() as int;
    match h {
        None => {
            assert(header_text(h) + seq!['\n'] =~= seq!['W', 'E', 'B', 'V', 'T', 'T', '\n', '\n']);
            lemma_plain_header(s);
            lemma_run_to(s, 8, 8, Class::Blank);
        },
        Some(NoteView::Below(t)) => {
            assert(header_text(h) + seq!['\n'] =~= w + (seq!['\n'] + (t + seq!['\n', '\n'])));
            lemma_lit_split(s, 0, w, seq!['\n'] + (t + seq!['\n', '\n']));
            lemma_webvtt_keyword(s);
            lemma_lit_split(s, 6, seq!['\n'], t + seq!['\n', '\n']);
            lemma_lit_split(s, 7, t, seq!['\n', '\n']);
            lemma_lit_index(s, 6, seq!['\n'], 0);
            lemma_lit_index(s, 7 + t.len() as int, seq!['\n', '\n'], 0);
            lemma_lit_index(s, 7 + t.len() as int, seq!['\n', '\n'], 1);
            lemma_run_to(s, 6, 6, Class::Ws);
            lemma_description_block(s, 7, t);
            assert(n == 8 + t.len());
            lemma_run_to(s, 8 + t.len() as int, n + 1, Class::Blank);
        },
        Some(NoteView::Side(t)) => {
            assert(header_text(h) + seq!['\n'] =~= w + (seq![' '] + (t + seq!['\n', '\n'])));
            lemma_lit_split(s, 0, w, seq![' '] + (t + seq!['\n', '\n']));
            lemma_webvtt_keyword(s);
            lemma_lit_split(s, 6, seq![' '], t + seq!['\n', '\n']);
            lemma_lit_split(s, 7, t, seq!['\n', '\n']);
            lemma_lit_index(s, 6, seq![' '], 0);
            lemma_lit_index(s, 7 + t.len() as int, seq!['\n', '\n'], 0);
            lemma_lit_index(s, 7 + t.len() as int, seq!['\n', '\n'], 1);
            lemma_description_block(s, 7, t);
            lemma_lit_index(s, 7, t, 0);
            lemma_run_to(s, 6, 7, Class::Ws);
            assert(newline_end(s, 7) is None);
            assert(n == 8 + t.len());
            lemma_run_to(s, 8 + t.len() as int, n + 1, Class::Blank);
        },
    }
}

/// Round trip, for a document whose header description (if any) and whose
/// blocks (one or more: cues without settings, and comments) read back as
/// themselves: parsing its rendering gives the document again.
pub proof fn lemma_vtt_simple_round_trip(h: Option<NoteView>, bs: Seq<BlockView>)
    requires
        description_ok(h),
        bs.len() > 0,
        simple_blocks_ok(bs),
    ensures
        vtt_doc(vtt_text(h, bs)) == Some((h, bs)),
{
    let s = vtt_text(h, bs);
    let head = header_text(h) + seq!['\n'];
    let body = block_text(bs[0]) + blocks_tail_text(bs, 1);
    assert(s =~= head + body);
    assert(s.subrange(0, s.len() as int) =~= s);
    lemma_lit_split(s, 0, head, body);
    let p = head.len() as int;
    lemma_blocks_from_start(s, bs, p);
    assert(body.len() > 0) by {
        assert(body[0] == s[p]) by {
            lemma_lit_index(s, p, body, 0);
        }
    }
    lemma_header(s, h);
    lemma_run_to(s, s.len() as int, s.len() as int, Class::Blank);
}

} // verus!

verus! {

/// Rendering, parsing and rendering again gives the first rendering, for a
/// document whose header description (if any) and whose blocks (one or
/// more: cues without settings, and comments) read back as themselves.
pub proof fn lemma_vtt_simple_render_idempotent(h: Option<NoteView>, bs: Seq<BlockView>)
    requires
        description_ok(h),
        bs.len() > 0,
        simple_blocks_ok(bs),
    ensures
        match vtt_doc(vtt_text(h, bs)) {
            Some((h2, parsed)) => vtt_text(h2, parsed) == vtt_text(h, bs),
            None => false,
        },
{
    lemma_vtt_simple_round_trip(h, bs);
}

} // verus!
