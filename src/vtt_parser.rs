//! The grammar of WebVTT documents, and a parser proved to follow it.
use vstd::prelude::*;
use crate::error::{location_text, ParseError};
use crate::general::{accepts, agrees, finish, anchor_at, anchor_at_exec, int_at, int_at_exec, line_at, line_at_exec, lit_end, lit_exec, multiline_at, multiline_at_exec, newline_at, newline_end, number_at, number_at_exec, percentage_at, percentage_at_exec, run_end, scan, sequence_at, sequence_at_exec, text_block_at, text_block_at_exec, three_number_at, three_number_at_exec, two_number_at, two_number_at_exec, views, Class};
use crate::text::chars_of;
use crate::vtt::{blocks_view, no_region_settings, no_settings, Alignment, BlockView, CueSettings, Line, LineAlignment, NoteView, Position, PositionAlignment, QueView, RegionView, Scroll, SettingsView, Vertical, VttBlock, VttComment, VttDescription, VttHeader, VttQue, VttRegion, VttStyle, VttTimestamp, VttTimings, WebVtt};

verus! {

/// `HH:MM:SS.mmm`.
pub open spec fn timestamp_with_hours_at(s: Seq<char>, i: int) -> Option<(VttTimestamp, int)> {
    match two_number_at(s, i) {
        Some((h, a)) => if a < s.len() && s[a] == ':' {
            match timestamp_without_hours_at(s, a + 1) {
                Some((t, d)) => Some((VttTimestamp { hours: h, ..t }, d)),
                None => None,
            }
        } else {
            None
        },
        None => None,
    }
}

/// `MM:SS.mmm`, read with zero hours.
pub open spec fn timestamp_without_hours_at(s: Seq<char>, i: int) -> Option<(VttTimestamp, int)> {
    match two_number_at(s, i) {
        Some((m, b)) => if b < s.len() && s[b] == ':' {
            match two_number_at(s, b + 1) {
                Some((sec, c)) => if c < s.len() && s[c] == '.' {
                    match three_number_at(s, c + 1) {
                        Some((ms, d)) => Some((
                            VttTimestamp { hours: 0, minutes: m, seconds: sec, milliseconds: ms },
                            d,
                        )),
                        None => None,
                    }
                } else {
                    None
                },
                None => None,
            }
        } else {
            None
        },
        None => None,
    }
}

/// A timestamp with hours, or else one without.
pub open spec fn timestamp_at(s: Seq<char>, i: int) -> Option<(VttTimestamp, int)> {
    match timestamp_with_hours_at(s, i) {
        Some(r) => Some(r),
        None => timestamp_without_hours_at(s, i),
    }
}

/// `start --> end`, with optional spaces and tabs around the arrow.
pub open spec fn timings_at(s: Seq<char>, i: int) -> Option<(VttTimings, int)> {
    match timestamp_at(s, i) {
        Some((start, a)) => match lit_end(s, run_end(s, a, Class::Ws), "-->"@) {
            Some(c) => match timestamp_at(s, run_end(s, c, Class::Ws)) {
                Some((end, e)) => Some((VttTimings { start, end }, e)),
                None => None,
            },
            None => None,
        },
        None => None,
    }
}

/// `region:` and an identifier.
pub open spec fn cue_region_at(s: Seq<char>, i: int) -> Option<(Seq<char>, int)> {
    match lit_end(s, i, "region:"@) {
        Some(a) => sequence_at(s, a),
        None => None,
    }
}

/// `vertical:rl` or `vertical:lr`.
pub open spec fn cue_vertical_at(s: Seq<char>, i: int) -> Option<(Vertical, int)> {
    match lit_end(s, i, "vertical:rl"@) {
        Some(e) => Some((Vertical::Rl, e)),
        None => match lit_end(s, i, "vertical:lr"@) {
            Some(e) => Some((Vertical::Lr, e)),
            None => None,
        },
    }
}

/// `start`, `center` or `end`, as the whole of a run of non-blank characters.
pub open spec fn line_alignment_at(s: Seq<char>, i: int) -> Option<(LineAlignment, int)> {
    match sequence_at(s, i) {
        Some((t, e)) => if t == "start"@ {
            Some((LineAlignment::Start, e))
        } else if t == "center"@ {
            Some((LineAlignment::Center, e))
        } else if t == "end"@ {
            Some((LineAlignment::End, e))
        } else {
            None
        },
        None => None,
    }
}

/// A comma and a line alignment.
pub open spec fn comma_line_alignment_at(s: Seq<char>, i: int) -> Option<(LineAlignment, int)> {
    if 0 <= i < s.len() && s[i] == ',' {
        line_alignment_at(s, i + 1)
    } else {
        None
    }
}

/// `line:` and a percentage with an alignment, a number with an alignment,
/// a percentage, or a number; the first of these that matches.
pub open spec fn cue_line_at(s: Seq<char>, i: int) -> Option<(Line, int)> {
    match lit_end(s, i, "line:"@) {
        Some(a) => {
            let with_pct = match percentage_at(s, a) {
                Some((p, b)) => match comma_line_alignment_at(s, b) {
                    Some((al, c)) => Some((Line::Percentage(p, Some(al)), c)),
                    None => None,
                },
                None => None,
            };
            let with_num = match int_at(s, a) {
                Some((n, b)) => match comma_line_alignment_at(s, b) {
                    Some((al, c)) => Some((Line::LineNumber(n, Some(al)), c)),
                    None => None,
                },
                None => None,
            };
            if with_pct is Some {
                with_pct
            } else if with_num is Some {
                with_num
            } else {
                match percentage_at(s, a) {
                    Some((p, b)) => Some((Line::Percentage(p, None), b)),
                    None => match int_at(s, a) {
                        Some((n, b)) => Some((Line::LineNumber(n, None), b)),
                        None => None,
                    },
                }
            }
        },
        None => None,
    }
}

/// `line-left`, `center` or `line-right`, as the whole of a run of
/// non-blank characters.
pub open spec fn position_alignment_at(s: Seq<char>, i: int) -> Option<(PositionAlignment, int)> {
    match sequence_at(s, i) {
        Some((t, e)) => if t == "line-left"@ {
            Some((PositionAlignment::LineLeft, e))
        } else if t == "center"@ {
            Some((PositionAlignment::Center, e))
        } else if t == "line-right"@ {
            Some((PositionAlignment::LineRight, e))
        } else {
            None
        },
        None => None,
    }
}

/// `position:` and a percentage, with a comma and an alignment if they
/// follow.
pub open spec fn cue_position_at(s: Seq<char>, i: int) -> Option<(Position, int)> {
    match lit_end(s, i, "position:"@) {
        Some(a) => match percentage_at(s, a) {
            Some((p, b)) => {
                let with_align = if b < s.len() && s[b] == ',' {
                    position_alignment_at(s, b + 1)
                } else {
                    None
                };
                match with_align {
                    Some((al, c)) => Some((Position { value: p, alignment: Some(al) }, c)),
                    None => Some((Position { value: p, alignment: None }, b)),
                }
            },
            None => None,
        },
        None => None,
    }
}

/// `size:` and a percentage.
pub open spec fn cue_size_at(s: Seq<char>, i: int) -> Option<(crate::vtt::Percentage, int)> {
    match lit_end(s, i, "size:"@) {
        Some(a) => percentage_at(s, a),
        None => None,
    }
}

/// `align:` and one of `start`, `center`, `end`, `left`, `right`.
pub open spec fn cue_align_at(s: Seq<char>, i: int) -> Option<(Alignment, int)> {
    match lit_end(s, i, "align:"@) {
        Some(a) => match sequence_at(s, a) {
            Some((t, e)) => if t == "start"@ {
                Some((Alignment::Start, e))
            } else if t == "center"@ {
                Some((Alignment::Center, e))
            } else if t == "end"@ {
                Some((Alignment::End, e))
            } else if t == "left"@ {
                Some((Alignment::Left, e))
            } else if t == "right"@ {
                Some((Alignment::Right, e))
            } else {
                None
            },
            None => None,
        },
        None => None,
    }
}

/// The value of a match that ends exactly at `b`.
pub open spec fn upto<V>(m: Option<(V, int)>, b: int) -> Option<V> {
    match m {
        Some((v, e)) => if e == b { Some(v) } else { None },
        None => None,
    }
}

/// The settings `acc` with the token `s[a..b]` read into them: the token is
/// read as a region, vertical, line, position, size or align setting, the
/// first that covers it; a later setting of a key replaces an earlier one.
pub open spec fn apply_cue_token(s: Seq<char>, a: int, b: int, acc: SettingsView) -> Option<SettingsView> {
    match upto(cue_region_at(s, a), b) {
        Some(v) => Some(SettingsView { region: Some(v), ..acc }),
        None => match upto(cue_vertical_at(s, a), b) {
            Some(v) => Some(SettingsView { vertical: Some(v), ..acc }),
            None => match upto(cue_line_at(s, a), b) {
                Some(v) => Some(SettingsView { line: Some(v), ..acc }),
                None => match upto(cue_position_at(s, a), b) {
                    Some(v) => Some(SettingsView { position: Some(v), ..acc }),
                    None => match upto(cue_size_at(s, a), b) {
                        Some(v) => Some(SettingsView { size: Some(v), ..acc }),
                        None => match upto(cue_align_at(s, a), b) {
                            Some(v) => Some(SettingsView { align: Some(v), ..acc }),
                            None => None,
                        },
                    },
                },
            },
        },
    }
}

/// Further tokens after `e`, each after spaces or tabs, read into `acc`.
pub open spec fn settings_after(s: Seq<char>, e: int, acc: SettingsView) -> Option<(SettingsView, int)>
    decreases s.len() - e,
{
    let w = run_end(s, e, Class::Ws);
    match sequence_at(s, w) {
        Some((_, f)) => if e < w && w < f <= s.len() {
            match apply_cue_token(s, w, f, acc) {
                Some(a2) => settings_after(s, f, a2),
                None => None,
            }
        } else {
            Some((acc, e))
        },
        None => Some((acc, e)),
    }
}

/// Zero or more setting tokens separated by spaces or tabs, in any order.
pub open spec fn cue_settings_at(s: Seq<char>, i: int) -> Option<(SettingsView, int)> {
    match sequence_at(s, i) {
        Some((_, f)) => if i < f <= s.len() {
            match apply_cue_token(s, i, f, no_settings()) {
                Some(a) => settings_after(s, f, a),
                None => None,
            }
        } else {
            Some((no_settings(), i))
        },
        None => Some((no_settings(), i)),
    }
}

/// From `i`: spaces or tabs, the timings, and, when `with_settings`, spaces
/// or tabs and the settings; then spaces or tabs, a newline, spaces or tabs
/// and the payload.
pub open spec fn cue_rest_at(s: Seq<char>, i: int, identifier: Option<Seq<char>>, with_settings: bool) -> Option<(QueView, int)> {
    match timings_at(s, run_end(s, i, Class::Ws)) {
        Some((timings, b)) => {
            let st: Option<(Option<SettingsView>, int)> = if with_settings {
                let c = run_end(s, b, Class::Ws);
                if c > b {
                    match cue_settings_at(s, c) {
                        Some((st, d)) => Some((Some(st), d)),
                        None => None,
                    }
                } else {
                    None
                }
            } else {
                Some((None, b))
            };
            match st {
                Some((settings, d)) => match newline_end(s, run_end(s, d, Class::Ws)) {
                    Some(f) => match multiline_at(s, run_end(s, f, Class::Ws)) {
                        Some((payload, h)) => Some((QueView { identifier, timings, settings, payload }, h)),
                        None => None,
                    },
                    None => None,
                },
                None => None,
            }
        },
        None => None,
    }
}

/// A cue: with identifier and settings, with identifier, with settings, or
/// with neither; the first of these that matches.
pub open spec fn cue_at(s: Seq<char>, i: int) -> Option<(QueView, int)> {
    let id = line_at(s, run_end(s, i, Class::Ws));
    let with_id_settings = match id {
        Some((t, b)) => cue_rest_at(s, b, Some(t), true),
        None => None,
    };
    let with_id = match id {
        Some((t, b)) => cue_rest_at(s, b, Some(t), false),
        None => None,
    };
    if with_id_settings is Some {
        with_id_settings
    } else if with_id is Some {
        with_id
    } else if cue_rest_at(s, i, None, true) is Some {
        cue_rest_at(s, i, None, true)
    } else {
        cue_rest_at(s, i, None, false)
    }
}

/// The lines from index `k` on, joined by newlines.
pub open spec fn joined_from(ls: Seq<Seq<char>>, k: int) -> Seq<char>
    decreases ls.len() - k,
{
    if k < 0 || k >= ls.len() {
        Seq::empty()
    } else {
        (if k == 0 { Seq::empty() } else { seq!['\n'] }) + ls[k] + joined_from(ls, k + 1)
    }
}

/// A comment: `NOTE`, a newline and lines below; or `NOTE`, spaces and lines;
/// or `NOTE`, spaces and one line. The first of these that matches.
pub open spec fn comment_at(s: Seq<char>, i: int) -> Option<(NoteView, int)> {
    match lit_end(s, i, "NOTE"@) {
        Some(a) => {
            let b = run_end(s, a, Class::Ws);
            let below = match newline_end(s, b) {
                Some(c) => match multiline_at(s, c) {
                    Some((ls, d)) => Some((NoteView::Below(joined_from(ls, 0)), d)),
                    None => None,
                },
                None => None,
            };
            if below is Some {
                below
            } else if b > a {
                match multiline_at(s, b) {
                    Some((ls, d)) => Some((NoteView::Side(joined_from(ls, 0)), d)),
                    None => match line_at(s, b) {
                        Some((t, d)) => Some((NoteView::Side(t), d)),
                        None => None,
                    },
                }
            } else {
                None
            }
        },
        None => None,
    }
}

/// `STYLE`, a newline, and a block of text kept as it stands.
pub open spec fn style_at(s: Seq<char>, i: int) -> Option<(Seq<char>, int)> {
    match lit_end(s, i, "STYLE"@) {
        Some(a) => match newline_end(s, run_end(s, a, Class::Ws)) {
            Some(c) => text_block_at(s, c),
            None => None,
        },
        None => None,
    }
}

pub open spec fn region_id_at(s: Seq<char>, i: int) -> Option<(Seq<char>, int)> {
    match lit_end(s, i, "id:"@) {
        Some(a) => sequence_at(s, a),
        None => None,
    }
}

pub open spec fn region_width_at(s: Seq<char>, i: int) -> Option<(crate::vtt::Percentage, int)> {
    match lit_end(s, i, "width:"@) {
        Some(a) => percentage_at(s, a),
        None => None,
    }
}

pub open spec fn region_lines_at(s: Seq<char>, i: int) -> Option<(u32, int)> {
    match lit_end(s, i, "lines:"@) {
        Some(a) => number_at(s, a),
        None => None,
    }
}

pub open spec fn region_region_anchor_at(s: Seq<char>, i: int) -> Option<(crate::vtt::Anchor, int)> {
    match lit_end(s, i, "regionanchor:"@) {
        Some(a) => anchor_at(s, a),
        None => None,
    }
}

pub open spec fn region_viewport_anchor_at(s: Seq<char>, i: int) -> Option<(crate::vtt::Anchor, int)> {
    match lit_end(s, i, "viewportanchor:"@) {
        Some(a) => anchor_at(s, a),
        None => None,
    }
}

pub open spec fn region_scroll_at(s: Seq<char>, i: int) -> Option<(Scroll, int)> {
    match lit_end(s, i, "scroll:up"@) {
        Some(e) => Some((Scroll::Up, e)),
        None => None,
    }
}

/// The region settings `acc` with the token `s[a..b]` read into them.
pub open spec fn apply_region_token(s: Seq<char>, a: int, b: int, acc: RegionView) -> Option<RegionView> {
    match upto(region_id_at(s, a), b) {
        Some(v) => Some(RegionView { id: Some(v), ..acc }),
        None => match upto(region_width_at(s, a), b) {
            Some(v) => Some(RegionView { width: Some(v), ..acc }),
            None => match upto(region_lines_at(s, a), b) {
                Some(v) => Some(RegionView { lines: Some(v), ..acc }),
                None => match upto(region_region_anchor_at(s, a), b) {
                    Some(v) => Some(RegionView { region_anchor: Some(v), ..acc }),
                    None => match upto(region_viewport_anchor_at(s, a), b) {
                        Some(v) => Some(RegionView { viewport_anchor: Some(v), ..acc }),
                        None => match upto(region_scroll_at(s, a), b) {
                            Some(v) => Some(RegionView { scroll: Some(v), ..acc }),
                            None => None,
                        },
                    },
                },
            },
        },
    }
}

/// Further region tokens after `e`, each after one newline, read into `acc`.
pub open spec fn region_after(s: Seq<char>, e: int, acc: RegionView) -> Option<(RegionView, int)>
    decreases s.len() - e,
{
    match newline_end(s, e) {
        Some(w) => match sequence_at(s, w) {
            Some((_, f)) => if e < w && w < f <= s.len() {
                match apply_region_token(s, w, f, acc) {
                    Some(a2) => region_after(s, f, a2),
                    None => None,
                }
            } else {
                Some((acc, e))
            },
            None => Some((acc, e)),
        },
        None => Some((acc, e)),
    }
}

/// `REGION`, a newline, setting tokens one per line in any order, and a
/// newline.
pub open spec fn region_at(s: Seq<char>, i: int) -> Option<(RegionView, int)> {
    match lit_end(s, i, "REGION"@) {
        Some(a) => match newline_end(s, run_end(s, a, Class::Ws)) {
            Some(c) => {
                let settings = match sequence_at(s, c) {
                    Some((_, f)) => if c < f <= s.len() {
                        match apply_region_token(s, c, f, no_region_settings()) {
                            Some(r) => region_after(s, f, r),
                            None => None,
                        }
                    } else {
                        Some((no_region_settings(), c))
                    },
                    None => Some((no_region_settings(), c)),
                };
                match settings {
                    Some((r, d)) => match newline_end(s, d) {
                        Some(e) => Some((r, e)),
                        None => None,
                    },
                    None => None,
                }
            },
            None => None,
        },
        None => None,
    }
}

/// A cue, comment, style or region block; the first that matches.
#[verifier::opaque]
pub open spec fn block_at(s: Seq<char>, i: int) -> Option<(BlockView, int)> {
    match cue_at(s, i) {
        Some((q, e)) => Some((BlockView::Que(q), e)),
        None => match comment_at(s, i) {
            Some((c, e)) => Some((BlockView::Comment(c), e)),
            None => match style_at(s, i) {
                Some((t, e)) => Some((BlockView::Style(t), e)),
                None => match region_at(s, i) {
                    Some((r, e)) => Some((BlockView::Region(r), e)),
                    None => None,
                },
            },
        },
    }
}

/// `WEBVTT` then: a newline and a description below; or a description on the
/// same line and on; or a newline alone. The first of these that matches.
#[verifier::opaque]
pub open spec fn header_at(s: Seq<char>, i: int) -> Option<(Option<NoteView>, int)> {
    match lit_end(s, i, "WEBVTT"@) {
        Some(a) => {
            let b = run_end(s, a, Class::Ws);
            let below = match newline_end(s, b) {
                Some(c) => match text_block_at(s, c) {
                    Some((t, d)) => Some((Some(NoteView::Below(t)), d)),
                    None => None,
                },
                None => None,
            };
            if below is Some {
                below
            } else {
                match text_block_at(s, b) {
                    Some((t, d)) => Some((Some(NoteView::Side(t)), d)),
                    None => match newline_end(s, b) {
                        Some(c) => Some((None, c)),
                        None => None,
                    },
                }
            }
        },
        None => None,
    }
}

/// The blocks that follow position `i`, each after one or more newlines.
pub open spec fn blocks_after(s: Seq<char>, i: int) -> (Seq<BlockView>, int)
    decreases s.len() - i,
{
    let j = run_end(s, i, Class::Nl);
    if j > i {
        match block_at(s, j) {
            Some((b, k)) => if i < k <= s.len() {
                let (rest, g) = blocks_after(s, k);
                (seq![b] + rest, g)
            } else {
                (Seq::empty(), i)
            },
            None => (Seq::empty(), i),
        }
    } else {
        (Seq::empty(), i)
    }
}

/// Zero or more blocks separated by newlines, from `i`.
pub open spec fn blocks_at(s: Seq<char>, i: int) -> (Seq<BlockView>, int) {
    match block_at(s, i) {
        Some((b, k)) => {
            let (rest, g) = blocks_after(s, k);
            (seq![b] + rest, g)
        },
        None => (Seq::empty(), i),
    }
}

/// Where reading a cue fails after its timings, which end at `b`.
pub open spec fn cue_body_failure(s: Seq<char>, b: int) -> (int, Seq<char>) {
    let c = run_end(s, b, Class::Ws);
    match newline_end(s, c) {
        Some(f) => (run_end(s, f, Class::Ws), "cue text"@),
        None => if c > b {
            match cue_settings_at(s, c) {
                None => (c, "cue setting"@),
                Some((_, d)) => (run_end(s, d, Class::Ws), "newline"@),
            }
        } else {
            (c, "newline"@)
        },
    }
}

/// Where reading a block from `j` fails, and what was expected there: for a
/// keyword block, just after its keyword; for a cue, the first step of the
/// cue that does not match.
pub open spec fn block_failure(s: Seq<char>, j: int) -> (int, Seq<char>) {
    match lit_end(s, j, "NOTE"@) {
        Some(a) => (run_end(s, a, Class::Ws), "comment text"@),
        None => match lit_end(s, j, "STYLE"@) {
            Some(a) => (run_end(s, a, Class::Ws), "newline and style text"@),
            None => match lit_end(s, j, "REGION"@) {
                Some(a) => (run_end(s, a, Class::Ws), "newline and region settings"@),
                None => {
                    let a = run_end(s, j, Class::Ws);
                    match timings_at(s, a) {
                        Some((_, b)) => cue_body_failure(s, b),
                        None => match line_at(s, a) {
                            Some((_, b)) => {
                                let t = run_end(s, b, Class::Ws);
                                match timings_at(s, t) {
                                    Some((_, e)) => cue_body_failure(s, e),
                                    None => (t, "cue timings"@),
                                }
                            },
                            None => (a, "cue identifier or timings"@),
                        },
                    }
                },
            },
        },
    }
}

/// Where reading a document fails, and what was expected there: in the
/// header, or the furthest of the failure of the block tried last and the
/// first character left over after the blocks.
pub open spec fn vtt_failure(s: Seq<char>) -> (int, Seq<char>) {
    match header_at(s, 0) {
        None => match lit_end(s, 0, "WEBVTT"@) {
            Some(a) => (run_end(s, a, Class::Ws), "newline or description"@),
            None => (0, "WEBVTT"@),
        },
        Some((_, a)) => match newline_end(s, a) {
            None => (a, "blank line after the header"@),
            Some(b) => {
                let c0 = run_end(s, b, Class::Blank);
                let (bs, d) = blocks_at(s, c0);
                let c = run_end(s, d, Class::Blank);
                let j = if bs.len() == 0 { c0 } else { run_end(s, d, Class::Nl) };
                if bs.len() == 0 || j > d {
                    let (p, x) = block_failure(s, j);
                    if p >= c { (p, x) } else { (c, "end of input"@) }
                } else {
                    (c, "end of input"@)
                }
            },
        },
    }
}

/// A whole WebVTT document: the header, a newline, whitespace, one or more
/// blocks separated by newlines, whitespace, and nothing else.
pub open spec fn vtt_doc(s: Seq<char>) -> Option<(Option<NoteView>, Seq<BlockView>)> {
    match header_at(s, 0) {
        Some((h, a)) => match newline_end(s, a) {
            Some(b) => {
                let (bs, d) = blocks_at(s, run_end(s, b, Class::Blank));
                if run_end(s, d, Class::Blank) == s.len() && bs.len() > 0 {
                    Some((h, bs))
                } else {
                    None
                }
            },
            None => None,
        },
        None => None,
    }
}

} // verus!

verus! {

fn timestamp_without_hours_exec(s: &Vec<char>, i: usize) -> (r: Option<(VttTimestamp, usize)>)
    requires
        i <= s.len(),
    ensures
        agrees(r, timestamp_without_hours_at(s@, i as int)),
        r matches Some(p) ==> i < p.1 <= s.len(),
{
    if let Some((m, b)) = two_number_at_exec(s, i) {
        if b < s.len() && s[b] == ':' {
            if let Some((sec, c)) = two_number_at_exec(s, b + 1) {
                if c < s.len() && s[c] == '.' {
                    if let Some((ms, d)) = three_number_at_exec(s, c + 1) {
                        return Some((VttTimestamp { hours: 0, minutes: m, seconds: sec, milliseconds: ms }, d));
                    }
                }
            }
        }
    }
    None
}

pub fn timestamp_at_exec(s: &Vec<char>, i: usize) -> (r: Option<(VttTimestamp, usize)>)
    requires
        i <= s.len(),
    ensures
        agrees(r, timestamp_at(s@, i as int)),
        r matches Some(p) ==> i < p.1 <= s.len(),
{
    if let Some((h, a)) = two_number_at_exec(s, i) {
        if a < s.len() && s[a] == ':' {
            if let Some((t, d)) = timestamp_without_hours_exec(s, a + 1) {
                return Some((VttTimestamp { hours: h, ..t }, d));
            }
        }
    }
    timestamp_without_hours_exec(s, i)
}

pub fn timings_at_exec(s: &Vec<char>, i: usize) -> (r: Option<(VttTimings, usize)>)
    requires
        i <= s.len(),
    ensures
        agrees(r, timings_at(s@, i as int)),
        r matches Some(p) ==> i < p.1 <= s.len(),
{
    if let Some((start, a)) = timestamp_at_exec(s, i) {
        let b = scan(s, a, Class::Ws);
        if let Some(c) = lit_exec(s, b, "-->") {
            let d = scan(s, c, Class::Ws);
            if let Some((end, e)) = timestamp_at_exec(s, d) {
                return Some((VttTimings { start, end }, e));
            }
        }
    }
    None
}

fn cue_region_exec(s: &Vec<char>, i: usize) -> (r: Option<(String, usize)>)
    requires
        i <= s.len(),
    ensures
        agrees(r, cue_region_at(s@, i as int)),
        r matches Some(p) ==> i < p.1 <= s.len(),
{
    match lit_exec(s, i, "region:") {
        Some(a) => sequence_at_exec(s, a),
        None => None,
    }
}

fn cue_vertical_exec(s: &Vec<char>, i: usize) -> (r: Option<(Vertical, usize)>)
    requires
        i <= s.len(),
    ensures
        agrees(r, cue_vertical_at(s@, i as int)),
        r matches Some(p) ==> i <= p.1 <= s.len(),
{
    match lit_exec(s, i, "vertical:rl") {
        Some(e) => Some((Vertical::Rl, e)),
        None => match lit_exec(s, i, "vertical:lr") {
            Some(e) => Some((Vertical::Lr, e)),
            None => None,
        },
    }
}

fn is_word(t: &String, w: &str) -> (r: bool)
    ensures
        r == (t@ == w@),
{
    let wc = chars_of(w);
    let tc = chars_of(t.as_str());
    if wc.len() != tc.len() {
        return false;
    }
    let mut k: usize = 0;
    while k < wc.len()
        invariant
            k <= wc.len() == tc.len(),
            wc@ == w@,
            tc@ == t@,
            forall|m: int| 0 <= m < k ==> wc@[m] == tc@[m],
        decreases wc.len() - k,
    {
        if wc[k] != tc[k] {
            return false;
        }
        k = k + 1;
    }
    proof {
        assert(wc@ =~= tc@);
    }
    true
}

fn line_alignment_exec(s: &Vec<char>, i: usize) -> (r: Option<(LineAlignment, usize)>)
    requires
        i <= s.len(),
    ensures
        agrees(r, line_alignment_at(s@, i as int)),
        r matches Some(p) ==> i < p.1 <= s.len(),
{
    match sequence_at_exec(s, i) {
        Some((t, e)) => if is_word(&t, "start") {
            Some((LineAlignment::Start, e))
        } else if is_word(&t, "center") {
            Some((LineAlignment::Center, e))
        } else if is_word(&t, "end") {
            Some((LineAlignment::End, e))
        } else {
            None
        },
        None => None,
    }
}

fn comma_line_alignment_exec(s: &Vec<char>, i: usize) -> (r: Option<(LineAlignment, usize)>)
    requires
        i <= s.len(),
    ensures
        agrees(r, comma_line_alignment_at(s@, i as int)),
        r matches Some(p) ==> i < p.1 <= s.len(),
{
    if i < s.len() && s[i] == ',' {
        line_alignment_exec(s, i + 1)
    } else {
        None
    }
}

fn cue_line_exec(s: &Vec<char>, i: usize) -> (r: Option<(Line, usize)>)
    requires
        i <= s.len(),
    ensures
        agrees(r, cue_line_at(s@, i as int)),
        r matches Some(p) ==> i < p.1 <= s.len(),
{
    match lit_exec(s, i, "line:") {
        Some(a) => {
            if let Some((p, b)) = percentage_at_exec(s, a) {
                if let Some((al, c)) = comma_line_alignment_exec(s, b) {
                    return Some((Line::Percentage(p, Some(al)), c));
                }
            }
            if let Some((n, b)) = int_at_exec(s, a) {
                if let Some((al, c)) = comma_line_alignment_exec(s, b) {
                    return Some((Line::LineNumber(n, Some(al)), c));
                }
            }
            match percentage_at_exec(s, a) {
                Some((p, b)) => Some((Line::Percentage(p, None), b)),
                None => match int_at_exec(s, a) {
                    Some((n, b)) => Some((Line::LineNumber(n, None), b)),
                    None => None,
                },
            }
        },
        None => None,
    }
}

fn position_alignment_exec(s: &Vec<char>, i: usize) -> (r: Option<(PositionAlignment, usize)>)
    requires
        i <= s.len(),
    ensures
        agrees(r, position_alignment_at(s@, i as int)),
        r matches Some(p) ==> i < p.1 <= s.len(),
{
    match sequence_at_exec(s, i) {
        Some((t, e)) => if is_word(&t, "line-left") {
            Some((PositionAlignment::LineLeft, e))
        } else if is_word(&t, "center") {
            Some((PositionAlignment::Center, e))
        } else if is_word(&t, "line-right") {
            Some((PositionAlignment::LineRight, e))
        } else {
            None
        },
        None => None,
    }
}

fn cue_position_exec(s: &Vec<char>, i: usize) -> (r: Option<(Position, usize)>)
    requires
        i <= s.len(),
    ensures
        agrees(r, cue_position_at(s@, i as int)),
        r matches Some(p) ==> i < p.1 <= s.len(),
{
    match lit_exec(s, i, "position:") {
        Some(a) => match percentage_at_exec(s, a) {
            Some((p, b)) => {
                let with_align = if b < s.len() && s[b] == ',' {
                    position_alignment_exec(s, b + 1)
                } else {
                    None
                };
                match with_align {
                    Some((al, c)) => Some((Position { value: p, alignment: Some(al) }, c)),
                    None => Some((Position { value: p, alignment: None }, b)),
                }
            },
            None => None,
        },
        None => None,
    }
}

fn cue_size_exec(s: &Vec<char>, i: usize) -> (r: Option<(crate::vtt::Percentage, usize)>)
    requires
        i <= s.len(),
    ensures
        agrees(r, cue_size_at(s@, i as int)),
        r matches Some(p) ==> i < p.1 <= s.len(),
{
    match lit_exec(s, i, "size:") {
        Some(a) => percentage_at_exec(s, a),
        None => None,
    }
}

fn cue_align_exec(s: &Vec<char>, i: usize) -> (r: Option<(Alignment, usize)>)
    requires
        i <= s.len(),
    ensures
        agrees(r, cue_align_at(s@, i as int)),
        r matches Some(p) ==> i < p.1 <= s.len(),
{
    match lit_exec(s, i, "align:") {
        Some(a) => match sequence_at_exec(s, a) {
            Some((t, e)) => if is_word(&t, "start") {
                Some((Alignment::Start, e))
            } else if is_word(&t, "center") {
                Some((Alignment::Center, e))
            } else if is_word(&t, "end") {
                Some((Alignment::End, e))
            } else if is_word(&t, "left") {
                Some((Alignment::Left, e))
            } else if is_word(&t, "right") {
                Some((Alignment::Right, e))
            } else {
                None
            },
            None => None,
        },
        None => None,
    }
}

/// Reads the token `s[a..b]` into `acc`; false when no setting covers it.
fn apply_cue_token_exec(s: &Vec<char>, a: usize, b: usize, acc: &mut CueSettings) -> (r: bool)
    requires
        a <= b <= s.len(),
    ensures
        r == apply_cue_token(s@, a as int, b as int, old(acc)@) is Some,
        r ==> apply_cue_token(s@, a as int, b as int, old(acc)@) == Some(final(acc)@),
{
    if let Some((v, e)) = cue_region_exec(s, a) {
        if e == b {
            acc.region = Some(v);
            return true;
        }
    }
    if let Some((v, e)) = cue_vertical_exec(s, a) {
        if e == b {
            acc.vertical = Some(v);
            return true;
        }
    }
    if let Some((v, e)) = cue_line_exec(s, a) {
        if e == b {
            acc.line = Some(v);
            return true;
        }
    }
    if let Some((v, e)) = cue_position_exec(s, a) {
        if e == b {
            acc.position = Some(v);
            return true;
        }
    }
    if let Some((v, e)) = cue_size_exec(s, a) {
        if e == b {
            acc.size = Some(v);
            return true;
        }
    }
    if let Some((v, e)) = cue_align_exec(s, a) {
        if e == b {
            acc.align = Some(v);
            return true;
        }
    }
    false
}

pub fn cue_settings_exec(s: &Vec<char>, i: usize) -> (r: Option<(CueSettings, usize)>)
    requires
        i <= s.len(),
    ensures
        agrees(r, cue_settings_at(s@, i as int)),
        r matches Some(p) ==> i <= p.1 <= s.len(),
{
    let mut acc = CueSettings::default();
    let f = match sequence_at_exec(s, i) {
        Some((_, f)) => f,
        None => {
            return Some((acc, i));
        },
    };
    if !apply_cue_token_exec(s, i, f, &mut acc) {
        return None;
    }
    let mut e = f;
    loop
        invariant
            i <= e <= s.len(),
            cue_settings_at(s@, i as int) == settings_after(s@, e as int, acc@),
        decreases s.len() - e,
    {
        let w = scan(s, e, Class::Ws);
        match sequence_at_exec(s, w) {
            Some((_, g)) => {
                if e < w {
                    if !apply_cue_token_exec(s, w, g, &mut acc) {
                        return None;
                    }
                    e = g;
                } else {
                    return Some((acc, e));
                }
            },
            None => {
                return Some((acc, e));
            },
        }
    }
}

fn cue_rest_exec(s: &Vec<char>, i: usize, identifier: Option<String>, with_settings: bool) -> (r: Option<(VttQue, usize)>)
    requires
        i <= s.len(),
    ensures
        agrees(r, cue_rest_at(s@, i as int, crate::vtt::opt_view(identifier), with_settings)),
        r matches Some(p) ==> i < p.1 <= s.len(),
{
    let a = scan(s, i, Class::Ws);
    let (timings, b) = match timings_at_exec(s, a) {
        Some(p) => p,
        None => {
            return None;
        },
    };
    let (settings, d) = if with_settings {
        let c = scan(s, b, Class::Ws);
        if c > b {
            match cue_settings_exec(s, c) {
                Some((st, d)) => (Some(st), d),
                None => {
                    return None;
                },
            }
        } else {
            return None;
        }
    } else {
        (None, b)
    };
    let e = scan(s, d, Class::Ws);
    match newline_at(s, e) {
        Some(f) => {
            let g = scan(s, f, Class::Ws);
            match multiline_at_exec(s, g) {
                Some((payload, h)) => Some((VttQue { identifier, timings, settings, payload }, h)),
                None => None,
            }
        },
        None => None,
    }
}

pub fn cue_at_exec(s: &Vec<char>, i: usize) -> (r: Option<(VttQue, usize)>)
    requires
        i <= s.len(),
    ensures
        agrees(r, cue_at(s@, i as int)),
        r matches Some(p) ==> i < p.1 <= s.len(),
{
    let a = scan(s, i, Class::Ws);
    if let Some((t, b)) = line_at_exec(s, a) {
        let t2 = t.clone();
        if let Some(r) = cue_rest_exec(s, b, Some(t), true) {
            return Some(r);
        }
        if let Some(r) = cue_rest_exec(s, b, Some(t2), false) {
            return Some(r);
        }
    }
    if let Some(r) = cue_rest_exec(s, i, None, true) {
        return Some(r);
    }
    cue_rest_exec(s, i, None, false)
}

} // verus!

verus! {

fn joined_exec(ls: &Vec<String>) -> (r: String)
    ensures
        r@ == joined_from(views(ls@), 0),
{
    let ghost v = views(ls@);
    let mut out = String::new();
    let mut k: usize = 0;
    while k < ls.len()
        invariant
            k <= ls.len(),
            v == views(ls@),
            out@ + joined_from(v, k as int) == joined_from(v, 0),
        decreases ls.len() - k,
    {
        let ghost before = out@;
        if k > 0 {
            proof {
                reveal_strlit("\n");
            }
            crate::text::push_str(&mut out, "\n");
        }
        crate::text::push_str(&mut out, ls[k].as_str());
        proof {
            assert(v[k as int] == ls@[k as int]@);
            assert(out@ + joined_from(v, k + 1) =~= before + joined_from(v, k as int));
        }
        k = k + 1;
    }
    proof {
        assert(out@ + Seq::<char>::empty() =~= out@);
    }
    out
}

pub fn comment_at_exec(s: &Vec<char>, i: usize) -> (r: Option<(VttComment, usize)>)
    requires
        i <= s.len(),
    ensures
        agrees(r, comment_at(s@, i as int)),
        r matches Some(p) ==> i < p.1 <= s.len(),
{
    let a = match lit_exec(s, i, "NOTE") {
        Some(a) => a,
        None => {
            return None;
        },
    };
    let b = scan(s, a, Class::Ws);
    if let Some(c) = newline_at(s, b) {
        if let Some((ls, d)) = multiline_at_exec(s, c) {
            return Some((VttComment::Below(joined_exec(&ls)), d));
        }
    }
    if b > a {
        match multiline_at_exec(s, b) {
            Some((ls, d)) => Some((VttComment::Side(joined_exec(&ls)), d)),
            None => match line_at_exec(s, b) {
                Some((t, d)) => Some((VttComment::Side(t), d)),
                None => None,
            },
        }
    } else {
        None
    }
}

pub fn style_at_exec(s: &Vec<char>, i: usize) -> (r: Option<(VttStyle, usize)>)
    requires
        i <= s.len(),
    ensures
        agrees(r, style_at(s@, i as int)),
        r matches Some(p) ==> i < p.1 <= s.len(),
{
    match lit_exec(s, i, "STYLE") {
        Some(a) => {
            let b = scan(s, a, Class::Ws);
            match newline_at(s, b) {
                Some(c) => match text_block_at_exec(s, c) {
                    Some((t, d)) => Some((VttStyle { style: t }, d)),
                    None => None,
                },
                None => None,
            }
        },
        None => None,
    }
}

/// Reads the region token `s[a..b]` into `acc`; false when no setting
/// covers it.
fn apply_region_token_exec(s: &Vec<char>, a: usize, b: usize, acc: &mut VttRegion) -> (r: bool)
    requires
        a <= b <= s.len(),
    ensures
        r == apply_region_token(s@, a as int, b as int, old(acc)@) is Some,
        r ==> apply_region_token(s@, a as int, b as int, old(acc)@) == Some(final(acc)@),
{
    if let Some((v, e)) = region_id_exec(s, a) {
        if e == b {
            acc.id = Some(v);
            return true;
        }
    }
    if let Some((v, e)) = region_width_exec(s, a) {
        if e == b {
            acc.width = Some(v);
            return true;
        }
    }
    if let Some((v, e)) = region_lines_exec(s, a) {
        if e == b {
            acc.lines = Some(v);
            return true;
        }
    }
    if let Some((v, e)) = region_region_anchor_exec(s, a) {
        if e == b {
            acc.region_anchor = Some(v);
            return true;
        }
    }
    if let Some((v, e)) = region_viewport_anchor_exec(s, a) {
        if e == b {
            acc.viewport_anchor = Some(v);
            return true;
        }
    }
    if let Some((v, e)) = region_scroll_exec(s, a) {
        if e == b {
            acc.scroll = Some(v);
            return true;
        }
    }
    false
}

fn region_id_exec(s: &Vec<char>, i: usize) -> (r: Option<(String, usize)>)
    requires
        i <= s.len(),
    ensures
        agrees(r, region_id_at(s@, i as int)),
        r matches Some(p) ==> i < p.1 <= s.len(),
{
    match lit_exec(s, i, "id:") {
        Some(a) => sequence_at_exec(s, a),
        None => None,
    }
}

fn region_width_exec(s: &Vec<char>, i: usize) -> (r: Option<(crate::vtt::Percentage, usize)>)
    requires
        i <= s.len(),
    ensures
        agrees(r, region_width_at(s@, i as int)),
        r matches Some(p) ==> i < p.1 <= s.len(),
{
    match lit_exec(s, i, "width:") {
        Some(a) => percentage_at_exec(s, a),
        None => None,
    }
}

fn region_lines_exec(s: &Vec<char>, i: usize) -> (r: Option<(u32, usize)>)
    requires
        i <= s.len(),
    ensures
        agrees(r, region_lines_at(s@, i as int)),
        r matches Some(p) ==> i < p.1 <= s.len(),
{
    match lit_exec(s, i, "lines:") {
        Some(a) => number_at_exec(s, a),
        None => None,
    }
}

fn region_region_anchor_exec(s: &Vec<char>, i: usize) -> (r: Option<(crate::vtt::Anchor, usize)>)
    requires
        i <= s.len(),
    ensures
        agrees(r, region_region_anchor_at(s@, i as int)),
        r matches Some(p) ==> i < p.1 <= s.len(),
{
    match lit_exec(s, i, "regionanchor:") {
        Some(a) => anchor_at_exec(s, a),
        None => None,
    }
}

fn region_viewport_anchor_exec(s: &Vec<char>, i: usize) -> (r: Option<(crate::vtt::Anchor, usize)>)
    requires
        i <= s.len(),
    ensures
        agrees(r, region_viewport_anchor_at(s@, i as int)),
        r matches Some(p) ==> i < p.1 <= s.len(),
{
    match lit_exec(s, i, "viewportanchor:") {
        Some(a) => anchor_at_exec(s, a),
        None => None,
    }
}

fn region_scroll_exec(s: &Vec<char>, i: usize) -> (r: Option<(Scroll, usize)>)
    requires
        i <= s.len(),
    ensures
        agrees(r, region_scroll_at(s@, i as int)),
        r matches Some(p) ==> i <= p.1 <= s.len(),
{
    match lit_exec(s, i, "scroll:up") {
        Some(e) => Some((Scroll::Up, e)),
        None => None,
    }
}

pub fn region_at_exec(s: &Vec<char>, i: usize) -> (r: Option<(VttRegion, usize)>)
    requires
        i <= s.len(),
    ensures
        agrees(r, region_at(s@, i as int)),
        r matches Some(p) ==> i < p.1 <= s.len(),
{
    let a = match lit_exec(s, i, "REGION") {
        Some(a) => a,
        None => {
            return None;
        },
    };
    let b = scan(s, a, Class::Ws);
    let c = match newline_at(s, b) {
        Some(c) => c,
        None => {
            return None;
        },
    };
    let mut acc = VttRegion::default();
    let f = match sequence_at_exec(s, c) {
        Some((_, f)) => f,
        None => {
            return match newline_at(s, c) {
                Some(g) => Some((acc, g)),
                None => None,
            };
        },
    };
    if !apply_region_token_exec(s, c, f, &mut acc) {
        return None;
    }
    let mut e = f;
    loop
        invariant
            i < c < e <= s.len(),
            region_at(s@, i as int) == (match region_after(s@, e as int, acc@) {
                Some((r, d)) => match newline_end(s@, d) {
                    Some(g) => Some((r, g)),
                    None => None,
                },
                None => None,
            }),
        decreases s.len() - e,
    {
        let next = match newline_at(s, e) {
            Some(w) => match sequence_at_exec(s, w) {
                Some((_, g)) => Some((w, g)),
                None => None,
            },
            None => None,
        };
        match next {
            Some((w, g)) => {
                if !apply_region_token_exec(s, w, g, &mut acc) {
                    return None;
                }
                e = g;
            },
            None => {
                return match newline_at(s, e) {
                    Some(g) => Some((acc, g)),
                    None => None,
                };
            },
        }
    }
}

pub fn block_at_exec(s: &Vec<char>, i: usize) -> (r: Option<(VttBlock, usize)>)
    requires
        i <= s.len(),
    ensures
        agrees(r, block_at(s@, i as int)),
        r matches Some(p) ==> i < p.1 <= s.len(),
{
    proof {
        reveal(block_at);
    }
    if let Some((q, e)) = cue_at_exec(s, i) {
        return Some((VttBlock::Que(q), e));
    }
    if let Some((c, e)) = comment_at_exec(s, i) {
        return Some((VttBlock::Comment(c), e));
    }
    if let Some((t, e)) = style_at_exec(s, i) {
        return Some((VttBlock::Style(t), e));
    }
    if let Some((r, e)) = region_at_exec(s, i) {
        return Some((VttBlock::Region(r), e));
    }
    None
}

pub fn header_at_exec(s: &Vec<char>, i: usize) -> (r: Option<(VttHeader, usize)>)
    requires
        i <= s.len(),
    ensures
        agrees(r, header_at(s@, i as int)),
        r matches Some(p) ==> i < p.1 <= s.len(),
{
    proof {
        reveal(header_at);
    }
    let a = match lit_exec(s, i, "WEBVTT") {
        Some(a) => a,
        None => {
            return None;
        },
    };
    let b = scan(s, a, Class::Ws);
    if let Some(c) = newline_at(s, b) {
        if let Some((t, d)) = text_block_at_exec(s, c) {
            return Some((VttHeader { description: Some(VttDescription::Below(t)) }, d));
        }
    }
    match text_block_at_exec(s, b) {
        Some((t, d)) => Some((VttHeader { description: Some(VttDescription::Side(t)) }, d)),
        None => match newline_at(s, b) {
            Some(c) => Some((VttHeader { description: None }, c)),
            None => None,
        },
    }
}

fn blocks_exec(s: &Vec<char>, i: usize) -> (r: (Vec<VttBlock>, usize))
    requires
        i <= s.len(),
    ensures
        (blocks_view(r.0@), r.1 as int) == blocks_at(s@, i as int),
        i <= r.1 <= s.len(),
{
    let mut acc: Vec<VttBlock> = Vec::new();
    let mut j: usize;
    match block_at_exec(s, i) {
        Some((b, k)) => {
            acc.push(b);
            j = k;
        },
        None => {
            proof {
                assert(blocks_view(acc@) =~= Seq::empty());
            }
            return (acc, i);
        },
    }
    proof {
        assert(blocks_view(acc@) =~= seq![acc@[0]@]);
    }
    loop
        invariant
            i <= j <= s.len(),
            blocks_at(s@, i as int) == (blocks_view(acc@) + blocks_after(s@, j as int).0,
                blocks_after(s@, j as int).1),
        decreases s.len() - j,
    {
        let n = scan(s, j, Class::Nl);
        if n > j {
            match block_at_exec(s, n) {
                Some((b, k)) => {
                    let ghost old_acc = acc@;
                    let ghost rest = blocks_after(s@, k as int).0;
                    acc.push(b);
                    proof {
                        assert(blocks_view(acc@) =~= blocks_view(old_acc).push(b@));
                        assert(blocks_view(old_acc) + (seq![b@] + rest) =~= blocks_view(acc@) + rest);
                    }
                    j = k;
                },
                None => {
                    proof {
                        assert(blocks_view(acc@) + Seq::empty() =~= blocks_view(acc@));
                    }
                    return (acc, j);
                },
            }
        } else {
            proof {
                assert(blocks_view(acc@) + Seq::empty() =~= blocks_view(acc@));
            }
            return (acc, j);
        }
    }
}

/// Parses a whole document.
pub fn vtt_exec(s: &Vec<char>) -> (r: Result<WebVtt, ParseError>)
    ensures
        match r {
            Ok(d) => vtt_doc(s@) == Some(d@),
            Err(e) => vtt_doc(s@) is None && e.location@ == location_text(s@, vtt_failure(s@).0)
                && e.expected@ == vtt_failure(s@).1,
        },
{
    let (header, a) = match header_at_exec(s, 0) {
        Some(p) => p,
        None => {
            return match lit_exec(s, 0, "WEBVTT") {
                Some(a) => {
                    let w = scan(s, a, Class::Ws);
                    Err(ParseError::at(s, w, "newline or description"))
                },
                None => Err(ParseError::at(s, 0, "WEBVTT")),
            };
        },
    };
    let b = match newline_at(s, a) {
        Some(b) => b,
        None => {
            return Err(ParseError::at(s, a, "blank line after the header"));
        },
    };
    let c0 = scan(s, b, Class::Blank);
    let (blocks, d) = blocks_exec(s, c0);
    let c = scan(s, d, Class::Blank);
    if c == s.len() && blocks.len() > 0 {
        return Ok(WebVtt { header, blocks });
    }
    let j = if blocks.len() == 0 { c0 } else { scan(s, d, Class::Nl) };
    if blocks.len() == 0 || j > d {
        let (p, x) = block_failure_exec(s, j);
        if p >= c {
            return Err(ParseError::at(s, p, x));
        }
    }
    Err(ParseError::at(s, c, "end of input"))
}

fn cue_body_failure_exec(s: &Vec<char>, b: usize) -> (r: (usize, &'static str))
    requires
        b <= s.len(),
    ensures
        r.0 as int == cue_body_failure(s@, b as int).0,
        r.1@ == cue_body_failure(s@, b as int).1,
        r.0 <= s.len(),
{
    let c = scan(s, b, Class::Ws);
    match newline_at(s, c) {
        Some(f) => (scan(s, f, Class::Ws), "cue text"),
        None => if c > b {
            match cue_settings_exec(s, c) {
                None => (c, "cue setting"),
                Some((_, d)) => (scan(s, d, Class::Ws), "newline"),
            }
        } else {
            (c, "newline")
        },
    }
}

fn block_failure_exec(s: &Vec<char>, j: usize) -> (r: (usize, &'static str))
    requires
        j <= s.len(),
    ensures
        r.0 as int == block_failure(s@, j as int).0,
        r.1@ == block_failure(s@, j as int).1,
        r.0 <= s.len(),
{
    if let Some(a) = lit_exec(s, j, "NOTE") {
        return (scan(s, a, Class::Ws), "comment text");
    }
    if let Some(a) = lit_exec(s, j, "STYLE") {
        return (scan(s, a, Class::Ws), "newline and style text");
    }
    if let Some(a) = lit_exec(s, j, "REGION") {
        return (scan(s, a, Class::Ws), "newline and region settings");
    }
    let a = scan(s, j, Class::Ws);
    match timings_at_exec(s, a) {
        Some((_, b)) => cue_body_failure_exec(s, b),
        None => match line_at_exec(s, a) {
            Some((_, b)) => {
                let t = scan(s, b, Class::Ws);
                match timings_at_exec(s, t) {
                    Some((_, e)) => cue_body_failure_exec(s, e),
                    None => (t, "cue timings"),
                }
            },
            None => (a, "cue identifier or timings"),
        },
    }
}

} // verus!

verus! {

/// Reads the whole of `text` as one timestamp, with or without hours.
pub fn timestamp(text: &str) -> (r: Result<VttTimestamp, ParseError>)
    ensures
        accepts(r, timestamp_at(text@, 0), text@.len() as int),
{
    let s = chars_of(text);
    finish(&s, timestamp_at_exec(&s, 0), "timestamp")
}

/// Reads the whole of `text` as cue timings.
pub fn timings(text: &str) -> (r: Result<VttTimings, ParseError>)
    ensures
        accepts(r, timings_at(text@, 0), text@.len() as int),
{
    let s = chars_of(text);
    finish(&s, timings_at_exec(&s, 0), "timings")
}

/// Reads the whole of `text` as a region setting of a cue.
pub fn cue_region(text: &str) -> (r: Result<String, ParseError>)
    ensures
        accepts(r, cue_region_at(text@, 0), text@.len() as int),
{
    let s = chars_of(text);
    finish(&s, cue_region_exec(&s, 0), "region setting")
}

/// Reads the whole of `text` as a vertical setting of a cue.
pub fn cue_vertical(text: &str) -> (r: Result<Vertical, ParseError>)
    ensures
        accepts(r, cue_vertical_at(text@, 0), text@.len() as int),
{
    let s = chars_of(text);
    finish(&s, cue_vertical_exec(&s, 0), "vertical setting")
}

/// Reads the whole of `text` as a line setting of a cue.
pub fn cue_line(text: &str) -> (r: Result<Line, ParseError>)
    ensures
        accepts(r, cue_line_at(text@, 0), text@.len() as int),
{
    let s = chars_of(text);
    finish(&s, cue_line_exec(&s, 0), "line setting")
}

/// Reads the whole of `text` as a position setting of a cue.
pub fn cue_position(text: &str) -> (r: Result<Position, ParseError>)
    ensures
        accepts(r, cue_position_at(text@, 0), text@.len() as int),
{
    let s = chars_of(text);
    finish(&s, cue_position_exec(&s, 0), "position setting")
}

/// Reads the whole of `text` as a size setting of a cue.
pub fn cue_size(text: &str) -> (r: Result<crate::vtt::Percentage, ParseError>)
    ensures
        accepts(r, cue_size_at(text@, 0), text@.len() as int),
{
    let s = chars_of(text);
    finish(&s, cue_size_exec(&s, 0), "size setting")
}

/// Reads the whole of `text` as an align setting of a cue.
pub fn cue_align(text: &str) -> (r: Result<Alignment, ParseError>)
    ensures
        accepts(r, cue_align_at(text@, 0), text@.len() as int),
{
    let s = chars_of(text);
    finish(&s, cue_align_exec(&s, 0), "align setting")
}

/// Reads the whole of `text` as the settings of a cue, in any order.
pub fn cue_settings(text: &str) -> (r: Result<CueSettings, ParseError>)
    ensures
        accepts(r, cue_settings_at(text@, 0), text@.len() as int),
{
    let s = chars_of(text);
    finish(&s, cue_settings_exec(&s, 0), "cue settings")
}

/// Reads the whole of `text` as one cue.
pub fn cue(text: &str) -> (r: Result<VttQue, ParseError>)
    ensures
        accepts(r, cue_at(text@, 0), text@.len() as int),
{
    let s = chars_of(text);
    finish(&s, cue_at_exec(&s, 0), "cue")
}

/// Reads the whole of `text` as one comment block.
pub fn comment(text: &str) -> (r: Result<VttComment, ParseError>)
    ensures
        accepts(r, comment_at(text@, 0), text@.len() as int),
{
    let s = chars_of(text);
    finish(&s, comment_at_exec(&s, 0), "comment")
}

/// Reads the whole of `text` as a header.
pub fn header(text: &str) -> (r: Result<VttHeader, ParseError>)
    ensures
        accepts(r, header_at(text@, 0), text@.len() as int),
{
    let s = chars_of(text);
    finish(&s, header_at_exec(&s, 0), "header")
}

/// Reads the whole of `text` as one style block.
pub fn style(text: &str) -> (r: Result<VttStyle, ParseError>)
    ensures
        accepts(r, style_at(text@, 0), text@.len() as int),
{
    let s = chars_of(text);
    finish(&s, style_at_exec(&s, 0), "style")
}

/// Reads the whole of `text` as an id setting of a region.
pub fn region_id(text: &str) -> (r: Result<String, ParseError>)
    ensures
        accepts(r, region_id_at(text@, 0), text@.len() as int),
{
    let s = chars_of(text);
    finish(&s, region_id_exec(&s, 0), "region id")
}

/// Reads the whole of `text` as a width setting of a region.
pub fn region_width(text: &str) -> (r: Result<crate::vtt::Percentage, ParseError>)
    ensures
        accepts(r, region_width_at(text@, 0), text@.len() as int),
{
    let s = chars_of(text);
    finish(&s, region_width_exec(&s, 0), "region width")
}

/// Reads the whole of `text` as a lines setting of a region.
pub fn region_lines(text: &str) -> (r: Result<u32, ParseError>)
    ensures
        accepts(r, region_lines_at(text@, 0), text@.len() as int),
{
    let s = chars_of(text);
    finish(&s, region_lines_exec(&s, 0), "region lines")
}

/// Reads the whole of `text` as a region anchor setting of a region.
pub fn region_region_anchor(text: &str) -> (r: Result<crate::vtt::Anchor, ParseError>)
    ensures
        accepts(r, region_region_anchor_at(text@, 0), text@.len() as int),
{
    let s = chars_of(text);
    finish(&s, region_region_anchor_exec(&s, 0), "region anchor")
}

/// Reads the whole of `text` as a viewport anchor setting of a region.
pub fn region_viewport_anchor(text: &str) -> (r: Result<crate::vtt::Anchor, ParseError>)
    ensures
        accepts(r, region_viewport_anchor_at(text@, 0), text@.len() as int),
{
    let s = chars_of(text);
    finish(&s, region_viewport_anchor_exec(&s, 0), "viewport anchor")
}

/// Reads the whole of `text` as a scroll setting of a region.
pub fn region_scroll(text: &str) -> (r: Result<Scroll, ParseError>)
    ensures
        accepts(r, region_scroll_at(text@, 0), text@.len() as int),
{
    let s = chars_of(text);
    finish(&s, region_scroll_exec(&s, 0), "scroll")
}

/// Reads the whole of `text` as one region block.
pub fn region(text: &str) -> (r: Result<VttRegion, ParseError>)
    ensures
        accepts(r, region_at(text@, 0), text@.len() as int),
{
    let s = chars_of(text);
    finish(&s, region_at_exec(&s, 0), "region")
}

/// Reads the whole of `text` as one block.
pub fn block(text: &str) -> (r: Result<VttBlock, ParseError>)
    ensures
        accepts(r, block_at(text@, 0), text@.len() as int),
{
    let s = chars_of(text);
    finish(&s, block_at_exec(&s, 0), "block")
}

/// Reads the whole of `text` as a document.
pub fn vtt(text: &str) -> (r: Result<WebVtt, ParseError>)
    ensures
        match r {
            Ok(d) => vtt_doc(text@) == Some(d@),
            Err(e) => vtt_doc(text@) is None,
        },
{
    let s = chars_of(text);
    vtt_exec(&s)
}

} // verus!
