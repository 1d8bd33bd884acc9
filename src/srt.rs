//! The SubRip Subtitle (`.srt`) format: its data model and its rendering.
use vstd::prelude::*;
use crate::error::ParseError;
use crate::general::views;
use crate::srt_parser::{srt_doc, srt_exec, srt_failure};
use crate::error::location_text;
use crate::text::{chars_of, dec, dec2, dec3, push_dec, push_dec2, push_dec3, push_str};

verus! {

/// A timestamp: hours, minutes, seconds and milliseconds.
#[derive(Debug, Clone, Copy, PartialEq, Eq, Structural, PartialOrd, Ord, Hash)]
pub struct SrtTimestamp {
    pub hours: u8,
    pub minutes: u8,
    pub seconds: u8,
    pub milliseconds: u16,
}

impl View for SrtTimestamp {
    type V = SrtTimestamp;

    open spec fn view(&self) -> SrtTimestamp {
        *self
    }
}

/// `HH:MM:SS,mmm`.
pub open spec fn timestamp_text(t: SrtTimestamp) -> Seq<char> {
    dec2(t.hours as nat) + seq![':'] + dec2(t.minutes as nat) + seq![':'] + dec2(t.seconds as nat)
        + seq![','] + dec3(t.milliseconds as nat)
}

/// The number of milliseconds from zero to `t`.
pub open spec fn timestamp_millis(t: SrtTimestamp) -> nat {
    ((t.hours as nat * 60 + t.minutes as nat) * 60 + t.seconds as nat) * 1000 + t.milliseconds as nat
}

impl Default for SrtTimestamp {
    fn default() -> (r: SrtTimestamp)
        ensures
            r == (SrtTimestamp { hours: 0, minutes: 0, seconds: 0, milliseconds: 0 }),
    {
        SrtTimestamp { hours: 0, minutes: 0, seconds: 0, milliseconds: 0 }
    }
}

impl SrtTimestamp {
    /// Renders as `HH:MM:SS,mmm`.
    pub fn to_string(&self) -> (r: String)
        ensures
            r@ == timestamp_text(*self),
    {
        let mut out = String::new();
        self.write_to(&mut out);
        proof {
            assert(out@ =~= timestamp_text(*self));
        }
        out
    }

    pub fn write_to(&self, out: &mut String)
        ensures
            final(out)@ == old(out)@ + timestamp_text(*self),
    {
        proof {
            reveal_strlit(":");
            reveal_strlit(",");
        }
        push_dec2(out, self.hours as u64);
        push_str(out, ":");
        push_dec2(out, self.minutes as u64);
        push_str(out, ":");
        push_dec2(out, self.seconds as u64);
        push_str(out, ",");
        push_dec3(out, self.milliseconds as u64);
        proof {
            assert(final(out)@ =~= old(out)@ + timestamp_text(*self));
        }
    }

    /// The timestamp a duration of `secs` seconds and `nanos` nanoseconds
    /// after zero reads as; the hours wrap around at 256, further
    /// nanoseconds than whole milliseconds are dropped.
    pub fn from_duration(secs: u64, nanos: u32) -> (r: SrtTimestamp)
        requires
            nanos < 1_000_000_000,
        ensures
            r.hours == (secs / 3600) % 256,
            r.minutes == (secs % 3600) / 60,
            r.seconds == secs % 60,
            r.milliseconds == nanos / 1_000_000,
    {
        SrtTimestamp {
            hours: ((secs / 3600) % 256) as u8,
            minutes: ((secs % 3600) / 60) as u8,
            seconds: (secs % 60) as u8,
            milliseconds: (nanos / 1_000_000) as u16,
        }
    }

    /// The duration from zero to this timestamp, as whole seconds and the
    /// nanoseconds beyond them.
    pub fn to_duration(&self) -> (r: (u64, u32))
        ensures
            r.0 as nat * 1000 + r.1 as nat / 1_000_000 == timestamp_millis(*self),
            r.1 < 1_000_000_000,
            r.1 % 1_000_000 == 0,
    {
        let ms = self.milliseconds as u64;
        let secs = (self.hours as u64) * 3600 + (self.minutes as u64) * 60 + self.seconds as u64 + ms
            / 1000;
        let nanos = ((ms % 1000) * 1_000_000) as u32;
        (secs, nanos)
    }
}

/// The unofficial line position of a subtitle.
#[derive(Debug, Clone, Copy, PartialEq, Eq, Structural, PartialOrd, Ord, Hash)]
pub struct LinePosition {
    pub x1: u32,
    pub x2: u32,
    pub y1: u32,
    pub y2: u32,
}

/// `X1:x1 X2:x2 Y1:y1 Y2:y2`.
pub open spec fn line_position_text(p: LinePosition) -> Seq<char> {
    seq!['X', '1', ':'] + dec(p.x1 as nat) + seq![' ', 'X', '2', ':'] + dec(p.x2 as nat) + seq![
        ' ',
        'Y',
        '1',
        ':',
    ] + dec(p.y1 as nat) + seq![' ', 'Y', '2', ':'] + dec(p.y2 as nat)
}

impl Default for LinePosition {
    fn default() -> (r: LinePosition)
        ensures
            r == (LinePosition { x1: 0, x2: 0, y1: 0, y2: 0 }),
    {
        LinePosition { x1: 0, x2: 0, y1: 0, y2: 0 }
    }
}

impl LinePosition {
    /// Renders as `X1:x1 X2:x2 Y1:y1 Y2:y2`.
    pub fn to_string(&self) -> (r: String)
        ensures
            r@ == line_position_text(*self),
    {
        proof {
            reveal_strlit("X1:");
            reveal_strlit(" X2:");
            reveal_strlit(" Y1:");
            reveal_strlit(" Y2:");
        }
        let mut out = String::new();
        push_str(&mut out, "X1:");
        push_dec(&mut out, self.x1 as u128);
        push_str(&mut out, " X2:");
        push_dec(&mut out, self.x2 as u128);
        push_str(&mut out, " Y1:");
        push_dec(&mut out, self.y1 as u128);
        push_str(&mut out, " Y2:");
        push_dec(&mut out, self.y2 as u128);
        proof {
            assert(out@ =~= line_position_text(*self));
        }
        out
    }
}

/// A subtitle entry as a mathematical value.
pub struct SubtitleView {
    pub sequence: u32,
    pub start: SrtTimestamp,
    pub end: SrtTimestamp,
    pub text: Seq<Seq<char>>,
    pub line_position: Option<LinePosition>,
}

/// A subtitle entry. Entries are equal, and ordered, by their sequence
/// number alone.
#[derive(Debug, Clone, Hash)]
pub struct SrtSubtitle {
    /// The sequence number.
    pub sequence: u32,
    /// The start timestamp.
    pub start: SrtTimestamp,
    /// The end timestamp.
    pub end: SrtTimestamp,
    /// The lines of text.
    pub text: Vec<String>,
    /// The unofficial line position; never read nor written in text.
    pub line_position: Option<LinePosition>,
}

impl View for SrtSubtitle {
    type V = SubtitleView;

    open spec fn view(&self) -> SubtitleView {
        SubtitleView {
            sequence: self.sequence,
            start: self.start,
            end: self.end,
            text: views(self.text@),
            line_position: self.line_position,
        }
    }
}

impl PartialEq for SrtSubtitle {
    fn eq(&self, other: &SrtSubtitle) -> (r: bool)
        ensures
            r == (self.sequence == other.sequence),
    {
        self.sequence == other.sequence
    }
}

impl vstd::std_specs::cmp::PartialEqSpecImpl for SrtSubtitle {
    open spec fn obeys_eq_spec() -> bool {
        true
    }

    open spec fn eq_spec(&self, other: &SrtSubtitle) -> bool {
        self.sequence == other.sequence
    }
}

impl Eq for SrtSubtitle {
}

impl PartialOrd for SrtSubtitle {
    fn partial_cmp(&self, other: &SrtSubtitle) -> (r: Option<core::cmp::Ordering>)
        ensures
            r == Some(sequence_order(self.sequence, other.sequence)),
    {
        if self.sequence < other.sequence {
            Some(core::cmp::Ordering::Less)
        } else if self.sequence > other.sequence {
            Some(core::cmp::Ordering::Greater)
        } else {
            Some(core::cmp::Ordering::Equal)
        }
    }
}

/// How two sequence numbers compare.
pub open spec fn sequence_order(a: u32, b: u32) -> core::cmp::Ordering {
    if a < b {
        core::cmp::Ordering::Less
    } else if a > b {
        core::cmp::Ordering::Greater
    } else {
        core::cmp::Ordering::Equal
    }
}

impl vstd::std_specs::cmp::PartialOrdSpecImpl for SrtSubtitle {
    open spec fn obeys_partial_cmp_spec() -> bool {
        true
    }

    open spec fn partial_cmp_spec(&self, other: &SrtSubtitle) -> Option<core::cmp::Ordering> {
        Some(sequence_order(self.sequence, other.sequence))
    }
}

impl Default for SrtSubtitle {
    fn default() -> (r: SrtSubtitle)
        ensures
            r@ == (SubtitleView {
                sequence: 0,
                start: SrtTimestamp { hours: 0, minutes: 0, seconds: 0, milliseconds: 0 },
                end: SrtTimestamp { hours: 0, minutes: 0, seconds: 0, milliseconds: 0 },
                text: Seq::empty(),
                line_position: None,
            }),
    {
        let r = SrtSubtitle {
            sequence: 0,
            start: SrtTimestamp::default(),
            end: SrtTimestamp::default(),
            text: Vec::new(),
            line_position: None,
        };
        proof {
            assert(views(r.text@) =~= Seq::empty());
        }
        r
    }
}

/// The lines from index `k` on, each followed by a newline.
pub open spec fn lines_text(ls: Seq<Seq<char>>, k: int) -> Seq<char>
    decreases ls.len() - k,
{
    if k < 0 || k >= ls.len() {
        Seq::empty()
    } else {
        ls[k] + seq!['\n'] + lines_text(ls, k + 1)
    }
}

/// The lines joined by newlines, with a final newline.
pub open spec fn body_text(ls: Seq<Seq<char>>) -> Seq<char> {
    if ls.len() == 0 {
        seq!['\n']
    } else {
        lines_text(ls, 0)
    }
}

/// `sequence`, newline, `start --> end`, newline, the lines joined by
/// newlines, newline.
pub open spec fn subtitle_text(e: SubtitleView) -> Seq<char> {
    dec(e.sequence as nat) + seq!['\n'] + timestamp_text(e.start) + seq![' ', '-', '-', '>', ' ']
        + timestamp_text(e.end) + seq!['\n'] + body_text(e.text)
}

impl SrtSubtitle {
    /// Renders the entry, ending with a newline.
    pub fn to_string(&self) -> (r: String)
        ensures
            r@ == subtitle_text(self@),
    {
        let mut out = String::new();
        self.write_to(&mut out);
        proof {
            assert(out@ =~= subtitle_text(self@));
        }
        out
    }

    pub fn write_to(&self, out: &mut String)
        ensures
            final(out)@ == old(out)@ + subtitle_text(self@),
    {
        proof {
            reveal_strlit("\n");
            reveal_strlit(" --> ");
            assert("\n"@ =~= seq!['\n']);
        }
        let ghost start = out@;
        push_dec(out, self.sequence as u128);
        push_str(out, "\n");
        self.start.write_to(out);
        push_str(out, " --> ");
        self.end.write_to(out);
        push_str(out, "\n");
        let ghost head = out@;
        let ghost ls = self@.text;
        if self.text.len() == 0 {
            push_str(out, "\n");
        } else {
            let mut k: usize = 0;
            while k < self.text.len()
                invariant
                    k <= self.text.len(),
                    ls == views(self.text@),
                    out@ + lines_text(ls, k as int) == head + lines_text(ls, 0),
                decreases self.text.len() - k,
            {
                let ghost before = out@;
                push_str(out, self.text[k].as_str());
                push_str(out, "\n");
                proof {
                    reveal_strlit("\n");
                    assert("\n"@ =~= seq!['\n']);
                    assert(ls[k as int] == self.text@[k as int]@);
                    assert(lines_text(ls, k as int) == ls[k as int] + seq!['\n'] + lines_text(ls, k + 1));
                    assert(out@ + lines_text(ls, k + 1) =~= before + lines_text(ls, k as int));
                }
                k = k + 1;
            }
            proof {
                assert(out@ + Seq::<char>::empty() =~= out@);
            }
        }
        proof {
            assert(final(out)@ =~= start + subtitle_text(self@));
        }
    }
}

/// A SubRip document as a mathematical value: its entries, in order.
pub open spec fn subtitles_view(v: Seq<SrtSubtitle>) -> Seq<SubtitleView> {
    v.map_values(|e: SrtSubtitle| e@)
}

/// Entries from index `k` on, each preceded by a newline.
pub open spec fn tail_text(es: Seq<SubtitleView>, k: int) -> Seq<char>
    decreases es.len() - k,
{
    if k < 0 || k >= es.len() {
        Seq::empty()
    } else {
        seq!['\n'] + subtitle_text(es[k]) + tail_text(es, k + 1)
    }
}

/// The entries rendered one after the other, separated by blank lines.
pub open spec fn document_text(es: Seq<SubtitleView>) -> Seq<char> {
    if es.len() == 0 {
        Seq::empty()
    } else {
        subtitle_text(es[0]) + tail_text(es, 1)
    }
}

/// A SubRip subtitle document.
#[derive(Debug, Clone, Hash)]
pub struct SubRip {
    /// The entries, in order.
    pub subtitles: Vec<SrtSubtitle>,
}

impl View for SubRip {
    type V = Seq<SubtitleView>;

    open spec fn view(&self) -> Seq<SubtitleView> {
        subtitles_view(self.subtitles@)
    }
}

/// Documents are equal when they have as many entries, with the same
/// sequence numbers in the same order.
pub open spec fn same_sequences(a: Seq<SrtSubtitle>, b: Seq<SrtSubtitle>) -> bool {
    a.len() == b.len() && forall|k: int| 0 <= k < a.len() ==> a[k].sequence == b[k].sequence
}

impl PartialEq for SubRip {
    fn eq(&self, other: &SubRip) -> (r: bool)
        ensures
            r == same_sequences(self.subtitles@, other.subtitles@),
    {
        if self.subtitles.len() != other.subtitles.len() {
            return false;
        }
        let mut k: usize = 0;
        while k < self.subtitles.len()
            invariant
                k <= self.subtitles.len() == other.subtitles.len(),
                forall|m: int| 0 <= m < k ==> self.subtitles@[m].sequence == other.subtitles@[m].sequence,
            decreases self.subtitles.len() - k,
        {
            if self.subtitles[k].sequence != other.subtitles[k].sequence {
                return false;
            }
            k = k + 1;
        }
        true
    }
}

impl Eq for SubRip {
}

impl vstd::std_specs::cmp::PartialEqSpecImpl for SubRip {
    open spec fn obeys_eq_spec() -> bool {
        true
    }

    open spec fn eq_spec(&self, other: &SubRip) -> bool {
        same_sequences(self.subtitles@, other.subtitles@)
    }
}

impl Default for SubRip {
    fn default() -> (r: SubRip)
        ensures
            r@ == Seq::<SubtitleView>::empty(),
    {
        let r = SubRip { subtitles: Vec::new() };
        proof {
            assert(r@ =~= Seq::<SubtitleView>::empty());
        }
        r
    }
}

impl SubRip {
    /// Parses a SubRip document. It fails exactly when `text` is not a
    /// document of the grammar, and then reports the furthest point where
    /// reading failed and what was expected there.
    pub fn parse(text: &str) -> (r: Result<SubRip, ParseError>)
        ensures
            match r {
                Ok(d) => srt_doc(text@) == Some(d@),
                Err(e) => srt_doc(text@) is None && e.location@ == location_text(text@, srt_failure(text@).0)
                    && e.expected@ == srt_failure(text@).1,
            },
    {
        let s = chars_of(text);
        srt_exec(&s)
    }

    /// Renders the document: the entries, separated by blank lines.
    pub fn render(&self) -> (r: String)
        ensures
            r@ == document_text(self@),
    {
        let mut out = String::new();
        let ghost es = self@;
        let mut k: usize = 0;
        while k < self.subtitles.len()
            invariant
                k <= self.subtitles.len(),
                es == self@,
                out@ + (if k == 0 { document_text(es) } else { tail_text(es, k as int) }) == document_text(es),
            decreases self.subtitles.len() - k,
        {
            let ghost before = out@;
            if k > 0 {
                proof { reveal_strlit("\n"); }
                push_str(&mut out, "\n");
            }
            self.subtitles[k].write_to(&mut out);
            proof {
                assert(es[k as int] == self.subtitles@[k as int]@);
                if k == 0 {
                    assert(out@ + tail_text(es, 1) =~= before + document_text(es));
                } else {
                    assert(out@ + tail_text(es, k + 1) =~= before + tail_text(es, k as int));
                }
            }
            k = k + 1;
        }
        proof {
            if k == 0 {
                assert(es.len() == 0);
            }
            assert(out@ + Seq::<char>::empty() =~= out@);
        }
        out
    }

    /// The same as `render`.
    pub fn to_string(&self) -> (r: String)
        ensures
            r@ == document_text(self@),
    {
        self.render()
    }

    /// Takes out the first entry, if any.
    pub fn next(&mut self) -> (r: Option<SrtSubtitle>)
        ensures
            old(self)@.len() == 0 ==> r is None && final(self)@ == old(self)@,
            old(self)@.len() > 0 ==> (r matches Some(e) && e@ == old(self)@[0]),
            old(self)@.len() > 0 ==> final(self)@ == old(self)@.drop_first(),
    {
        if self.subtitles.len() == 0 {
            None
        } else {
            let e = self.subtitles.remove(0);
            proof {
                assert(self@ =~= old(self)@.drop_first());
            }
            Some(e)
        }
    }
}

} // verus!
