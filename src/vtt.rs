//! The WebVTT (`.vtt`) format: its data model and its rendering.
use vstd::prelude::*;
use crate::error::ParseError;
use crate::general::views;
use crate::srt::{body_text, lines_text};
use crate::text::{
    chars_of, dec, dec2, dec3, dec_int, digit_char, pow10, push_dec, push_dec2, push_dec3, push_int,
    push_str,
};
use crate::vtt_parser::{vtt_doc, vtt_exec, vtt_failure};
use crate::error::location_text;

verus! {

/// A percentage between 0% and 100%, held in millionths of a percent
/// (`1_000_000` is 1%).
#[derive(Debug, Clone, Copy, PartialEq, Eq, Structural, Hash)]
pub struct Percentage {
    /// The value, in millionths of a percent.
    pub value: u32,
}

impl View for Percentage {
    type V = Percentage;

    open spec fn view(&self) -> Percentage {
        *self
    }
}

/// Number of the six fraction digits of `f` (under a million) that are left
/// once trailing zeros are dropped.
pub open spec fn significant(f: nat, n: nat) -> nat
    decreases n,
{
    if n > 0 && f % 10 == 0 {
        significant(f / 10, (n - 1) as nat)
    } else {
        n
    }
}

/// The first `n` of the six digits of `f`, zero-padded on the left.
pub open spec fn fraction_digits(f: nat, n: nat) -> Seq<char>
    decreases n,
{
    if n == 0 {
        Seq::empty()
    } else {
        fraction_digits(f, (n - 1) as nat).push(digit_char((f / pow10((6 - n) as nat)) % 10))
    }
}

/// The percentage in decimal, without trailing zeros in the fraction nor a
/// period when it is whole, followed by `%`.
pub open spec fn percentage_text(p: Percentage) -> Seq<char> {
    let whole = p.value as nat / 1_000_000;
    let f = p.value as nat % 1_000_000;
    if f == 0 {
        dec(whole) + seq!['%']
    } else {
        dec(whole) + seq!['.'] + fraction_digits(f, significant(f, 6)) + seq!['%']
    }
}

impl Default for Percentage {
    fn default() -> (r: Percentage)
        ensures
            r.value == 0,
    {
        Percentage { value: 0 }
    }
}

impl Percentage {
    /// A whole percentage.
    pub fn whole(p: u32) -> (r: Percentage)
        requires
            p <= 100,
        ensures
            r.value == p * 1_000_000,
    {
        Percentage { value: p * 1_000_000 }
    }

    pub fn write_to(&self, out: &mut String)
        ensures
            final(out)@ == old(out)@ + percentage_text(*self),
    {
        proof {
            reveal_strlit("%");
            reveal_strlit(".");
        }
        let whole = self.value / 1_000_000;
        let f = self.value % 1_000_000;
        push_dec(out, whole as u128);
        if f != 0 {
            push_str(out, ".");
            let mut n: u32 = 6;
            let mut g = f;
            while n > 0 && g % 10 == 0
                invariant
                    n <= 6,
                    significant(f as nat, 6) == significant(g as nat, n as nat),
                decreases n,
            {
                g = g / 10;
                n = n - 1;
            }
            let ghost before = out@;
            let mut k: u32 = 0;
            let mut div: u32 = 100_000;
            proof {
                reveal_with_fuel(pow10, 7);
            }
            while k < n
                invariant
                    k <= n <= 6,
                    k < 6 ==> div as nat == pow10((5 - k) as nat),
                    1 <= div <= 100_000,
                    out@ == before + fraction_digits(f as nat, k as nat),
                    f < 1_000_000,
                decreases n - k,
            {
                proof {
                    reveal_with_fuel(pow10, 7);
                    reveal_strlit("0");
                }
                let d = (f / div) % 10;
                push_dec(out, d as u128);
                proof {
                    assert(dec(d as nat) == seq![digit_char(d as nat)]);
                    assert((6 - (k + 1)) as nat == (5 - k) as nat);
                    assert(out@ =~= before + fraction_digits(f as nat, (k + 1) as nat));
                }
                k = k + 1;
                if div >= 10 {
                    div = div / 10;
                }
                proof {
                    reveal_with_fuel(pow10, 7);
                }
            }
        }
        push_str(out, "%");
        proof {
            assert(final(out)@ =~= old(out)@ + percentage_text(*self));
        }
    }

    /// Renders as, for example, `50%` or `10.5%`.
    pub fn to_string(&self) -> (r: String)
        ensures
            r@ == percentage_text(*self),
    {
        let mut out = String::new();
        self.write_to(&mut out);
        proof {
            assert(out@ =~= percentage_text(*self));
        }
        out
    }
}

/// A point, as two percentages.
#[derive(Debug, Clone, Copy, PartialEq, Eq, Structural, Hash)]
pub struct Anchor {
    pub x: Percentage,
    pub y: Percentage,
}

impl View for Anchor {
    type V = Anchor;

    open spec fn view(&self) -> Anchor {
        *self
    }
}

/// `x,y`.
pub open spec fn anchor_text(a: Anchor) -> Seq<char> {
    percentage_text(a.x) + seq![','] + percentage_text(a.y)
}

impl Default for Anchor {
    fn default() -> (r: Anchor)
        ensures
            r.x.value == 0,
            r.y.value == 100_000_000,
    {
        Anchor { x: Percentage { value: 0 }, y: Percentage { value: 100_000_000 } }
    }
}

impl Anchor {
    /// Renders the value as it stands in a setting.
    pub fn to_string(&self) -> (r: String)
        ensures
            r@ == anchor_text(*self),
    {
        let mut out = String::new();
        self.write_to(&mut out);
        proof {
            assert(out@ =~= anchor_text(*self));
        }
        out
    }

    pub fn write_to(&self, out: &mut String)
        ensures
            final(out)@ == old(out)@ + anchor_text(*self),
    {
        proof {
            reveal_strlit(",");
        }
        self.x.write_to(out);
        push_str(out, ",");
        self.y.write_to(out);
        proof {
            assert(final(out)@ =~= old(out)@ + anchor_text(*self));
        }
    }
}

/// A timestamp: hours, minutes, seconds and milliseconds.
#[derive(Debug, Clone, Copy, PartialEq, Eq, Structural, PartialOrd, Ord, Hash)]
pub struct VttTimestamp {
    pub hours: u8,
    pub minutes: u8,
    pub seconds: u8,
    pub milliseconds: u16,
}

impl View for VttTimestamp {
    type V = VttTimestamp;

    open spec fn view(&self) -> VttTimestamp {
        *self
    }
}

/// `HH:MM:SS.mmm`: hours are always written.
pub open spec fn vtt_timestamp_text(t: VttTimestamp) -> Seq<char> {
    dec2(t.hours as nat) + seq![':'] + dec2(t.minutes as nat) + seq![':'] + dec2(t.seconds as nat)
        + seq!['.'] + dec3(t.milliseconds as nat)
}

/// Milliseconds from zero to `t`.
pub open spec fn vtt_millis(t: VttTimestamp) -> int {
    ((t.hours as int * 60 + t.minutes as int) * 60 + t.seconds as int) * 1000 + t.milliseconds as int
}

impl Default for VttTimestamp {
    fn default() -> (r: VttTimestamp)
        ensures
            r == (VttTimestamp { hours: 0, minutes: 0, seconds: 0, milliseconds: 0 }),
    {
        VttTimestamp { hours: 0, minutes: 0, seconds: 0, milliseconds: 0 }
    }
}

impl VttTimestamp {
    pub fn write_to(&self, out: &mut String)
        ensures
            final(out)@ == old(out)@ + vtt_timestamp_text(*self),
    {
        proof {
            reveal_strlit(":");
            reveal_strlit(".");
        }
        push_dec2(out, self.hours as u64);
        push_str(out, ":");
        push_dec2(out, self.minutes as u64);
        push_str(out, ":");
        push_dec2(out, self.seconds as u64);
        push_str(out, ".");
        push_dec3(out, self.milliseconds as u64);
        proof {
            assert(final(out)@ =~= old(out)@ + vtt_timestamp_text(*self));
        }
    }

    /// Renders as `HH:MM:SS.mmm`.
    pub fn to_string(&self) -> (r: String)
        ensures
            r@ == vtt_timestamp_text(*self),
    {
        let mut out = String::new();
        self.write_to(&mut out);
        proof {
            assert(out@ =~= vtt_timestamp_text(*self));
        }
        out
    }

    /// The sum of two timestamps, field by field, with carries from
    /// milliseconds to seconds, seconds to minutes and minutes to hours.
    pub fn add(self, rhs: VttTimestamp) -> (r: VttTimestamp)
        requires
            self.milliseconds < 1000 && rhs.milliseconds < 1000,
            self.seconds < 60 && rhs.seconds < 60,
            self.minutes < 60 && rhs.minutes < 60,
            vtt_millis(self) + vtt_millis(rhs) < 256 * 3_600_000,
        ensures
            vtt_millis(r) == vtt_millis(self) + vtt_millis(rhs),
            r.milliseconds < 1000 && r.seconds < 60 && r.minutes < 60,
    {
        let mut milliseconds = self.milliseconds + rhs.milliseconds;
        let mut seconds = self.seconds + rhs.seconds;
        let mut minutes = self.minutes + rhs.minutes;
        let mut hours = self.hours + rhs.hours;
        if milliseconds >= 1000 {
            milliseconds = milliseconds - 1000;
            seconds = seconds + 1;
        }
        if seconds >= 60 {
            seconds = seconds - 60;
            minutes = minutes + 1;
        }
        if minutes >= 60 {
            minutes = minutes - 60;
            hours = hours + 1;
        }
        VttTimestamp { hours, minutes, seconds, milliseconds }
    }

    /// The difference of two timestamps, field by field, with borrows from
    /// seconds to milliseconds, minutes to seconds and hours to minutes.
    pub fn sub(self, rhs: VttTimestamp) -> (r: VttTimestamp)
        requires
            self.milliseconds < 1000 && rhs.milliseconds < 1000,
            self.seconds < 60 && rhs.seconds < 60,
            self.minutes < 60 && rhs.minutes < 60,
            vtt_millis(rhs) <= vtt_millis(self),
        ensures
            vtt_millis(r) == vtt_millis(self) - vtt_millis(rhs),
            r.milliseconds < 1000 && r.seconds < 60 && r.minutes < 60,
    {
        let mut milliseconds: i32 = self.milliseconds as i32 - rhs.milliseconds as i32;
        let mut seconds: i32 = self.seconds as i32 - rhs.seconds as i32;
        let mut minutes: i32 = self.minutes as i32 - rhs.minutes as i32;
        let mut hours: i32 = self.hours as i32 - rhs.hours as i32;
        if milliseconds < 0 {
            milliseconds = milliseconds + 1000;
            seconds = seconds - 1;
        }
        if seconds < 0 {
            seconds = seconds + 60;
            minutes = minutes - 1;
        }
        if minutes < 0 {
            minutes = minutes + 60;
            hours = hours - 1;
        }
        VttTimestamp {
            hours: hours as u8,
            minutes: minutes as u8,
            seconds: seconds as u8,
            milliseconds: milliseconds as u16,
        }
    }
}

/// The start and end of a cue.
#[derive(Debug, Clone, Copy, PartialEq, Eq, Structural, Hash)]
pub struct VttTimings {
    pub start: VttTimestamp,
    pub end: VttTimestamp,
}

impl View for VttTimings {
    type V = VttTimings;

    open spec fn view(&self) -> VttTimings {
        *self
    }
}

/// `start --> end`.
pub open spec fn timings_text(t: VttTimings) -> Seq<char> {
    vtt_timestamp_text(t.start) + seq![' ', '-', '-', '>', ' '] + vtt_timestamp_text(t.end)
}

impl Default for VttTimings {
    fn default() -> (r: VttTimings)
        ensures
            r.start == (VttTimestamp { hours: 0, minutes: 0, seconds: 0, milliseconds: 0 }),
            r.end == (VttTimestamp { hours: 0, minutes: 0, seconds: 0, milliseconds: 0 }),
    {
        VttTimings { start: VttTimestamp::default(), end: VttTimestamp::default() }
    }
}

impl VttTimings {
    pub fn write_to(&self, out: &mut String)
        ensures
            final(out)@ == old(out)@ + timings_text(*self),
    {
        proof {
            reveal_strlit(" --> ");
        }
        self.start.write_to(out);
        push_str(out, " --> ");
        self.end.write_to(out);
        proof {
            assert(final(out)@ =~= old(out)@ + timings_text(*self));
        }
    }

    /// Renders as `start --> end`.
    pub fn to_string(&self) -> (r: String)
        ensures
            r@ == timings_text(*self),
    {
        let mut out = String::new();
        self.write_to(&mut out);
        proof {
            assert(out@ =~= timings_text(*self));
        }
        out
    }
}

/// The scroll setting of a region.
#[derive(Debug, Clone, Copy, PartialEq, Eq, Structural, Hash)]
pub enum Scroll {
    Up,
}

impl View for Scroll {
    type V = Scroll;

    open spec fn view(&self) -> Scroll {
        *self
    }
}

impl Default for Scroll {
    fn default() -> (r: Scroll)
        ensures
            r == Scroll::Up,
    {
        Scroll::Up
    }
}

impl Scroll {
    /// The keyword of the value.
    pub fn to_string(&self) -> (r: String)
        ensures
            r@ == seq!['u', 'p'],
    {
        proof {
            reveal_strlit("up");
        }
        let mut out = String::new();
        push_str(&mut out, "up");
        proof {
            assert(out@ =~= seq!['u', 'p']);
        }
        out
    }
}

/// The vertical setting of a cue.
#[derive(Debug, Clone, Copy, PartialEq, Eq, Structural, Hash)]
pub enum Vertical {
    Rl,
    Lr,
}

impl View for Vertical {
    type V = Vertical;

    open spec fn view(&self) -> Vertical {
        *self
    }
}

pub open spec fn vertical_text(v: Vertical) -> Seq<char> {
    match v {
        Vertical::Rl => seq!['r', 'l'],
        Vertical::Lr => seq!['l', 'r'],
    }
}

impl Default for Vertical {
    fn default() -> (r: Vertical)
        ensures
            r == Vertical::Rl,
    {
        Vertical::Rl
    }
}

impl Vertical {
    /// The keyword of the value.
    pub fn to_string(&self) -> (r: String)
        ensures
            r@ == vertical_text(*self),
    {
        let mut out = String::new();
        push_str(&mut out, self.as_str());
        proof {
            assert(out@ =~= vertical_text(*self));
        }
        out
    }

    pub fn as_str(&self) -> (r: &'static str)
        ensures
            r@ == vertical_text(*self),
    {
        proof {
            reveal_strlit("rl");
            reveal_strlit("lr");
        }
        match self {
            Vertical::Rl => "rl",
            Vertical::Lr => "lr",
        }
    }
}

/// Where a cue line is aligned.
#[derive(Debug, Clone, Copy, PartialEq, Eq, Structural, Hash)]
pub enum LineAlignment {
    Start,
    Center,
    End,
}

impl View for LineAlignment {
    type V = LineAlignment;

    open spec fn view(&self) -> LineAlignment {
        *self
    }
}

pub open spec fn line_alignment_text(a: LineAlignment) -> Seq<char> {
    match a {
        LineAlignment::Start => seq!['s', 't', 'a', 'r', 't'],
        LineAlignment::Center => seq!['c', 'e', 'n', 't', 'e', 'r'],
        LineAlignment::End => seq!['e', 'n', 'd'],
    }
}

impl Default for LineAlignment {
    fn default() -> (r: LineAlignment)
        ensures
            r == LineAlignment::Start,
    {
        LineAlignment::Start
    }
}

impl LineAlignment {
    /// The keyword of the value.
    pub fn to_string(&self) -> (r: String)
        ensures
            r@ == line_alignment_text(*self),
    {
        let mut out = String::new();
        push_str(&mut out, self.as_str());
        proof {
            assert(out@ =~= line_alignment_text(*self));
        }
        out
    }

    pub fn as_str(&self) -> (r: &'static str)
        ensures
            r@ == line_alignment_text(*self),
    {
        proof {
            reveal_strlit("start");
            reveal_strlit("center");
            reveal_strlit("end");
        }
        match self {
            LineAlignment::Start => "start",
            LineAlignment::Center => "center",
            LineAlignment::End => "end",
        }
    }
}

/// Where a cue is positioned along its line.
#[derive(Debug, Clone, Copy, PartialEq, Eq, Structural, Hash)]
pub enum PositionAlignment {
    LineLeft,
    Center,
    LineRight,
}

impl View for PositionAlignment {
    type V = PositionAlignment;

    open spec fn view(&self) -> PositionAlignment {
        *self
    }
}

pub open spec fn position_alignment_text(a: PositionAlignment) -> Seq<char> {
    match a {
        PositionAlignment::LineLeft => seq!['l', 'i', 'n', 'e', '-', 'l', 'e', 'f', 't'],
        PositionAlignment::Center => seq!['c', 'e', 'n', 't', 'e', 'r'],
        PositionAlignment::LineRight => seq!['l', 'i', 'n', 'e', '-', 'r', 'i', 'g', 'h', 't'],
    }
}

impl Default for PositionAlignment {
    fn default() -> (r: PositionAlignment)
        ensures
            r == PositionAlignment::LineLeft,
    {
        PositionAlignment::LineLeft
    }
}

impl PositionAlignment {
    /// The keyword of the value.
    pub fn to_string(&self) -> (r: String)
        ensures
            r@ == position_alignment_text(*self),
    {
        let mut out = String::new();
        push_str(&mut out, self.as_str());
        proof {
            assert(out@ =~= position_alignment_text(*self));
        }
        out
    }

    pub fn as_str(&self) -> (r: &'static str)
        ensures
            r@ == position_alignment_text(*self),
    {
        proof {
            reveal_strlit("line-left");
            reveal_strlit("center");
            reveal_strlit("line-right");
        }
        match self {
            PositionAlignment::LineLeft => "line-left",
            PositionAlignment::Center => "center",
            PositionAlignment::LineRight => "line-right",
        }
    }
}

/// How the text of a cue is aligned.
#[derive(Debug, Clone, Copy, PartialEq, Eq, Structural, Hash)]
pub enum Alignment {
    Start,
    Center,
    End,
    Left,
    Right,
}

impl View for Alignment {
    type V = Alignment;

    open spec fn view(&self) -> Alignment {
        *self
    }
}

pub open spec fn alignment_text(a: Alignment) -> Seq<char> {
    match a {
        Alignment::Start => seq!['s', 't', 'a', 'r', 't'],
        Alignment::Center => seq!['c', 'e', 'n', 't', 'e', 'r'],
        Alignment::End => seq!['e', 'n', 'd'],
        Alignment::Left => seq!['l', 'e', 'f', 't'],
        Alignment::Right => seq!['r', 'i', 'g', 'h', 't'],
    }
}

impl Default for Alignment {
    fn default() -> (r: Alignment)
        ensures
            r == Alignment::Start,
    {
        Alignment::Start
    }
}

impl Alignment {
    /// The keyword of the value.
    pub fn to_string(&self) -> (r: String)
        ensures
            r@ == alignment_text(*self),
    {
        let mut out = String::new();
        push_str(&mut out, self.as_str());
        proof {
            assert(out@ =~= alignment_text(*self));
        }
        out
    }

    pub fn as_str(&self) -> (r: &'static str)
        ensures
            r@ == alignment_text(*self),
    {
        proof {
            reveal_strlit("start");
            reveal_strlit("center");
            reveal_strlit("end");
            reveal_strlit("left");
            reveal_strlit("right");
        }
        match self {
            Alignment::Start => "start",
            Alignment::Center => "center",
            Alignment::End => "end",
            Alignment::Left => "left",
            Alignment::Right => "right",
        }
    }
}

/// The line setting of a cue: a percentage or a line number, each with an
/// optional alignment.
#[derive(Debug, Clone, Copy, PartialEq, Eq, Structural)]
pub enum Line {
    Percentage(Percentage, Option<LineAlignment>),
    LineNumber(i32, Option<LineAlignment>),
}

impl View for Line {
    type V = Line;

    open spec fn view(&self) -> Line {
        *self
    }
}

pub open spec fn opt_line_alignment_text(a: Option<LineAlignment>) -> Seq<char> {
    match a {
        Some(a) => seq![','] + line_alignment_text(a),
        None => Seq::empty(),
    }
}

pub open spec fn line_text(l: Line) -> Seq<char> {
    match l {
        Line::Percentage(p, a) => percentage_text(p) + opt_line_alignment_text(a),
        Line::LineNumber(n, a) => dec_int(n as int) + opt_line_alignment_text(a),
    }
}

impl Default for Line {
    fn default() -> (r: Line)
        ensures
            r == Line::Percentage(Percentage { value: 0 }, None),
    {
        Line::Percentage(Percentage { value: 0 }, None)
    }
}

impl Line {
    /// Renders the value as it stands in a setting.
    pub fn to_string(&self) -> (r: String)
        ensures
            r@ == line_text(*self),
    {
        let mut out = String::new();
        self.write_to(&mut out);
        proof {
            assert(out@ =~= line_text(*self));
        }
        out
    }

    pub fn write_to(&self, out: &mut String)
        ensures
            final(out)@ == old(out)@ + line_text(*self),
    {
        proof {
            reveal_strlit(",");
        }
        let a = match self {
            Line::Percentage(p, a) => {
                p.write_to(out);
                a
            },
            Line::LineNumber(n, a) => {
                push_int(out, *n);
                a
            },
        };
        if let Some(a) = a {
            push_str(out, ",");
            push_str(out, a.as_str());
        }
        proof {
            assert(final(out)@ =~= old(out)@ + line_text(*self));
        }
    }
}

/// The position setting of a cue.
#[derive(Debug, Clone, Copy, PartialEq, Eq, Structural)]
pub struct Position {
    pub value: Percentage,
    pub alignment: Option<PositionAlignment>,
}

impl View for Position {
    type V = Position;

    open spec fn view(&self) -> Position {
        *self
    }
}

pub open spec fn position_text(p: Position) -> Seq<char> {
    percentage_text(p.value) + match p.alignment {
        Some(a) => seq![','] + position_alignment_text(a),
        None => Seq::empty(),
    }
}

impl Default for Position {
    fn default() -> (r: Position)
        ensures
            r == (Position { value: Percentage { value: 0 }, alignment: None }),
    {
        Position { value: Percentage { value: 0 }, alignment: None }
    }
}

impl Position {
    /// Renders the value as it stands in a setting.
    pub fn to_string(&self) -> (r: String)
        ensures
            r@ == position_text(*self),
    {
        let mut out = String::new();
        self.write_to(&mut out);
        proof {
            assert(out@ =~= position_text(*self));
        }
        out
    }

    pub fn write_to(&self, out: &mut String)
        ensures
            final(out)@ == old(out)@ + position_text(*self),
    {
        proof {
            reveal_strlit(",");
        }
        self.value.write_to(out);
        if let Some(a) = self.alignment {
            push_str(out, ",");
            push_str(out, a.as_str());
        }
        proof {
            assert(final(out)@ =~= old(out)@ + position_text(*self));
        }
    }
}

/// The view of an optional string.
pub open spec fn opt_view(o: Option<String>) -> Option<Seq<char>> {
    match o {
        Some(s) => Some(s@),
        None => None,
    }
}

/// Cue settings as a mathematical value.
pub struct SettingsView {
    pub vertical: Option<Vertical>,
    pub line: Option<Line>,
    pub position: Option<Position>,
    pub size: Option<Percentage>,
    pub align: Option<Alignment>,
    pub region: Option<Seq<char>>,
}

/// The identifier of a region.
pub type RegionId = String;

/// The settings of a cue, each optional.
#[derive(Debug, Clone, PartialEq)]
pub struct CueSettings {
    pub vertical: Option<Vertical>,
    pub line: Option<Line>,
    pub position: Option<Position>,
    pub size: Option<Percentage>,
    pub align: Option<Alignment>,
    pub region: Option<String>,
}

impl View for CueSettings {
    type V = SettingsView;

    open spec fn view(&self) -> SettingsView {
        SettingsView {
            vertical: self.vertical,
            line: self.line,
            position: self.position,
            size: self.size,
            align: self.align,
            region: opt_view(self.region),
        }
    }
}

/// The settings that are present, each as `key:value`, in the fixed order
/// vertical, line, position, size, align, region.
pub open spec fn settings_items(st: SettingsView) -> Seq<Seq<char>> {
    (match st.vertical {
        Some(v) => seq![seq!['v', 'e', 'r', 't', 'i', 'c', 'a', 'l', ':'] + vertical_text(v)],
        None => Seq::empty(),
    }) + (match st.line {
        Some(l) => seq![seq!['l', 'i', 'n', 'e', ':'] + line_text(l)],
        None => Seq::empty(),
    }) + (match st.position {
        Some(p) => seq![seq!['p', 'o', 's', 'i', 't', 'i', 'o', 'n', ':'] + position_text(p)],
        None => Seq::empty(),
    }) + (match st.size {
        Some(p) => seq![seq!['s', 'i', 'z', 'e', ':'] + percentage_text(p)],
        None => Seq::empty(),
    }) + (match st.align {
        Some(a) => seq![seq!['a', 'l', 'i', 'g', 'n', ':'] + alignment_text(a)],
        None => Seq::empty(),
    }) + (match st.region {
        Some(r) => seq![seq!['r', 'e', 'g', 'i', 'o', 'n', ':'] + r],
        None => Seq::empty(),
    })
}

/// Items from index `k` on, each preceded by a space but the first of all.
pub open spec fn spaced_from(items: Seq<Seq<char>>, k: int) -> Seq<char>
    decreases items.len() - k,
{
    if k < 0 || k >= items.len() {
        Seq::empty()
    } else {
        (if k == 0 { Seq::empty() } else { seq![' '] }) + items[k] + spaced_from(items, k + 1)
    }
}

/// The settings that are present, separated by spaces.
pub open spec fn settings_text(st: SettingsView) -> Seq<char> {
    spaced_from(settings_items(st), 0)
}

impl Default for CueSettings {
    fn default() -> (r: CueSettings)
        ensures
            r@ == no_settings(),
    {
        CueSettings { vertical: None, line: None, position: None, size: None, align: None, region: None }
    }
}

/// Settings with none present.
pub open spec fn no_settings() -> SettingsView {
    SettingsView { vertical: None, line: None, position: None, size: None, align: None, region: None }
}

impl CueSettings {
    fn items(&self) -> (r: Vec<String>)
        ensures
            views(r@) == settings_items(self@),
    {
        proof {
            reveal_strlit("vertical:");
            reveal_strlit("line:");
            reveal_strlit("position:");
            reveal_strlit("size:");
            reveal_strlit("align:");
            reveal_strlit("region:");
            assert("vertical:"@ =~= seq!['v', 'e', 'r', 't', 'i', 'c', 'a', 'l', ':']);
            assert("line:"@ =~= seq!['l', 'i', 'n', 'e', ':']);
            assert("position:"@ =~= seq!['p', 'o', 's', 'i', 't', 'i', 'o', 'n', ':']);
            assert("size:"@ =~= seq!['s', 'i', 'z', 'e', ':']);
            assert("align:"@ =~= seq!['a', 'l', 'i', 'g', 'n', ':']);
            assert("region:"@ =~= seq!['r', 'e', 'g', 'i', 'o', 'n', ':']);
        }
        let mut items: Vec<String> = Vec::new();
        let ghost st = self@;
        if let Some(v) = self.vertical {
            let mut t = String::new();
            push_str(&mut t, "vertical:");
            push_str(&mut t, v.as_str());
            items.push(t);
        }
        let ghost a = views(items@);
        assert(a =~= match st.vertical {
            Some(v) => seq![seq!['v', 'e', 'r', 't', 'i', 'c', 'a', 'l', ':'] + vertical_text(v)],
            None => Seq::<Seq<char>>::empty(),
        });
        if let Some(l) = self.line {
            let mut t = String::new();
            push_str(&mut t, "line:");
            l.write_to(&mut t);
            items.push(t);
        }
        let ghost b = views(items@);
        assert(b =~= a + match st.line {
            Some(l) => seq![seq!['l', 'i', 'n', 'e', ':'] + line_text(l)],
            None => Seq::<Seq<char>>::empty(),
        });
        if let Some(p) = self.position {
            let mut t = String::new();
            push_str(&mut t, "position:");
            p.write_to(&mut t);
            items.push(t);
        }
        let ghost c = views(items@);
        assert(c =~= b + match st.position {
            Some(p) => seq![seq!['p', 'o', 's', 'i', 't', 'i', 'o', 'n', ':'] + position_text(p)],
            None => Seq::<Seq<char>>::empty(),
        });
        if let Some(p) = self.size {
            let mut t = String::new();
            push_str(&mut t, "size:");
            p.write_to(&mut t);
            items.push(t);
        }
        let ghost d = views(items@);
        assert(d =~= c + match st.size {
            Some(p) => seq![seq!['s', 'i', 'z', 'e', ':'] + percentage_text(p)],
            None => Seq::<Seq<char>>::empty(),
        });
        if let Some(al) = self.align {
            let mut t = String::new();
            push_str(&mut t, "align:");
            push_str(&mut t, al.as_str());
            items.push(t);
        }
        let ghost e = views(items@);
        assert(e =~= d + match st.align {
            Some(al) => seq![seq!['a', 'l', 'i', 'g', 'n', ':'] + alignment_text(al)],
            None => Seq::<Seq<char>>::empty(),
        });
        if let Some(r) = &self.region {
            let mut t = String::new();
            push_str(&mut t, "region:");
            push_str(&mut t, r.as_str());
            items.push(t);
        }
        proof {
            assert(views(items@) =~= e + match st.region {
                Some(r) => seq![seq!['r', 'e', 'g', 'i', 'o', 'n', ':'] + r],
                None => Seq::<Seq<char>>::empty(),
            });
        }
        items
    }

    pub fn write_to(&self, out: &mut String)
        ensures
            final(out)@ == old(out)@ + settings_text(self@),
    {
        let items = self.items();
        let ghost its = views(items@);
        let ghost start = out@;
        let mut k: usize = 0;
        while k < items.len()
            invariant
                k <= items.len(),
                its == views(items@),
                out@ + spaced_from(its, k as int) == start + spaced_from(its, 0),
            decreases items.len() - k,
        {
            let ghost before = out@;
            if k > 0 {
                proof {
                    reveal_strlit(" ");
                }
                push_str(out, " ");
            }
            push_str(out, items[k].as_str());
            proof {
                assert(its[k as int] == items@[k as int]@);
                assert(out@ + spaced_from(its, k + 1) =~= before + spaced_from(its, k as int));
            }
            k = k + 1;
        }
        proof {
            assert(out@ + Seq::<char>::empty() =~= out@);
        }
    }

    /// Renders the settings that are present, separated by spaces.
    pub fn to_string(&self) -> (r: String)
        ensures
            r@ == settings_text(self@),
    {
        let mut out = String::new();
        self.write_to(&mut out);
        proof {
            assert(out@ =~= settings_text(self@));
        }
        out
    }
}

} // verus!

verus! {

/// A region as a mathematical value.
pub struct RegionView {
    pub id: Option<Seq<char>>,
    pub width: Option<Percentage>,
    pub lines: Option<u32>,
    pub region_anchor: Option<Anchor>,
    pub viewport_anchor: Option<Anchor>,
    pub scroll: Option<Scroll>,
}

/// A region definition block, each setting optional.
#[derive(Debug, Clone, PartialEq)]
pub struct VttRegion {
    pub id: Option<String>,
    pub width: Option<Percentage>,
    pub lines: Option<u32>,
    pub region_anchor: Option<Anchor>,
    pub viewport_anchor: Option<Anchor>,
    pub scroll: Option<Scroll>,
}

impl View for VttRegion {
    type V = RegionView;

    open spec fn view(&self) -> RegionView {
        RegionView {
            id: opt_view(self.id),
            width: self.width,
            lines: self.lines,
            region_anchor: self.region_anchor,
            viewport_anchor: self.viewport_anchor,
            scroll: self.scroll,
        }
    }
}

/// Region settings with none present.
pub open spec fn no_region_settings() -> RegionView {
    RegionView {
        id: None,
        width: None,
        lines: None,
        region_anchor: None,
        viewport_anchor: None,
        scroll: None,
    }
}

pub open spec fn id_line(v: Option<Seq<char>>) -> Seq<char> {
    match v {
        Some(x) => seq!['i', 'd', ':'] + x + seq!['\n'],
        None => Seq::empty(),
    }
}

pub open spec fn width_line(v: Option<Percentage>) -> Seq<char> {
    match v {
        Some(p) => seq!['w', 'i', 'd', 't', 'h', ':'] + percentage_text(p) + seq!['\n'],
        None => Seq::empty(),
    }
}

pub open spec fn lines_line(v: Option<u32>) -> Seq<char> {
    match v {
        Some(n) => seq!['l', 'i', 'n', 'e', 's', ':'] + dec(n as nat) + seq!['\n'],
        None => Seq::empty(),
    }
}

pub open spec fn region_anchor_line(v: Option<Anchor>) -> Seq<char> {
    match v {
        Some(a) => seq!['r', 'e', 'g', 'i', 'o', 'n', 'a', 'n', 'c', 'h', 'o', 'r', ':'] + anchor_text(a)
            + seq!['\n'],
        None => Seq::empty(),
    }
}

pub open spec fn viewport_anchor_line(v: Option<Anchor>) -> Seq<char> {
    match v {
        Some(a) => seq!['v', 'i', 'e', 'w', 'p', 'o', 'r', 't', 'a', 'n', 'c', 'h', 'o', 'r', ':']
            + anchor_text(a) + seq!['\n'],
        None => Seq::empty(),
    }
}

pub open spec fn scroll_line(v: Option<Scroll>) -> Seq<char> {
    match v {
        Some(_) => seq!['s', 'c', 'r', 'o', 'l', 'l', ':', 'u', 'p', '\n'],
        None => Seq::empty(),
    }
}

/// `REGION`, then each present setting on a line of its own, in the fixed
/// order id, width, lines, regionanchor, viewportanchor, scroll.
pub open spec fn region_text(r: RegionView) -> Seq<char> {
    seq!['R', 'E', 'G', 'I', 'O', 'N', '\n'] + region_head_lines(r) + region_tail_lines(r)
}

pub open spec fn region_head_lines(r: RegionView) -> Seq<char> {
    id_line(r.id) + width_line(r.width) + lines_line(r.lines)
}

pub open spec fn region_tail_lines(r: RegionView) -> Seq<char> {
    region_anchor_line(r.region_anchor) + viewport_anchor_line(r.viewport_anchor) + scroll_line(r.scroll)
}

fn write_id_line(out: &mut String, v: &Option<String>)
    ensures
        final(out)@ == old(out)@ + id_line(opt_view(*v)),
{
    proof {
        reveal_strlit("id:");
        reveal_strlit("\n");
    }
    if let Some(x) = v {
        push_str(out, "id:");
        push_str(out, x.as_str());
        push_str(out, "\n");
    }
    proof {
        assert(final(out)@ =~= old(out)@ + id_line(opt_view(*v)));
    }
}

fn write_width_line(out: &mut String, v: Option<Percentage>)
    ensures
        final(out)@ == old(out)@ + width_line(v),
{
    proof {
        reveal_strlit("width:");
        reveal_strlit("\n");
    }
    if let Some(p) = v {
        push_str(out, "width:");
        p.write_to(out);
        push_str(out, "\n");
    }
    proof {
        assert(final(out)@ =~= old(out)@ + width_line(v));
    }
}

fn write_lines_line(out: &mut String, v: Option<u32>)
    ensures
        final(out)@ == old(out)@ + lines_line(v),
{
    proof {
        reveal_strlit("lines:");
        reveal_strlit("\n");
    }
    if let Some(n) = v {
        push_str(out, "lines:");
        push_dec(out, n as u128);
        push_str(out, "\n");
    }
    proof {
        assert(final(out)@ =~= old(out)@ + lines_line(v));
    }
}

fn write_region_anchor_line(out: &mut String, v: Option<Anchor>)
    ensures
        final(out)@ == old(out)@ + region_anchor_line(v),
{
    proof {
        reveal_strlit("regionanchor:");
        reveal_strlit("\n");
    }
    if let Some(a) = v {
        push_str(out, "regionanchor:");
        a.write_to(out);
        push_str(out, "\n");
    }
    proof {
        assert(final(out)@ =~= old(out)@ + region_anchor_line(v));
    }
}

fn write_viewport_anchor_line(out: &mut String, v: Option<Anchor>)
    ensures
        final(out)@ == old(out)@ + viewport_anchor_line(v),
{
    proof {
        reveal_strlit("viewportanchor:");
        reveal_strlit("\n");
    }
    if let Some(a) = v {
        push_str(out, "viewportanchor:");
        a.write_to(out);
        push_str(out, "\n");
    }
    proof {
        assert(final(out)@ =~= old(out)@ + viewport_anchor_line(v));
    }
}

fn write_scroll_line(out: &mut String, v: Option<Scroll>)
    ensures
        final(out)@ == old(out)@ + scroll_line(v),
{
    proof {
        reveal_strlit("scroll:up\n");
    }
    if v.is_some() {
        push_str(out, "scroll:up\n");
    }
    proof {
        assert(final(out)@ =~= old(out)@ + scroll_line(v));
    }
}

impl Default for VttRegion {
    fn default() -> (r: VttRegion)
        ensures
            r@ == no_region_settings(),
    {
        VttRegion {
            id: None,
            width: None,
            lines: None,
            region_anchor: None,
            viewport_anchor: None,
            scroll: None,
        }
    }
}

impl VttRegion {
    fn write_head(&self, out: &mut String)
        ensures
            final(out)@ == old(out)@ + region_head_lines(self@),
    {
        let ghost o = out@;
        write_id_line(out, &self.id);
        write_width_line(out, self.width);
        write_lines_line(out, self.lines);
        proof {
            assert(out@ =~= o + region_head_lines(self@));
        }
    }

    fn write_tail(&self, out: &mut String)
        ensures
            final(out)@ == old(out)@ + region_tail_lines(self@),
    {
        let ghost o = out@;
        write_region_anchor_line(out, self.region_anchor);
        write_viewport_anchor_line(out, self.viewport_anchor);
        write_scroll_line(out, self.scroll);
        proof {
            assert(out@ =~= o + region_tail_lines(self@));
        }
    }

    pub fn write_to(&self, out: &mut String)
        ensures
            final(out)@ == old(out)@ + region_text(self@),
    {
        proof {
            reveal_strlit("REGION\n");
            assert("REGION\n"@ =~= seq!['R', 'E', 'G', 'I', 'O', 'N', '\n']);
        }
        let ghost o = out@;
        push_str(out, "REGION\n");
        self.write_head(out);
        self.write_tail(out);
        proof {
            assert(out@ =~= o + region_text(self@));
        }
    }

    /// Renders the region block, ending with a newline.
    pub fn to_string(&self) -> (r: String)
        ensures
            r@ == region_text(self@),
    {
        let mut out = String::new();
        self.write_to(&mut out);
        proof {
            assert(out@ =~= region_text(self@));
        }
        out
    }
}

/// A comment, or a header description, as a mathematical value.
pub enum NoteView {
    Side(Seq<char>),
    Below(Seq<char>),
}

/// A comment block: its text on the keyword's line (`Side`), or on the lines
/// below it (`Below`).
#[derive(Debug, Clone, PartialEq, Eq, Hash)]
pub enum VttComment {
    Side(String),
    Below(String),
}

impl View for VttComment {
    type V = NoteView;

    open spec fn view(&self) -> NoteView {
        match self {
            VttComment::Side(t) => NoteView::Side(t@),
            VttComment::Below(t) => NoteView::Below(t@),
        }
    }
}

/// `NOTE text` or `NOTE`, newline, `text`; then a newline.
pub open spec fn comment_text(c: NoteView) -> Seq<char> {
    match c {
        NoteView::Side(t) => seq!['N', 'O', 'T', 'E', ' '] + t + seq!['\n'],
        NoteView::Below(t) => seq!['N', 'O', 'T', 'E', '\n'] + t + seq!['\n'],
    }
}

impl Default for VttComment {
    fn default() -> (r: VttComment)
        ensures
            r@ == NoteView::Side(Seq::empty()),
    {
        VttComment::Side(String::new())
    }
}

impl VttComment {
    pub fn write_to(&self, out: &mut String)
        ensures
            final(out)@ == old(out)@ + comment_text(self@),
    {
        proof {
            reveal_strlit("NOTE ");
            reveal_strlit("NOTE\n");
            reveal_strlit("\n");
        }
        match self {
            VttComment::Side(t) => {
                push_str(out, "NOTE ");
                push_str(out, t.as_str());
            },
            VttComment::Below(t) => {
                push_str(out, "NOTE\n");
                push_str(out, t.as_str());
            },
        }
        push_str(out, "\n");
        proof {
            assert(final(out)@ =~= old(out)@ + comment_text(self@));
        }
    }

    /// Renders the comment block, ending with a newline.
    pub fn to_string(&self) -> (r: String)
        ensures
            r@ == comment_text(self@),
    {
        let mut out = String::new();
        self.write_to(&mut out);
        proof {
            assert(out@ =~= comment_text(self@));
        }
        out
    }
}

/// A style block, whose text is kept as it stands.
#[derive(Debug, Clone, PartialEq, Eq, Hash)]
pub struct VttStyle {
    pub style: String,
}

impl View for VttStyle {
    type V = Seq<char>;

    open spec fn view(&self) -> Seq<char> {
        self.style@
    }
}

/// `STYLE`, newline, the text, newline.
pub open spec fn style_text(t: Seq<char>) -> Seq<char> {
    seq!['S', 'T', 'Y', 'L', 'E', '\n'] + t + seq!['\n']
}

impl Default for VttStyle {
    fn default() -> (r: VttStyle)
        ensures
            r@ == Seq::<char>::empty(),
    {
        VttStyle { style: String::new() }
    }
}

impl VttStyle {
    pub fn write_to(&self, out: &mut String)
        ensures
            final(out)@ == old(out)@ + style_text(self@),
    {
        proof {
            reveal_strlit("STYLE\n");
            reveal_strlit("\n");
        }
        push_str(out, "STYLE\n");
        push_str(out, self.style.as_str());
        push_str(out, "\n");
        proof {
            assert(final(out)@ =~= old(out)@ + style_text(self@));
        }
    }

    /// Renders the style block, ending with a newline.
    pub fn to_string(&self) -> (r: String)
        ensures
            r@ == style_text(self@),
    {
        let mut out = String::new();
        self.write_to(&mut out);
        proof {
            assert(out@ =~= style_text(self@));
        }
        out
    }
}

/// A cue as a mathematical value.
pub struct QueView {
    pub identifier: Option<Seq<char>>,
    pub timings: VttTimings,
    pub settings: Option<SettingsView>,
    pub payload: Seq<Seq<char>>,
}

/// A cue: an optional identifier, timings, optional settings, and the lines
/// of its payload.
#[derive(Debug, Clone, PartialEq)]
pub struct VttQue {
    pub identifier: Option<String>,
    pub timings: VttTimings,
    pub settings: Option<CueSettings>,
    pub payload: Vec<String>,
}

impl View for VttQue {
    type V = QueView;

    open spec fn view(&self) -> QueView {
        QueView {
            identifier: opt_view(self.identifier),
            timings: self.timings,
            settings: match self.settings {
                Some(st) => Some(st@),
                None => None,
            },
            payload: views(self.payload@),
        }
    }
}

/// The identifier line if any, `start --> end` with a space and the settings
/// if any, newline, the payload lines joined by newlines, newline.
pub open spec fn que_text(q: QueView) -> Seq<char> {
    (match q.identifier {
        Some(id) => id + seq!['\n'],
        None => Seq::empty(),
    }) + timings_text(q.timings) + (match q.settings {
        Some(st) => seq![' '] + settings_text(st),
        None => Seq::empty(),
    }) + seq!['\n'] + body_text(q.payload)
}

impl Default for VttQue {
    fn default() -> (r: VttQue)
        ensures
            r@.identifier is None,
            r@.settings is None,
            r@.payload.len() == 0,
            r@.timings == (VttTimings {
                start: VttTimestamp { hours: 0, minutes: 0, seconds: 0, milliseconds: 0 },
                end: VttTimestamp { hours: 0, minutes: 0, seconds: 0, milliseconds: 0 },
            }),
    {
        VttQue { identifier: None, timings: VttTimings::default(), settings: None, payload: Vec::new() }
    }
}

impl VttQue {
    pub fn write_to(&self, out: &mut String)
        ensures
            final(out)@ == old(out)@ + que_text(self@),
    {
        proof {
            reveal_strlit("\n");
            reveal_strlit(" ");
            assert("\n"@ =~= seq!['\n']);
        }
        let ghost o = out@;
        if let Some(id) = &self.identifier {
            push_str(out, id.as_str());
            push_str(out, "\n");
        }
        self.timings.write_to(out);
        if let Some(st) = &self.settings {
            push_str(out, " ");
            st.write_to(out);
        }
        push_str(out, "\n");
        let ghost head = out@;
        let ghost ls = self@.payload;
        if self.payload.len() == 0 {
            push_str(out, "\n");
        } else {
            let mut k: usize = 0;
            while k < self.payload.len()
                invariant
                    k <= self.payload.len(),
                    ls == views(self.payload@),
                    out@ + lines_text(ls, k as int) == head + lines_text(ls, 0),
                decreases self.payload.len() - k,
            {
                let ghost before = out@;
                push_str(out, self.payload[k].as_str());
                proof {
                    reveal_strlit("\n");
                    assert("\n"@ =~= seq!['\n']);
                }
                push_str(out, "\n");
                proof {
                    assert(ls[k as int] == self.payload@[k as int]@);
                    assert(lines_text(ls, k as int) == ls[k as int] + seq!['\n'] + lines_text(ls, k + 1));
                    assert(out@ + lines_text(ls, k + 1) =~= before + lines_text(ls, k as int));
                }
                k = k + 1;
            }
            proof {
                assert(out@ + Seq::<char>::empty() =~= out@);
            }
        }
        proof {
            assert(final(out)@ =~= o + que_text(self@));
        }
    }

    /// Renders the cue, ending with a newline.
    pub fn to_string(&self) -> (r: String)
        ensures
            r@ == que_text(self@),
    {
        let mut out = String::new();
        self.write_to(&mut out);
        proof {
            assert(out@ =~= que_text(self@));
        }
        out
    }
}

/// A block as a mathematical value.
pub enum BlockView {
    Que(QueView),
    Comment(NoteView),
    Style(Seq<char>),
    Region(RegionView),
}

/// A block of a WebVTT document.
#[derive(Debug, Clone, PartialEq)]
pub enum VttBlock {
    Que(VttQue),
    Comment(VttComment),
    Style(VttStyle),
    Region(VttRegion),
}

impl View for VttBlock {
    type V = BlockView;

    open spec fn view(&self) -> BlockView {
        match self {
            VttBlock::Que(q) => BlockView::Que(q@),
            VttBlock::Comment(c) => BlockView::Comment(c@),
            VttBlock::Style(s) => BlockView::Style(s@),
            VttBlock::Region(r) => BlockView::Region(r@),
        }
    }
}

pub open spec fn block_text(b: BlockView) -> Seq<char> {
    match b {
        BlockView::Que(q) => que_text(q),
        BlockView::Comment(c) => comment_text(c),
        BlockView::Style(s) => style_text(s),
        BlockView::Region(r) => region_text(r),
    }
}

impl VttBlock {
    pub fn write_to(&self, out: &mut String)
        ensures
            final(out)@ == old(out)@ + block_text(self@),
    {
        match self {
            VttBlock::Que(q) => q.write_to(out),
            VttBlock::Comment(c) => c.write_to(out),
            VttBlock::Style(s) => s.write_to(out),
            VttBlock::Region(r) => r.write_to(out),
        }
    }

    /// Renders the block, ending with a newline.
    pub fn to_string(&self) -> (r: String)
        ensures
            r@ == block_text(self@),
    {
        let mut out = String::new();
        self.write_to(&mut out);
        proof {
            assert(out@ =~= block_text(self@));
        }
        out
    }
}

impl From<VttQue> for VttBlock {
    fn from(v: VttQue) -> (r: VttBlock) {
        VttBlock::Que(v)
    }
}

impl vstd::std_specs::convert::FromSpecImpl<VttQue> for VttBlock {
    open spec fn obeys_from_spec() -> bool {
        true
    }

    open spec fn from_spec(v: VttQue) -> VttBlock {
        VttBlock::Que(v)
    }
}

impl From<VttComment> for VttBlock {
    fn from(v: VttComment) -> (r: VttBlock) {
        VttBlock::Comment(v)
    }
}

impl vstd::std_specs::convert::FromSpecImpl<VttComment> for VttBlock {
    open spec fn obeys_from_spec() -> bool {
        true
    }

    open spec fn from_spec(v: VttComment) -> VttBlock {
        VttBlock::Comment(v)
    }
}

impl From<VttStyle> for VttBlock {
    fn from(v: VttStyle) -> (r: VttBlock) {
        VttBlock::Style(v)
    }
}

impl vstd::std_specs::convert::FromSpecImpl<VttStyle> for VttBlock {
    open spec fn obeys_from_spec() -> bool {
        true
    }

    open spec fn from_spec(v: VttStyle) -> VttBlock {
        VttBlock::Style(v)
    }
}

impl From<VttRegion> for VttBlock {
    fn from(v: VttRegion) -> (r: VttBlock) {
        VttBlock::Region(v)
    }
}

impl vstd::std_specs::convert::FromSpecImpl<VttRegion> for VttBlock {
    open spec fn obeys_from_spec() -> bool {
        true
    }

    open spec fn from_spec(v: VttRegion) -> VttBlock {
        VttBlock::Region(v)
    }
}

/// The description of a header: on the `WEBVTT` line (`Side`) or on the
/// lines below it (`Below`).
#[derive(Debug, Clone, PartialEq, Eq, Hash)]
pub enum VttDescription {
    Side(String),
    Below(String),
}

impl View for VttDescription {
    type V = NoteView;

    open spec fn view(&self) -> NoteView {
        match self {
            VttDescription::Side(t) => NoteView::Side(t@),
            VttDescription::Below(t) => NoteView::Below(t@),
        }
    }
}

impl Default for VttDescription {
    fn default() -> (r: VttDescription)
        ensures
            r@ == NoteView::Side(Seq::empty()),
    {
        VttDescription::Side(String::new())
    }
}

/// The header of a WebVTT document.
#[derive(Debug, Clone, PartialEq, Eq, Hash)]
pub struct VttHeader {
    pub description: Option<VttDescription>,
}

impl View for VttHeader {
    type V = Option<NoteView>;

    open spec fn view(&self) -> Option<NoteView> {
        match self.description {
            Some(d) => Some(d@),
            None => None,
        }
    }
}

/// `WEBVTT`, then a space and the description, or a newline and the
/// description, if there is one; then a newline.
pub open spec fn header_text(h: Option<NoteView>) -> Seq<char> {
    seq!['W', 'E', 'B', 'V', 'T', 'T'] + (match h {
        Some(NoteView::Side(t)) => seq![' '] + t,
        Some(NoteView::Below(t)) => seq!['\n'] + t,
        None => Seq::empty(),
    }) + seq!['\n']
}

impl Default for VttHeader {
    fn default() -> (r: VttHeader)
        ensures
            r@ is None,
    {
        VttHeader { description: None }
    }
}

impl VttHeader {
    pub fn write_to(&self, out: &mut String)
        ensures
            final(out)@ == old(out)@ + header_text(self@),
    {
        proof {
            reveal_strlit("WEBVTT");
            reveal_strlit(" ");
            reveal_strlit("\n");
        }
        push_str(out, "WEBVTT");
        match &self.description {
            Some(VttDescription::Side(t)) => {
                push_str(out, " ");
                push_str(out, t.as_str());
            },
            Some(VttDescription::Below(t)) => {
                push_str(out, "\n");
                push_str(out, t.as_str());
            },
            None => {},
        }
        push_str(out, "\n");
        proof {
            assert(final(out)@ =~= old(out)@ + header_text(self@));
        }
    }

    /// Renders the header, ending with a newline.
    pub fn to_string(&self) -> (r: String)
        ensures
            r@ == header_text(self@),
    {
        let mut out = String::new();
        self.write_to(&mut out);
        proof {
            assert(out@ =~= header_text(self@));
        }
        out
    }
}

/// Blocks from index `k` on, each preceded by a newline.
pub open spec fn blocks_tail_text(bs: Seq<BlockView>, k: int) -> Seq<char>
    decreases bs.len() - k,
{
    if k < 0 || k >= bs.len() {
        Seq::empty()
    } else {
        seq!['\n'] + block_text(bs[k]) + blocks_tail_text(bs, k + 1)
    }
}

/// The header, a blank line, and the blocks separated by blank lines.
pub open spec fn vtt_text(h: Option<NoteView>, bs: Seq<BlockView>) -> Seq<char> {
    header_text(h) + seq!['\n'] + if bs.len() == 0 {
        Seq::empty()
    } else {
        block_text(bs[0]) + blocks_tail_text(bs, 1)
    }
}

/// The views of a sequence of blocks.
pub open spec fn blocks_view(v: Seq<VttBlock>) -> Seq<BlockView> {
    v.map_values(|b: VttBlock| b@)
}

/// A WebVTT document: a header and blocks.
#[derive(Debug, Clone, PartialEq)]
pub struct WebVtt {
    pub header: VttHeader,
    pub blocks: Vec<VttBlock>,
}

impl View for WebVtt {
    type V = (Option<NoteView>, Seq<BlockView>);

    open spec fn view(&self) -> (Option<NoteView>, Seq<BlockView>) {
        (self.header@, blocks_view(self.blocks@))
    }
}

impl Default for WebVtt {
    fn default() -> (r: WebVtt)
        ensures
            r@.0 is None,
            r@.1.len() == 0,
    {
        WebVtt { header: VttHeader::default(), blocks: Vec::new() }
    }
}

impl WebVtt {
    /// Parses a WebVTT document. It fails exactly when `text` is not a
    /// document of the grammar, and then reports the furthest point where
    /// reading failed and what was expected there.
    pub fn parse(text: &str) -> (r: Result<WebVtt, ParseError>)
        ensures
            match r {
                Ok(d) => vtt_doc(text@) == Some(d@),
                Err(e) => vtt_doc(text@) is None && e.location@ == location_text(text@, vtt_failure(text@).0)
                    && e.expected@ == vtt_failure(text@).1,
            },
    {
        let s = chars_of(text);
        vtt_exec(&s)
    }

    /// Renders the document: the header, a blank line, and the blocks
    /// separated by blank lines.
    pub fn render(&self) -> (r: String)
        ensures
            r@ == vtt_text(self@.0, self@.1),
    {
        proof {
            reveal_strlit("\n");
        }
        let mut out = String::new();
        self.header.write_to(&mut out);
        push_str(&mut out, "\n");
        let ghost head = out@;
        let ghost bs = self@.1;
        let ghost body = if bs.len() == 0 {
            Seq::<char>::empty()
        } else {
            block_text(bs[0]) + blocks_tail_text(bs, 1)
        };
        let mut k: usize = 0;
        while k < self.blocks.len()
            invariant
                k <= self.blocks.len(),
                bs == self@.1,
                body == (if bs.len() == 0 {
                    Seq::<char>::empty()
                } else {
                    block_text(bs[0]) + blocks_tail_text(bs, 1)
                }),
                out@ + (if k == 0 { body } else { blocks_tail_text(bs, k as int) }) == head + body,
            decreases self.blocks.len() - k,
        {
            let ghost before = out@;
            if k > 0 {
                proof {
                    reveal_strlit("\n");
                }
                push_str(&mut out, "\n");
            }
            self.blocks[k].write_to(&mut out);
            proof {
                assert(bs[k as int] == self.blocks@[k as int]@);
                if k == 0 {
                    assert(out@ + blocks_tail_text(bs, 1) =~= before + body);
                } else {
                    assert(out@ + blocks_tail_text(bs, k + 1) =~= before + blocks_tail_text(bs, k as int));
                }
            }
            k = k + 1;
        }
        proof {
            if k == 0 {
                assert(body =~= Seq::<char>::empty());
            }
            assert(out@ + Seq::<char>::empty() =~= out@);
            assert(out@ =~= vtt_text(self@.0, self@.1));
        }
        out
    }

    /// The same as `render`.
    pub fn to_string(&self) -> (r: String)
        ensures
            r@ == vtt_text(self@.0, self@.1),
    {
        self.render()
    }

    /// Takes out the first block, if any.
    pub fn next(&mut self) -> (r: Option<VttBlock>)
        ensures
            old(self)@.1.len() == 0 ==> r is None && final(self)@ == old(self)@,
            old(self)@.1.len() > 0 ==> (r matches Some(b) && b@ == old(self)@.1[0]),
            old(self)@.1.len() > 0 ==> final(self)@ == (old(self)@.0, old(self)@.1.drop_first()),
    {
        if self.blocks.len() == 0 {
            None
        } else {
            let b = self.blocks.remove(0);
            proof {
                assert(blocks_view(self.blocks@) =~= blocks_view(old(self).blocks@).drop_first());
            }
            Some(b)
        }
    }
}

} // verus!
