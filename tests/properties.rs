use subtp::general;
use subtp::srt::{SrtSubtitle, SrtTimestamp, SubRip};
use subtp::srt_parser;
use subtp::vtt::{
    CueSettings, Percentage, Vertical, VttBlock, VttComment, VttTimestamp, VttTimings, WebVtt,
};
use subtp::vtt_parser;

fn ts(hours: u8, minutes: u8, seconds: u8, milliseconds: u16) -> SrtTimestamp {
    SrtTimestamp { hours, minutes, seconds, milliseconds }
}

fn same_entries(a: &SubRip, b: &SubRip) -> bool {
    a.subtitles.len() == b.subtitles.len()
        && a.subtitles.iter().zip(b.subtitles.iter()).all(|(x, y)| {
            x.sequence == y.sequence && x.start == y.start && x.end == y.end && x.text == y.text
        })
}

#[test]
fn srt_round_trip_keeps_every_field() {
    let doc = SubRip {
        subtitles: vec![
            SrtSubtitle {
                sequence: 7,
                start: ts(1, 2, 3, 4),
                end: ts(99, 59, 59, 999),
                text: vec!["first line".to_string(), "second, line".to_string()],
                line_position: None,
            },
            SrtSubtitle {
                sequence: 3,
                start: ts(0, 0, 0, 0),
                end: ts(0, 0, 10, 500),
                text: vec!["x".to_string()],
                line_position: None,
            },
        ],
    };
    let text = doc.render();
    let back = SubRip::parse(&text).unwrap();
    assert!(same_entries(&doc, &back));
    assert_eq!(back.render(), text);
}

#[test]
fn srt_render_parse_render_is_stable() {
    let text = "\n\n1 \n00:00:00,000  -->  00:00:01,000\n  Hello  \n\n\n2\n00:00:01,000 --> 00:00:02,000\nBye\n\n";
    let first = SubRip::parse(text).unwrap().render();
    let second = SubRip::parse(&first).unwrap().render();
    assert_eq!(first, second);
    assert_eq!(first, "1\n00:00:00,000 --> 00:00:01,000\nHello\n\n2\n00:00:01,000 --> 00:00:02,000\nBye\n");
}

#[test]
fn srt_timestamp_widths_are_strict() {
    assert!(srt_parser::timestamp("0:00:00,000").is_err());
    assert!(srt_parser::timestamp("00:0:00,000").is_err());
    assert!(srt_parser::timestamp("00:00:00,0000").is_err());
    let t = srt_parser::timestamp("00:00:00,000").unwrap();
    assert_eq!(t.to_string(), "00:00:00,000");
}

#[test]
fn srt_blank_line_inside_entry_fails_between_entries_passes() {
    assert!(SubRip::parse("1\n\n00:00:00,000 --> 00:00:01,000\nHello\n").is_err());
    let doc = SubRip::parse(
        "1\n00:00:00,000 --> 00:00:01,000\nHello\n\n\n2\n00:00:01,000 --> 00:00:02,000\nWorld\n",
    )
    .unwrap();
    assert_eq!(doc.subtitles.len(), 2);
    assert_eq!(doc.subtitles[1].text, vec!["World".to_string()]);
}

#[test]
fn srt_error_reports_furthest_failure() {
    let e = SubRip::parse("1\n\n00:00:00,000 --> 00:00:01,000\nHello\n").unwrap_err();
    assert_eq!(e.location, "2:1");
    assert_eq!(e.expected, "no blank line inside an entry");
    let e = SubRip::parse("1\n00:00:00,000 --> 00:00:01,000\nHello\n\nx\n").unwrap_err();
    assert_eq!(e.location, "5:1");
    assert_eq!(e.expected, "sequence number");
    let e = SubRip::parse("1\n00:00:00,000 -> 00:00:01,000\nHello\n").unwrap_err();
    assert_eq!(e.location, "2:14");
    assert_eq!(e.expected, "-->");
    let e = SubRip::parse("1\n00:00:00,000 --> 00:00:01,000\n").unwrap_err();
    assert_eq!(e.location, "3:1");
    assert_eq!(e.expected, "text line");
}

#[test]
fn srt_blank_line_after_trailing_space_fails() {
    assert!(SubRip::parse("1 \n\n00:00:00,000 --> 00:00:01,000\nHello\n").is_err());
    assert!(SubRip::parse("1\r\n\r\n00:00:00,000 --> 00:00:01,000\nHello\n").is_err());
    assert!(SubRip::parse("1\r\n00:00:00,000 --> 00:00:01,000\r\nHello\r\n").is_ok());
}

#[test]
fn srt_line_of_only_unicode_space_fails() {
    assert!(SubRip::parse("1\n00:00:00,000 --> 00:00:01,000\n\u{a0}\n").is_err());
    assert!(WebVtt::parse("WEBVTT\n\n00:01.000 --> 00:02.000\n\u{a0}\n").is_err());
}

#[test]
fn srt_end_to_end_example() {
    let text = "1\n00:00:00,000 --> 00:00:02,000\nHello, world!\n\n2\n00:00:02,000 --> 00:00:04,000\nLine one.\nLine two.\n";
    let doc = SubRip::parse(text).unwrap();
    assert_eq!(doc.subtitles.len(), 2);
    assert_eq!(doc.subtitles[0].sequence, 1);
    assert_eq!(doc.subtitles[0].text, vec!["Hello, world!".to_string()]);
    assert_eq!(doc.subtitles[1].sequence, 2);
    assert_eq!(doc.subtitles[1].text, vec!["Line one.".to_string(), "Line two.".to_string()]);
    assert_eq!(doc.render(), text);
}

#[test]
fn srt_document_needs_an_entry() {
    assert!(SubRip::parse("").is_err());
    let e = SubRip::parse(" \n\t\n").unwrap_err();
    assert_eq!(e.expected, "sequence number");
    assert_eq!(SubRip::default().render(), "");
}

#[test]
fn vtt_document_needs_a_block() {
    assert!(WebVtt::parse("WEBVTT\n\n").is_err());
    assert!(WebVtt::parse("WEBVTT\n\nNOTE x\n").is_ok());
}

#[test]
fn srt_entry_without_text_renders_an_empty_line() {
    let e = SrtSubtitle { sequence: 4, start: ts(0, 0, 1, 0), end: ts(0, 0, 2, 0), text: vec![], line_position: None };
    assert_eq!(e.to_string(), "4\n00:00:01,000 --> 00:00:02,000\n\n");
}

#[test]
fn srt_equality_is_by_sequence() {
    let a = SrtSubtitle { sequence: 1, start: ts(0, 0, 1, 0), end: ts(0, 0, 2, 0), text: vec!["a".to_string()], line_position: None };
    let b = SrtSubtitle { sequence: 1, start: ts(0, 0, 5, 0), end: ts(0, 0, 6, 0), text: vec!["b".to_string()], line_position: None };
    assert_eq!(a, b);
}

#[test]
fn srt_sequence_overflow_is_refused() {
    assert!(srt_parser::subtitle("4294967296\n00:00:00,000 --> 00:00:01,000\nHi\n").is_err());
    let s = srt_parser::subtitle("4294967295\n00:00:00,000 --> 00:00:01,000\nHi\n").unwrap();
    assert_eq!(s.sequence, 4294967295);
}

#[test]
fn srt_duration_conversion() {
    let t = SrtTimestamp::from_duration(3661, 500_000_000);
    assert_eq!(t, ts(1, 1, 1, 500));
    assert_eq!(ts(0, 0, 1, 1500).to_duration(), (2, 500_000_000));
    assert_eq!(SrtTimestamp::from_duration(256 * 3600, 0).hours, 0);
}

#[test]
fn cue_settings_order_does_not_matter() {
    let a = vtt_parser::cue_settings("region:r vertical:rl").unwrap();
    let b = vtt_parser::cue_settings("vertical:rl region:r").unwrap();
    assert_eq!(a, b);
    assert_eq!(a.vertical, Some(Vertical::Rl));
    assert_eq!(a.region, Some("r".to_string()));
    assert_eq!(a.to_string(), "vertical:rl region:r");
    assert_eq!(b.to_string(), "vertical:rl region:r");
}

#[test]
fn cue_settings_later_key_wins() {
    let a = vtt_parser::cue_settings("align:left align:right").unwrap();
    assert_eq!(a.align, Some(subtp::vtt::Alignment::Right));
    assert!(vtt_parser::cue_settings("color:red").is_err());
    assert_eq!(vtt_parser::cue_settings("").unwrap(), CueSettings::default());
}

#[test]
fn percentage_range_is_checked_everywhere() {
    assert!(general::percentage("101%").is_err());
    assert!(vtt_parser::cue_size("size:101%").is_err());
    assert!(vtt_parser::cue_position("position:101%").is_err());
    assert!(vtt_parser::cue_line("line:101%").is_err());
    assert!(vtt_parser::region_width("width:101%").is_err());
    assert!(vtt_parser::region_region_anchor("regionanchor:101%,0%").is_err());
    assert_eq!(general::percentage("100%").unwrap(), Percentage { value: 100_000_000 });
    assert_eq!(general::percentage("0%").unwrap(), Percentage { value: 0 });
    assert!(general::percentage("100.000001%").is_err());
    assert_eq!(general::percentage("100.000%").unwrap(), Percentage { value: 100_000_000 });
}

#[test]
fn percentage_text() {
    assert_eq!(Percentage { value: 50_000_000 }.to_string(), "50%");
    assert_eq!(Percentage { value: 10_500_000 }.to_string(), "10.5%");
    assert_eq!(Percentage { value: 1 }.to_string(), "0.000001%");
    assert_eq!(general::percentage("12.3456789%").unwrap(), Percentage { value: 12_345_678 });
    assert_eq!(Percentage::whole(7).value, 7_000_000);
}

#[test]
fn vtt_hours_may_be_left_out() {
    let t = vtt_parser::timings("00:01.000 --> 00:04.000").unwrap();
    assert_eq!(t.start.hours, 0);
    assert_eq!(t.end.hours, 0);
    assert_eq!(t.to_string(), "00:00:01.000 --> 00:00:04.000");
}

#[test]
fn vtt_comment_shapes() {
    assert_eq!(vtt_parser::comment("NOTE hello\n").unwrap(), VttComment::Side("hello".to_string()));
    assert_eq!(
        vtt_parser::comment("NOTE\nhello\nworld\n").unwrap(),
        VttComment::Below("hello\nworld".to_string())
    );
}

#[test]
fn vtt_round_trip() {
    let text = "WEBVTT\n\nNOTE a note\n\nSTYLE\n::cue { color: red; }\n\nREGION\nid:r1\nwidth:40.5%\nlines:3\nregionanchor:0%,100%\nscroll:up\n\nid1\n00:00:01.000 --> 00:00:02.500 position:10%,line-left line:-2,end region:r1\nHello\nWorld\n";
    let doc = WebVtt::parse(text).unwrap();
    assert_eq!(doc.blocks.len(), 4);
    let again = WebVtt::parse(&doc.render()).unwrap();
    assert_eq!(again, doc);
    assert_eq!(again.render(), doc.render());
}

#[test]
fn vtt_error_reports_furthest_failure() {
    let e = WebVtt::parse(" WEBVTT\n\n").unwrap_err();
    assert_eq!(e.location, "1:1");
    assert_eq!(e.expected, "WEBVTT");
    let e = WebVtt::parse("WEBVTT\n\n00:01.000 --> 00:02.000\nHi\n\nbogus\n").unwrap_err();
    assert_eq!(e.location, "7:1");
    assert_eq!(e.expected, "cue timings");
    let e = WebVtt::parse("WEBVTT\n\n00:01.000 --> 00:02.000 color:red\nHi\n").unwrap_err();
    assert_eq!(e.location, "3:25");
    assert_eq!(e.expected, "cue setting");
}

#[test]
fn vtt_next_takes_blocks_in_order() {
    let mut doc = WebVtt::parse("WEBVTT\n\nNOTE one\n\nNOTE two\n").unwrap();
    assert_eq!(doc.next(), Some(VttBlock::Comment(VttComment::Side("one".to_string()))));
    assert_eq!(doc.next(), Some(VttBlock::Comment(VttComment::Side("two".to_string()))));
    assert_eq!(doc.next(), None);
}

#[test]
fn vtt_timestamp_arithmetic() {
    let a = VttTimestamp { hours: 0, minutes: 59, seconds: 59, milliseconds: 999 };
    let b = VttTimestamp { hours: 0, minutes: 0, seconds: 0, milliseconds: 1 };
    assert_eq!(a.add(b), VttTimestamp { hours: 1, minutes: 0, seconds: 0, milliseconds: 0 });
    assert_eq!(a.add(b).sub(b), a);
    let late = VttTimestamp { hours: 255, minutes: 0, seconds: 0, milliseconds: 0 };
    let zero = VttTimestamp { hours: 0, minutes: 0, seconds: 0, milliseconds: 0 };
    assert_eq!(late.sub(zero).add(zero), late);
    let t = VttTimings { start: b, end: a };
    assert_eq!(t.to_string(), "00:00:00.001 --> 00:59:59.999");
}

#[test]
fn vtt_round_trip_with_description_and_comments() {
    let text = "WEBVTT - a file\nwith notes\n\nNOTE\nfirst\nsecond\n\nNOTE side one\nside two\n\nid\n00:01.000 --> 00:02.000\nHi\n";
    let doc = WebVtt::parse(text).unwrap();
    assert_eq!(doc.blocks.len(), 3);
    let again = WebVtt::parse(&doc.render()).unwrap();
    assert_eq!(again, doc);
    assert_eq!(again.render(), doc.render());
}
