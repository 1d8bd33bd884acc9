use subtp::vtt::{
    Alignment, Anchor, CueSettings, Line, LineAlignment, Percentage, Position, PositionAlignment,
    Scroll, Vertical, VttComment, VttDescription, VttHeader, VttQue, VttRegion, VttStyle,
    VttTimestamp, VttTimings, WebVtt,
};
use subtp::vtt_parser;

#[test]
fn vtt_parse() {
        let text = r#"WEBVTT

00:01.000 --> 00:04.000
- Never drink liquid nitrogen.

00:05.000 --> 00:09.000
- It will perforate your stomach.
- You could die.
"#;

        let expected = WebVtt {
            blocks: vec![
                VttQue {
                    timings: VttTimings {
                        start: VttTimestamp {
                            seconds: 1,
                            ..Default::default()
                        },
                        end: VttTimestamp {
                            seconds: 4,
                            ..Default::default()
                        },
                    },
                    payload: vec!["- Never drink liquid nitrogen.".to_string()],
                    ..Default::default()
                }
                .into(),
                VttQue {
                    timings: VttTimings {
                        start: VttTimestamp {
                            seconds: 5,
                            ..Default::default()
                        },
                        end: VttTimestamp {
                            seconds: 9,
                            ..Default::default()
                        },
                    },
                    payload: vec![
                        "- It will perforate your stomach.".to_string(),
                        "- You could die.".to_string(),
                    ],
                    ..Default::default()
                }
                .into(),
            ],
            ..Default::default()
        };

        assert_eq!(WebVtt::parse(text).unwrap(), expected);
    }

#[test]
fn vtt_render() {
        let vtt = WebVtt {
            blocks: vec![
                VttQue {
                    timings: VttTimings {
                        start: VttTimestamp {
                            seconds: 1,
                            ..Default::default()
                        },
                        end: VttTimestamp {
                            seconds: 4,
                            ..Default::default()
                        },
                    },
                    payload: vec!["- Never drink liquid nitrogen.".to_string()],
                    ..Default::default()
                }
                .into(),
                VttQue {
                    timings: VttTimings {
                        start: VttTimestamp {
                            seconds: 5,
                            ..Default::default()
                        },
                        end: VttTimestamp {
                            seconds: 9,
                            ..Default::default()
                        },
                    },
                    payload: vec![
                        "- It will perforate your stomach.".to_string(),
                        "- You could die.".to_string(),
                    ],
                    ..Default::default()
                }
                .into(),
            ],
            ..Default::default()
        };

        let expected = r#"WEBVTT

00:00:01.000 --> 00:00:04.000
- Never drink liquid nitrogen.

00:00:05.000 --> 00:00:09.000
- It will perforate your stomach.
- You could die.
"#;

        assert_eq!(vtt.render(), expected);

        let vtt = WebVtt {
            header: VttHeader {
                description: Some(VttDescription::Side(
                    "This is a description.".to_string(),
                )),
            },
            blocks: vec![
                VttComment::Side("This is a comment.".to_string()).into(),
                VttRegion {
                    id: Some("region_id".to_string()),
                    width: Some(Percentage { value: 50000000 }),
                    lines: Some(3),
                    region_anchor: Some(Anchor {
                        x: Percentage { value: 50000000 },
                        y: Percentage { value: 50000000 },
                    }),
                    viewport_anchor: Some(Anchor {
                        x: Percentage { value: 50000000 },
                        y: Percentage { value: 50000000 },
                    }),
                    scroll: Some(Scroll::Up),
                }
                .into(),
                VttStyle {
                    style: r#"video::cue {
  background-image: linear-gradient(to bottom, dimgray, lightgray);
  color: papayawhip;
}"#
                    .to_string(),
                }
                .into(),
                VttQue {
                    identifier: Some("1".to_string()),
                    timings: VttTimings {
                        start: VttTimestamp {
                            hours: 1,
                            minutes: 2,
                            seconds: 3,
                            milliseconds: 4,
                        },
                        end: VttTimestamp {
                            hours: 1,
                            minutes: 2,
                            seconds: 5,
                            milliseconds: 6,
                        },
                    },
                    settings: Some(CueSettings {
                        vertical: Some(Vertical::Lr),
                        line: Some(Line::Percentage(
                            Percentage { value: 100000000 },
                            Some(LineAlignment::Center),
                        )),
                        position: Some(Position {
                            value: Percentage { value: 50000000 },
                            alignment: Some(PositionAlignment::Center),
                        }),
                        size: Some(Percentage { value: 50000000 }),
                        align: Some(Alignment::Center),
                        region: Some("region_id".to_string()),
                    }),
                    payload: vec!["- Never drink liquid nitrogen.".to_string()],
                }
                .into(),
            ],
        };

        let expected = r#"WEBVTT This is a description.

NOTE This is a comment.

REGION
id:region_id
width:50%
lines:3
regionanchor:50%,50%
viewportanchor:50%,50%
scroll:up

STYLE
video::cue {
  background-image: linear-gradient(to bottom, dimgray, lightgray);
  color: papayawhip;
}

1
01:02:03.004 --> 01:02:05.006 vertical:lr line:100%,center position:50%,center size:50% align:center region:region_id
- Never drink liquid nitrogen.
"#;

        assert_eq!(vtt.render(), expected);
    }

#[test]
fn vtt_iterator() {
        let vtt = WebVtt {
            blocks: vec![
                VttQue {
                    timings: VttTimings {
                        start: VttTimestamp {
                            seconds: 1,
                            ..Default::default()
                        },
                        end: VttTimestamp {
                            seconds: 4,
                            ..Default::default()
                        },
                    },
                    payload: vec!["- Never drink liquid nitrogen.".to_string()],
                    ..Default::default()
                }
                .into(),
                VttQue {
                    timings: VttTimings {
                        start: VttTimestamp {
                            seconds: 5,
                            ..Default::default()
                        },
                        end: VttTimestamp {
                            seconds: 9,
                            ..Default::default()
                        },
                    },
                    payload: vec![
                        "- It will perforate your stomach.".to_string(),
                        "- You could die.".to_string(),
                    ],
                    ..Default::default()
                }
                .into(),
            ],
            ..Default::default()
        };

        let mut iter = vtt;

        assert_eq!(iter.next(), Some(VttQue {
            timings: VttTimings {
                start: VttTimestamp {
                    seconds: 1,
                    ..Default::default()
                },
                end: VttTimestamp {
                    seconds: 4,
                    ..Default::default()
                },
            },
            payload: vec![
                "- Never drink liquid nitrogen.".to_string(),
            ],
            ..Default::default()
        }.into()));

        assert_eq!(
            iter.next(),
            Some(
                VttQue {
                    timings: VttTimings {
                        start: VttTimestamp {
                            seconds: 5,
                            ..Default::default()
                        },
                        end: VttTimestamp {
                            seconds: 9,
                            ..Default::default()
                        },
                    },
                    payload: vec![
                        "- It will perforate your stomach.".to_string(),
                        "- You could die.".to_string(),
                    ],
                    ..Default::default()
                }
                .into()
            )
        );

        assert_eq!(iter.next(), None);
    }

#[test]
fn display_header() {
        let header = VttHeader {
            description: Some(VttDescription::Side(
                "This is a description.".to_string(),
            )),
        };

        let expected = "WEBVTT This is a description.\n";

        assert_eq!(header.to_string(), expected);

        let header = VttHeader {
            description: Some(VttDescription::Below(
                "This is a description.".to_string(),
            )),
        };

        let expected = "WEBVTT\nThis is a description.\n";

        assert_eq!(header.to_string(), expected);

        let header = VttHeader {
            description: None,
        };

        let expected = "WEBVTT\n";

        assert_eq!(header.to_string(), expected);
    }

#[test]
fn display_cue() {
        let cue = VttQue {
            identifier: Some("1".to_string()),
            timings: VttTimings {
                start: VttTimestamp {
                    hours: 0,
                    minutes: 0,
                    seconds: 1,
                    milliseconds: 0,
                },
                end: VttTimestamp {
                    hours: 0,
                    minutes: 0,
                    seconds: 4,
                    milliseconds: 0,
                },
            },
            settings: Some(CueSettings {
                vertical: Some(Vertical::Lr),
                line: Some(Line::Percentage(
                    Percentage { value: 100000000 },
                    Some(LineAlignment::Center),
                )),
                position: Some(Position {
                    value: Percentage { value: 50000000 },
                    alignment: Some(PositionAlignment::Center),
                }),
                size: Some(Percentage { value: 50000000 }),
                align: Some(Alignment::Center),
                region: Some("region".to_string()),
            }),
            payload: vec!["- Never drink liquid nitrogen.".to_string()],
        };

        let expected = "1\n00:00:01.000 --> 00:00:04.000 vertical:lr line:100%,center position:50%,center size:50% align:center region:region\n- Never drink liquid nitrogen.\n";

        assert_eq!(cue.to_string(), expected);

        let cue = VttQue {
            identifier: None,
            timings: VttTimings {
                start: VttTimestamp {
                    hours: 0,
                    minutes: 0,
                    seconds: 1,
                    milliseconds: 0,
                },
                end: VttTimestamp {
                    hours: 0,
                    minutes: 0,
                    seconds: 4,
                    milliseconds: 0,
                },
            },
            settings: None,
            payload: vec!["- Never drink liquid nitrogen.".to_string()],
        };

        let expected =
            "00:00:01.000 --> 00:00:04.000\n- Never drink liquid nitrogen.\n";

        assert_eq!(cue.to_string(), expected);
    }

#[test]
fn display_comment() {
        let comment = VttComment::Side("This is a comment.".to_string());
        let expected = "NOTE This is a comment.\n";
        assert_eq!(comment.to_string(), expected);

        let comment = VttComment::Below("This is a comment.".to_string());
        let expected = "NOTE\nThis is a comment.\n";
        assert_eq!(comment.to_string(), expected);

        let comment =
            VttComment::Side("This is a comment.\nacross line.".to_string());
        let expected = "NOTE This is a comment.\nacross line.\n";
        assert_eq!(comment.to_string(), expected);
    }

#[test]
fn display_style() {
        let style = VttStyle {
            style: "This is a style.".to_string(),
        };
        let expected = "STYLE\nThis is a style.\n";
        assert_eq!(style.to_string(), expected);
    }

#[test]
fn display_region() {
        let region = VttRegion {
            id: Some("region".to_string()),
            width: Some(Percentage { value: 50000000 }),
            lines: Some(3),
            region_anchor: Some(Anchor {
                x: Percentage { value: 50000000 },
                y: Percentage { value: 50000000 },
            }),
            viewport_anchor: Some(Anchor {
                x: Percentage { value: 50000000 },
                y: Percentage { value: 50000000 },
            }),
            scroll: Some(Scroll::Up),
        };
        let expected = "REGION\nid:region\nwidth:50%\nlines:3\nregionanchor:50%,50%\nviewportanchor:50%,50%\nscroll:up\n";
        assert_eq!(region.to_string(), expected);

        let region = VttRegion {
            id: Some("region".to_string()),
            width: Some(Percentage { value: 50000000 }),
            lines: None,
            region_anchor: None,
            viewport_anchor: None,
            scroll: None,
        };
        let expected = "REGION\nid:region\nwidth:50%\n";
        assert_eq!(region.to_string(), expected);
    }

#[test]
fn timestamp() {
        assert_eq!(
            vtt_parser::timestamp("00:00:00.000").unwrap(),
            VttTimestamp {
                hours: 0,
                minutes: 0,
                seconds: 0,
                milliseconds: 0,
            }
        );
        assert_eq!(
            vtt_parser::timestamp("00:00:01.000").unwrap(),
            VttTimestamp {
                hours: 0,
                minutes: 0,
                seconds: 1,
                milliseconds: 0,
            }
        );
        assert_eq!(
            vtt_parser::timestamp("00:01:00.000").unwrap(),
            VttTimestamp {
                hours: 0,
                minutes: 1,
                seconds: 0,
                milliseconds: 0,
            }
        );
        assert_eq!(
            vtt_parser::timestamp("01:00:00.000").unwrap(),
            VttTimestamp {
                hours: 1,
                minutes: 0,
                seconds: 0,
                milliseconds: 0,
            }
        );

        // Allow without hours.
        assert_eq!(
            vtt_parser::timestamp("00:01.000").unwrap(),
            VttTimestamp {
                hours: 0,
                minutes: 0,
                seconds: 1,
                milliseconds: 0,
            }
        );

        // Invalid digits.
        assert!(vtt_parser::timestamp("000:00:00.000").is_err());
        assert!(vtt_parser::timestamp("00:000:00.000").is_err());
        assert!(vtt_parser::timestamp("00:00:000.000").is_err());
        assert!(vtt_parser::timestamp("00:00:00.0000").is_err());
        assert!(vtt_parser::timestamp("00:00:00.00").is_err());
        // Invalid formats.
        assert!(vtt_parser::timestamp("00:00:00.").is_err());
        assert!(vtt_parser::timestamp("00:00:00").is_err());
        // Invalid separators. (like SubRip Subtitle)
        assert!(vtt_parser::timestamp("00:00:00,000").is_err());
    }

#[test]
fn timings() {
        let expected = VttTimings {
            start: VttTimestamp {
                hours: 0,
                minutes: 0,
                seconds: 0,
                milliseconds: 0,
            },
            end: VttTimestamp {
                hours: 0,
                minutes: 0,
                seconds: 1,
                milliseconds: 0,
            },
        };

        assert_eq!(
            vtt_parser::timings("00:00:00.000 --> 00:00:01.000").unwrap(),
            expected
        );

        assert_eq!(
            vtt_parser::timings("00:00.000 --> 00:01.000").unwrap(),
            expected
        );

        assert_eq!(
            vtt_parser::timings("00:00:00.000 --> 00:01.000").unwrap(),
            expected
        );

        assert_eq!(
            vtt_parser::timings("00:00.000 --> 00:00:01.000").unwrap(),
            expected
        );

        assert_eq!(
            vtt_parser::timings("00:00.000-->00:00:01.000").unwrap(),
            expected
        );

        assert_eq!(
            vtt_parser::timings("00:00.000 -->00:00:01.000").unwrap(),
            expected
        );

        assert_eq!(
            vtt_parser::timings("00:00.000--> 00:00:01.000").unwrap(),
            expected
        );

        assert_eq!(
            vtt_parser::timings("00:00.000  -->  00:00:01.000").unwrap(),
            expected
        );

        assert!(vtt_parser::timings("00:00.000 -->\n00:00:01.000").is_err());
    }

#[test]
fn cue_region() {
        assert_eq!(
            vtt_parser::cue_region("region:id").unwrap(),
            "id".to_string()
        );
        assert!(vtt_parser::cue_region("region: id").is_err());
    }

#[test]
fn cue_vertical() {
        assert_eq!(
            vtt_parser::cue_vertical("vertical:rl").unwrap(),
            Vertical::Rl
        );
        assert_eq!(
            vtt_parser::cue_vertical("vertical:lr").unwrap(),
            Vertical::Lr
        );
        assert!(vtt_parser::cue_vertical("vertical:rr").is_err());
        assert!(vtt_parser::cue_vertical("vertical: rl").is_err());
    }

#[test]
fn cue_line() {
        assert_eq!(
            vtt_parser::cue_line("line:1").unwrap(),
            Line::LineNumber(1, None)
        );
        assert_eq!(
            vtt_parser::cue_line("line:1,center").unwrap(),
            Line::LineNumber(1, Some(LineAlignment::Center))
        );
        assert_eq!(
            vtt_parser::cue_line("line:-1").unwrap(),
            Line::LineNumber(-1, None)
        );
        assert_eq!(
            vtt_parser::cue_line("line:-1,start").unwrap(),
            Line::LineNumber(-1, Some(LineAlignment::Start))
        );
        assert_eq!(
            vtt_parser::cue_line("line:10%").unwrap(),
            Line::Percentage(
                Percentage { value: 10000000 },
                None,
            )
        );
        assert_eq!(
            vtt_parser::cue_line("line:10%,end").unwrap(),
            Line::Percentage(
                Percentage { value: 10000000 },
                Some(LineAlignment::End),
            )
        );

        assert!(vtt_parser::cue_line("line:10.0").is_err());
        assert!(vtt_parser::cue_line("line:101%").is_err());
        assert!(vtt_parser::cue_line("line: 1").is_err());
    }

#[test]
fn cue_position() {
        assert_eq!(
            vtt_parser::cue_position("position:10%").unwrap(),
            Position {
                value: Percentage { value: 10000000 },
                alignment: None,
            }
        );
        assert_eq!(
            vtt_parser::cue_position("position:1%,line-left").unwrap(),
            Position {
                value: Percentage { value: 1000000 },
                alignment: Some(PositionAlignment::LineLeft),
            }
        );
        assert_eq!(
            vtt_parser::cue_position("position:100%,line-right").unwrap(),
            Position {
                value: Percentage { value: 100000000 },
                alignment: Some(PositionAlignment::LineRight),
            }
        );
        assert!(vtt_parser::cue_position("position:10.0").is_err());
        assert!(vtt_parser::cue_position("position:101%").is_err());
        assert!(vtt_parser::cue_position("position: 10%").is_err());
    }

#[test]
fn cue_size() {
        assert_eq!(
            vtt_parser::cue_size("size:10%").unwrap(),
            Percentage { value: 10000000 }
        );
        assert!(vtt_parser::cue_size("size:10.0").is_err());
        assert!(vtt_parser::cue_size("size:101%").is_err());
        assert!(vtt_parser::cue_size("size: 10%").is_err());
    }

#[test]
fn cue_align() {
        assert_eq!(
            vtt_parser::cue_align("align:start").unwrap(),
            Alignment::Start
        );
        assert_eq!(
            vtt_parser::cue_align("align:center").unwrap(),
            Alignment::Center
        );
        assert_eq!(
            vtt_parser::cue_align("align:end").unwrap(),
            Alignment::End
        );
        assert_eq!(
            vtt_parser::cue_align("align:left").unwrap(),
            Alignment::Left
        );
        assert_eq!(
            vtt_parser::cue_align("align:right").unwrap(),
            Alignment::Right
        );
        assert!(vtt_parser::cue_align("align:middle").is_err());
        assert!(vtt_parser::cue_align("align: start").is_err());
    }

#[test]
fn cue_settings() {
        assert_eq!(
            vtt_parser::cue_settings("region:id").unwrap(),
            CueSettings {
                region: Some("id".to_string()),
                vertical: None,
                line: None,
                position: None,
                size: None,
                align: None,
            }
        );

        assert_eq!(
            vtt_parser::cue_settings("vertical:rl").unwrap(),
            CueSettings {
                region: None,
                vertical: Some(Vertical::Rl),
                line: None,
                position: None,
                size: None,
                align: None,
            }
        );

        assert_eq!(
            vtt_parser::cue_settings("line:1").unwrap(),
            CueSettings {
                region: None,
                vertical: None,
                line: Some(Line::LineNumber(1, None)),
                position: None,
                size: None,
                align: None,
            }
        );

        assert_eq!(
            vtt_parser::cue_settings("position:10%").unwrap(),
            CueSettings {
                region: None,
                vertical: None,
                line: None,
                position: Some(Position {
                    value: Percentage { value: 10000000 },
                    alignment: None,
                }),
                size: None,
                align: None,
            }
        );

        assert_eq!(
            vtt_parser::cue_settings("size:10%").unwrap(),
            CueSettings {
                region: None,
                vertical: None,
                line: None,
                position: None,
                size: Some(Percentage { value: 10000000 }),
                align: None,
            }
        );

        assert_eq!(
            vtt_parser::cue_settings("align:start").unwrap(),
            CueSettings {
                region: None,
                vertical: None,
                line: None,
                position: None,
                size: None,
                align: Some(Alignment::Start),
            }
        );

        let settings = CueSettings {
            region: Some("id".to_string()),
            vertical: Some(Vertical::Rl),
            line: Some(Line::LineNumber(1, None)),
            position: Some(Position {
                value: Percentage { value: 10000000 },
                alignment: None,
            }),
            size: Some(Percentage { value: 10000000 }),
            align: Some(Alignment::Start),
        };

        assert_eq!(
            vtt_parser::cue_settings("region:id vertical:rl line:1 position:10% size:10% align:start").unwrap(),
            settings
        );
        assert_eq!(
            vtt_parser::cue_settings("vertical:rl line:1 position:10% size:10% align:start region:id").unwrap(),
            settings
        );
        assert_eq!(
            vtt_parser::cue_settings("line:1 position:10% size:10% align:start region:id vertical:rl").unwrap(),
            settings
        );
    }

#[test]
fn cue() {
        // Minimal
        assert_eq!(
            vtt_parser::cue("00:00:00.000 --> 00:00:01.000\nHello, world!\n")
                .unwrap(),
            VttQue {
                identifier: None,
                timings: VttTimings {
                    start: VttTimestamp {
                        hours: 0,
                        minutes: 0,
                        seconds: 0,
                        milliseconds: 0,
                    },
                    end: VttTimestamp {
                        hours: 0,
                        minutes: 0,
                        seconds: 1,
                        milliseconds: 0,
                    },
                },
                settings: None,
                payload: vec!["Hello, world!".to_string()],
            }
        );

        // With identifier
        assert_eq!(
            vtt_parser::cue(
                "id\n00:00:00.000 --> 00:00:01.000\nHello, world!\n"
            )
            .unwrap(),
            VttQue {
                identifier: Some("id".to_string()),
                timings: VttTimings {
                    start: VttTimestamp {
                        hours: 0,
                        minutes: 0,
                        seconds: 0,
                        milliseconds: 0,
                    },
                    end: VttTimestamp {
                        hours: 0,
                        minutes: 0,
                        seconds: 1,
                        milliseconds: 0,
                    },
                },
                settings: None,
                payload: vec!["Hello, world!".to_string()],
            }
        );

        // With settings
        assert_eq!(
            vtt_parser::cue(
                "00:00:00.000 --> 00:00:01.000 line:1 position:50%\nHello, world!\n"
            )
                .unwrap(),
            VttQue {
                identifier: None,
                timings: VttTimings {
                    start: VttTimestamp {
                        hours: 0,
                        minutes: 0,
                        seconds: 0,
                        milliseconds: 0,
                    },
                    end: VttTimestamp {
                        hours: 0,
                        minutes: 0,
                        seconds: 1,
                        milliseconds: 0,
                    },
                },
                settings: Some(CueSettings {
                    line: Some(Line::LineNumber(1, None)),
                    position: Some(Position {
                        value: Percentage { value: 50000000 },
                        alignment: None,
                    }),
                    ..Default::default()
                }),
                payload: vec!["Hello, world!".to_string()],
            }
        );

        // With identifier and settings
        assert_eq!(
            vtt_parser::cue(
                "id\n00:00:00.000 --> 00:00:01.000 line:1 position:50%\nHello, world!\n"
            )
                .unwrap(),
            VttQue {
                identifier: Some("id".to_string()),
                timings: VttTimings {
                    start: VttTimestamp {
                        hours: 0,
                        minutes: 0,
                        seconds: 0,
                        milliseconds: 0,
                    },
                    end: VttTimestamp {
                        hours: 0,
                        minutes: 0,
                        seconds: 1,
                        milliseconds: 0,
                    },
                },
                settings: Some(CueSettings {
                    line: Some(Line::LineNumber(1, None)),
                    position: Some(Position {
                        value: Percentage { value: 50000000 },
                        alignment: None,
                    }),
                    ..Default::default()
                }),
                payload: vec!["Hello, world!".to_string()],
            }
        );

        // Allow whitespaces
        assert_eq!(
            vtt_parser::cue(
                " id \n 00:00:00.000 --> 00:00:01.000  line:1  position:50%  \n Hello, world! \n"
            )
                .unwrap(),
            VttQue {
                identifier: Some("id".to_string()),
                timings: VttTimings {
                    start: VttTimestamp {
                        hours: 0,
                        minutes: 0,
                        seconds: 0,
                        milliseconds: 0,
                    },
                    end: VttTimestamp {
                        hours: 0,
                        minutes: 0,
                        seconds: 1,
                        milliseconds: 0,
                    },
                },
                settings: Some(CueSettings {
                    line: Some(Line::LineNumber(1, None)),
                    position: Some(Position {
                        value: Percentage { value: 50000000 },
                        alignment: None,
                    }),
                    ..Default::default()
                }),
                payload: vec!["Hello, world!".to_string()],
            }
        );

        // Prohibit two or more newlines
        assert!(vtt_parser::cue("id\n\n00:00:00.000 --> 00:00:01.000 line:1 position:50%\nHello, world!\n").is_err());
        assert!(vtt_parser::cue("id\n00:00:00.000 --> 00:00:01.000 line:1 position:50%\n\nHello, world!\n").is_err());
        assert!(vtt_parser::cue("id\n00:00:00.000 --> 00:00:01.000 line:1 position:50%\nHello, world!\n\n").is_err());
    }

#[test]
fn comment() {
        assert_eq!(
            vtt_parser::comment("NOTE comment\n").unwrap(),
            VttComment::Side("comment".to_string())
        );

        assert_eq!(
            vtt_parser::comment("NOTE\ncomment\nmultiline\n").unwrap(),
            VttComment::Below("comment\nmultiline".to_string())
        );

        assert_eq!(
            vtt_parser::comment("NOTE comment\nacross line\n").unwrap(),
            VttComment::Side("comment\nacross line".to_string())
        );

        assert!(vtt_parser::comment("NOTE").is_err());
        assert!(vtt_parser::comment("NOTE \n").is_err());
        assert!(vtt_parser::comment("NOTE_Comment\n").is_err());
        assert!(vtt_parser::comment("NOTE\n\n").is_err());
    }

#[test]
fn header() {
        assert_eq!(
            vtt_parser::header("WEBVTT\n").unwrap(),
            VttHeader {
                description: None
            }
        );

        assert_eq!(
            vtt_parser::header("WEBVTT\ndescription\n").unwrap(),
            VttHeader {
                description: Some(VttDescription::Below(
                    "description\n".to_string()
                ))
            }
        );

        assert_eq!(
            vtt_parser::header("WEBVTT\nfirst\nsecond\n").unwrap(),
            VttHeader {
                description: Some(VttDescription::Below(
                    "first\nsecond\n".to_string()
                ))
            }
        );

        assert_eq!(
            vtt_parser::header("WEBVTT description\n").unwrap(),
            VttHeader {
                description: Some(VttDescription::Side(
                    "description\n".to_string()
                ))
            }
        );

        assert!(vtt_parser::header("WEBVTT").is_err());
        assert!(vtt_parser::header("WEBVTT\n\n").is_err());
        assert!(vtt_parser::header(" WEBVTT\n").is_err());
        assert!(vtt_parser::header("webvtt\n").is_err());
    }

#[test]
fn style() {
        assert_eq!(
            vtt_parser::style("STYLE\nfirst\nsecond\n").unwrap(),
            VttStyle {
                style: "first\nsecond\n".to_string()
            }
        );

        assert!(vtt_parser::style("STYLE first\n").is_err());
        assert!(vtt_parser::style("STYLE\n").is_err());
        assert!(vtt_parser::style("STYLE").is_err());
        assert!(vtt_parser::style("STYLE\n\n").is_err());
        assert!(vtt_parser::style(" STYLE\n").is_err());
        assert!(vtt_parser::style("style\n").is_err());
    }

#[test]
fn region_id() {
        assert_eq!(
            vtt_parser::region_id("id:region").unwrap(),
            "region".to_string()
        );
        assert!(vtt_parser::region_id("id: region").is_err());
    }

#[test]
fn region_width() {
        assert_eq!(
            vtt_parser::region_width("width:10%").unwrap(),
            Percentage { value: 10000000 }
        );
        assert!(vtt_parser::region_width("width:10.0").is_err());
        assert!(vtt_parser::region_width("width:101%").is_err());
        assert!(vtt_parser::region_width("width: 10%").is_err());
    }

#[test]
fn region_lines() {
        assert_eq!(
            vtt_parser::region_lines("lines:10").unwrap(),
            10
        );
        assert!(vtt_parser::region_lines("lines:10.0").is_err());
        assert!(vtt_parser::region_lines("lines: 10").is_err());
    }

#[test]
fn region_region_anchor() {
        assert_eq!(
            vtt_parser::region_region_anchor("regionanchor:10%,10%").unwrap(),
            Anchor {
                x: Percentage { value: 10000000 },
                y: Percentage { value: 10000000 },
            }
        );
        assert_eq!(
            vtt_parser::region_region_anchor("regionanchor:10.1%,10%").unwrap(),
            Anchor {
                x: Percentage { value: 10100000 },
                y: Percentage { value: 10000000 },
            }
        );
        assert!(
            vtt_parser::region_region_anchor("regionanchor:10,10").is_err()
        );
        assert!(
            vtt_parser::region_region_anchor("regionanchor:101%,10%").is_err()
        );
        assert!(
            vtt_parser::region_region_anchor("regionanchor: 10%,10%").is_err()
        );
    }

#[test]
fn region_viewport_anchor() {
        assert_eq!(
            vtt_parser::region_viewport_anchor("viewportanchor:10%,10%")
                .unwrap(),
            Anchor {
                x: Percentage { value: 10000000 },
                y: Percentage { value: 10000000 },
            }
        );
        assert_eq!(
            vtt_parser::region_viewport_anchor("viewportanchor:10.1%,10%")
                .unwrap(),
            Anchor {
                x: Percentage { value: 10100000 },
                y: Percentage { value: 10000000 },
            }
        );
        assert!(
            vtt_parser::region_viewport_anchor("viewportanchor:10,10").is_err()
        );
        assert!(
            vtt_parser::region_viewport_anchor("viewportanchor:101%,10%")
                .is_err()
        );
        assert!(
            vtt_parser::region_viewport_anchor("viewportanchor: 10%,10%")
                .is_err()
        );
    }

#[test]
fn region_scroll() {
        assert_eq!(
            vtt_parser::region_scroll("scroll:up").unwrap(),
            Scroll::Up
        );
        assert!(vtt_parser::region_scroll("scroll:down").is_err());
        assert!(vtt_parser::region_scroll("scroll: up").is_err());
    }

#[test]
fn region() {
        assert!(vtt_parser::region("REGION\n").is_err());

        assert_eq!(
            vtt_parser::region("REGION\nid:region\n").unwrap(),
            VttRegion {
                id: Some("region".to_string()),
                ..Default::default()
            }
        );

        assert_eq!(
            vtt_parser::region("REGION\nwidth:10%\n").unwrap(),
            VttRegion {
                width: Some(Percentage { value: 10000000 }),
                ..Default::default()
            }
        );

        assert_eq!(
            vtt_parser::region("REGION\nlines:10\n").unwrap(),
            VttRegion {
                lines: Some(10),
                ..Default::default()
            }
        );

        assert_eq!(
            vtt_parser::region("REGION\nregionanchor:10%,10%\n").unwrap(),
            VttRegion {
                region_anchor: Some(Anchor {
                    x: Percentage { value: 10000000 },
                    y: Percentage { value: 10000000 },
                }),
                ..Default::default()
            }
        );

        assert_eq!(
            vtt_parser::region("REGION\nviewportanchor:10%,10%\n").unwrap(),
            VttRegion {
                viewport_anchor: Some(Anchor {
                    x: Percentage { value: 10000000 },
                    y: Percentage { value: 10000000 },
                }),
                ..Default::default()
            }
        );

        assert_eq!(
            vtt_parser::region("REGION\nscroll:up\n").unwrap(),
            VttRegion {
                scroll: Some(Scroll::Up),
                ..Default::default()
            }
        );

        assert_eq!(
            vtt_parser::region("REGION\nid:region\nwidth:10%\nlines:10\nregionanchor:10%,10%\nviewportanchor:10%,10%\nscroll:up\n").unwrap(),
            VttRegion {
                id: Some("region".to_string()),
                width: Some(Percentage { value: 10000000 }),
                lines: Some(10),
                region_anchor: Some(Anchor {
                    x: Percentage { value: 10000000 },
                    y: Percentage { value: 10000000 },
                }),
                viewport_anchor: Some(Anchor {
                    x: Percentage { value: 10000000 },
                    y: Percentage { value: 10000000 },
                }),
                scroll: Some(Scroll::Up),

            });

        assert_eq!(
            vtt_parser::region("REGION\nwidth:10%\nlines:10\nregionanchor:10%,10%\nviewportanchor:10%,10%\nscroll:up\nid:region\n").unwrap(),
            VttRegion {
                id: Some("region".to_string()),
                width: Some(Percentage { value: 10000000 }),
                lines: Some(10),
                region_anchor: Some(Anchor {
                    x: Percentage { value: 10000000 },
                    y: Percentage { value: 10000000 },
                }),
                viewport_anchor: Some(Anchor {
                    x: Percentage { value: 10000000 },
                    y: Percentage { value: 10000000 },
                }),
                scroll: Some(Scroll::Up),

            });
    }

#[test]
fn vtt() {
        let text = r#"WEBVTT

00:01.000 --> 00:04.000
- Never drink liquid nitrogen.

00:05.000 --> 00:09.000
- It will perforate your stomach.
- You could die.
"#;

        let expected = WebVtt {
            header: VttHeader {
                description: None,
            },
            blocks: vec![
                VttQue {
                    identifier: None,
                    timings: VttTimings {
                        start: VttTimestamp {
                            hours: 0,
                            minutes: 0,
                            seconds: 1,
                            milliseconds: 0,
                        },
                        end: VttTimestamp {
                            hours: 0,
                            minutes: 0,
                            seconds: 4,
                            milliseconds: 0,
                        },
                    },
                    settings: None,
                    payload: vec!["- Never drink liquid nitrogen.".to_string()],
                }
                .into(),
                VttQue {
                    identifier: None,
                    timings: VttTimings {
                        start: VttTimestamp {
                            hours: 0,
                            minutes: 0,
                            seconds: 5,
                            milliseconds: 0,
                        },
                        end: VttTimestamp {
                            hours: 0,
                            minutes: 0,
                            seconds: 9,
                            milliseconds: 0,
                        },
                    },
                    settings: None,
                    payload: vec![
                        "- It will perforate your stomach.".to_string(),
                        "- You could die.".to_string(),
                    ],
                }
                .into(),
            ],
        };

        assert_eq!(vtt_parser::vtt(text).unwrap(), expected);

        let text = r#"WEBVTT - This file has cues.

14
00:01:14.815 --> 00:01:18.114
- What?
- Where are we now?

15
00:01:18.171 --> 00:01:20.991
- This is big bat country.

16
00:01:21.058 --> 00:01:23.868
- [ Bats Screeching ]
- They won't get in your hair. They're after the bugs.
"#;

        let expected = WebVtt {
            header: VttHeader {
                description: Some(VttDescription::Side("- This file has cues.\n".to_string()))
            },
            blocks: vec![
                VttQue {
                    identifier: Some("14".to_string()),
                    timings: VttTimings {
                        start: VttTimestamp {
                            hours: 0,
                            minutes: 1,
                            seconds: 14,
                            milliseconds: 815,
                        },
                        end: VttTimestamp {
                            hours: 0,
                            minutes: 1,
                            seconds: 18,
                            milliseconds: 114,
                        },
                    },
                    settings: None,
                    payload: vec![
                        "- What?".to_string(),
                        "- Where are we now?".to_string(),
                    ],
                }.into(),
                VttQue {
                    identifier: Some("15".to_string()),
                    timings: VttTimings {
                        start: VttTimestamp {
                            hours: 0,
                            minutes: 1,
                            seconds: 18,
                            milliseconds: 171,
                        },
                        end: VttTimestamp {
                            hours: 0,
                            minutes: 1,
                            seconds: 20,
                            milliseconds: 991,
                        },
                    },
                    settings: None,
                    payload: vec![
                        "- This is big bat country.".to_string(),
                    ],
                }.into(),
                VttQue {
                    identifier: Some("16".to_string()),
                    timings: VttTimings {
                        start: VttTimestamp {
                            hours: 0,
                            minutes: 1,
                            seconds: 21,
                            milliseconds: 58,
                        },
                        end: VttTimestamp {
                            hours: 0,
                            minutes: 1,
                            seconds: 23,
                            milliseconds: 868,
                        },
                    },
                    settings: None,
                    payload: vec![
                        "- [ Bats Screeching ]".to_string(),
                        "- They won't get in your hair. They're after the bugs.".to_string(),
                    ],
                }.into(),
            ],
        };

        assert_eq!(vtt_parser::vtt(text).unwrap(), expected);

        let text = r#"WEBVTT - Translation of that film I like

NOTE
This translation was done by Kyle so that
some friends can watch it with their parents.

1
00:02:15.000 --> 00:02:20.000
- Ta en kopp varmt te.
- Det är inte varmt.

2
00:02:20.000 --> 00:02:25.000
- Har en kopp te.
- Det smakar som te.

NOTE This last line may not translate well.

3
00:02:25.000 --> 00:02:30.000
- Ta en kopp
"#;

        let expected = WebVtt {
            header: VttHeader {
                description: Some(VttDescription::Side("- Translation of that film I like\n".to_string()))
            },
            blocks: vec![
                VttComment::Below("This translation was done by Kyle so that\nsome friends can watch it with their parents.".to_string()).into(),
                VttQue {
                    identifier: Some("1".to_string()),
                    timings: VttTimings {
                        start: VttTimestamp {
                            hours: 0,
                            minutes: 2,
                            seconds: 15,
                            milliseconds: 0,
                        },
                        end: VttTimestamp {
                            hours: 0,
                            minutes: 2,
                            seconds: 20,
                            milliseconds: 0,
                        },
                    },
                    settings: None,
                    payload: vec![
                        "- Ta en kopp varmt te.".to_string(),
                        "- Det är inte varmt.".to_string(),
                    ],
                }.into(),
                VttQue {
                    identifier: Some("2".to_string()),
                    timings: VttTimings {
                        start: VttTimestamp {
                            hours: 0,
                            minutes: 2,
                            seconds: 20,
                            milliseconds: 0,
                        },
                        end: VttTimestamp {
                            hours: 0,
                            minutes: 2,
                            seconds: 25,
                            milliseconds: 0,
                        },
                    },
                    settings: None,
                    payload: vec![
                        "- Har en kopp te.".to_string(),
                        "- Det smakar som te.".to_string(),
                    ],
                }.into(),
                VttComment::Side("This last line may not translate well.".to_string()).into(),
                VttQue {
                    identifier: Some("3".to_string()),
                    timings: VttTimings {
                        start: VttTimestamp {
                            hours: 0,
                            minutes: 2,
                            seconds: 25,
                            milliseconds: 0,
                        },
                        end: VttTimestamp {
                            hours: 0,
                            minutes: 2,
                            seconds: 30,
                            milliseconds: 0,
                        },
                    },
                    settings: None,
                    payload: vec!["- Ta en kopp".to_string()],
                }.into(),
            ],
        };

        assert_eq!(vtt_parser::vtt(text).unwrap(), expected);

        let text = r#"WEBVTT

STYLE
::cue {
  background-image: linear-gradient(to bottom, dimgray, lightgray);
  color: papayawhip;
}
/* Style blocks cannot use blank lines nor "dash dash greater than" */

NOTE comment blocks can be used between style blocks.

STYLE
::cue(b) {
  color: peachpuff;
}

00:00:00.000 --> 00:00:10.000
- Hello <b>world</b>.

NOTE style blocks cannot appear after the first cue.
"#;

        let expected = WebVtt {
            header: VttHeader {
                description: None
            },
            blocks: vec![
                VttStyle {
                    style: "::cue {\n  background-image: linear-gradient(to bottom, dimgray, lightgray);\n  color: papayawhip;\n}\n/* Style blocks cannot use blank lines nor \"dash dash greater than\" */\n".to_string()
                }.into(),
                VttComment::Side("comment blocks can be used between style blocks.".to_string()).into(),
                VttStyle {
                    style: "::cue(b) {\n  color: peachpuff;\n}\n".to_string()
                }.into(),
                VttQue {
                    identifier: None,
                    timings: VttTimings {
                        start: VttTimestamp {
                            hours: 0,
                            minutes: 0,
                            seconds: 0,
                            milliseconds: 0,
                        },
                        end: VttTimestamp {
                            hours: 0,
                            minutes: 0,
                            seconds: 10,
                            milliseconds: 0,
                        },
                    },
                    settings: None,
                    payload: vec!["- Hello <b>world</b>.".to_string()],
                }.into(),
                VttComment::Side("style blocks cannot appear after the first cue.".to_string()).into(),
            ],
        };

        assert_eq!(vtt_parser::vtt(text).unwrap(), expected);

        let text = r#"WEBVTT

00:00:00.000 --> 00:00:04.000 position:10%,line-left align:left size:35%
Where did he go?

00:00:03.000 --> 00:00:06.500 position:90% align:right size:35%
I think he went down this lane.

00:00:04.000 --> 00:00:06.500 position:45%,line-right align:center size:35%
What are you waiting for?
"#;

        let expected = WebVtt {
            header: VttHeader {
                description: None,
            },
            blocks: vec![
                VttQue {
                    identifier: None,
                    timings: VttTimings {
                        start: VttTimestamp {
                            hours: 0,
                            minutes: 0,
                            seconds: 0,
                            milliseconds: 0,
                        },
                        end: VttTimestamp {
                            hours: 0,
                            minutes: 0,
                            seconds: 4,
                            milliseconds: 0,
                        },
                    },
                    settings: Some(CueSettings {
                        position: Some(Position {
                            value: Percentage { value: 10000000 },
                            alignment: Some(PositionAlignment::LineLeft),
                        }),
                        align: Some(Alignment::Left),
                        size: Some(Percentage { value: 35000000 }),
                        ..Default::default()
                    }),
                    payload: vec!["Where did he go?".to_string()],
                }
                .into(),
                VttQue {
                    identifier: None,
                    timings: VttTimings {
                        start: VttTimestamp {
                            hours: 0,
                            minutes: 0,
                            seconds: 3,
                            milliseconds: 0,
                        },
                        end: VttTimestamp {
                            hours: 0,
                            minutes: 0,
                            seconds: 6,
                            milliseconds: 500,
                        },
                    },
                    settings: Some(CueSettings {
                        position: Some(Position {
                            value: Percentage { value: 90000000 },
                            alignment: None,
                        }),
                        align: Some(Alignment::Right),
                        size: Some(Percentage { value: 35000000 }),
                        ..Default::default()
                    }),
                    payload: vec![
                        "I think he went down this lane.".to_string(),
                    ],
                }
                .into(),
                VttQue {
                    identifier: None,
                    timings: VttTimings {
                        start: VttTimestamp {
                            hours: 0,
                            minutes: 0,
                            seconds: 4,
                            milliseconds: 0,
                        },
                        end: VttTimestamp {
                            hours: 0,
                            minutes: 0,
                            seconds: 6,
                            milliseconds: 500,
                        },
                    },
                    settings: Some(CueSettings {
                        position: Some(Position {
                            value: Percentage { value: 45000000 },
                            alignment: Some(PositionAlignment::LineRight),
                        }),
                        align: Some(Alignment::Center),
                        size: Some(Percentage { value: 35000000 }),
                        ..Default::default()
                    }),
                    payload: vec!["What are you waiting for?".to_string()],
                }
                .into(),
            ],
        };

        assert_eq!(vtt_parser::vtt(text).unwrap(), expected);
    }
