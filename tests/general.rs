use subtp::general;
use subtp::vtt::{Anchor, Percentage};

fn millionths_f32(v: u64) -> f32 {
    (v as f64 / 1_000_000.0) as f32
}

fn percent_f32(p: Percentage) -> f32 {
    millionths_f32(p.value as u64)
}

fn anchor_f32(a: Anchor) -> (f32, f32) {
    (percent_f32(a.x), percent_f32(a.y))
}

#[test]
fn general_whitespace() {
        assert!(general::whitespace(" ").is_ok());
        assert!(general::whitespace("\t").is_ok());
        assert!(general::whitespace("a").is_err());
    }

#[test]
fn whitespaces() {
        assert!(general::whitespaces("").is_ok());
        assert!(general::whitespaces(" ").is_ok());
        assert!(general::whitespaces("  ").is_ok());
        assert!(general::whitespaces("    ").is_ok());
        assert!(general::whitespaces("a").is_err());
    }

#[test]
fn some_whitespaces() {
        assert!(general::some_whitespaces("").is_err());
        assert!(general::some_whitespaces(" ").is_ok());
        assert!(general::some_whitespaces("  ").is_ok());
        assert!(general::some_whitespaces("    ").is_ok());
        assert!(general::some_whitespaces("a").is_err());
    }

#[test]
fn general_newline() {
        assert!(general::newline("\n").is_ok());
        assert!(general::newline("\r").is_ok());
        assert!(general::newline("\r\n").is_ok());
        assert!(general::newline("").is_err());
        assert!(general::newline("\n\r").is_err());
        assert!(general::newline("\n\n").is_err());
        assert!(general::newline("a").is_err());
    }

#[test]
fn newlines() {
        assert!(general::newlines("").is_ok());
        assert!(general::newlines("\n").is_ok());
        assert!(general::newlines("\n\n").is_ok());
        assert!(general::newlines("a").is_err());
    }

#[test]
fn some_newlines() {
        assert!(general::some_newlines("").is_err());
        assert!(general::some_newlines("\n").is_ok());
        assert!(general::some_newlines("\n\n").is_ok());
        assert!(general::some_newlines("a").is_err());
    }

#[test]
fn some_whitespaces_or_newline() {
        assert!(general::some_whitespaces_or_newline(" ").is_ok());
        assert!(general::some_whitespaces_or_newline("     ").is_ok());
        assert!(general::some_whitespaces_or_newline("\n").is_ok());
        assert!(general::some_whitespaces_or_newline(" \n").is_err());
        assert!(general::some_whitespaces_or_newline("\n ").is_err());
        assert!(general::some_whitespaces_or_newline("\n\n").is_err());
        assert!(general::some_whitespaces_or_newline("a").is_err());
    }

#[test]
fn whitespaces_or_newlines() {
        assert!(general::whitespaces_or_newlines("").is_ok());
        assert!(general::whitespaces_or_newlines(" ").is_ok());
        assert!(general::whitespaces_or_newlines("\n").is_ok());
        assert!(general::whitespaces_or_newlines("\n ").is_ok());
        assert!(general::whitespaces_or_newlines("  ").is_ok());
        assert!(general::whitespaces_or_newlines("\n\n").is_ok());
        assert!(general::whitespaces_or_newlines("a").is_err());
    }

#[test]
fn some_whitespaces_or_newlines() {
        assert!(general::some_whitespaces_or_newlines("").is_err());
        assert!(general::some_whitespaces_or_newlines(" ").is_ok());
        assert!(general::some_whitespaces_or_newlines("\n").is_ok());
        assert!(general::some_whitespaces_or_newlines("\n ").is_ok());
        assert!(general::some_whitespaces_or_newlines("  ").is_ok());
        assert!(general::some_whitespaces_or_newlines("\n\n").is_ok());
        assert!(general::some_whitespaces_or_newlines("a").is_err());
    }

#[test]
fn general_number() {
        assert_eq!(general::number("0").unwrap(), 0);
        assert_eq!(general::number("1").unwrap(), 1);
        assert_eq!(general::number("9").unwrap(), 9);
        assert_eq!(general::number("10").unwrap(), 10);
        assert_eq!(
            general::number("123").unwrap(),
            123
        );
        assert!(general::number("a").is_err());
        assert!(general::number(" ").is_err());
    }

#[test]
fn general_signed_number() {
        assert_eq!(general::integer("0").unwrap(), 0);
        assert_eq!(general::integer("1").unwrap(), 1);
        assert_eq!(general::integer("9").unwrap(), 9);
        assert_eq!(general::integer("10").unwrap(), 10);
        assert_eq!(general::integer("123").unwrap(), 123);
        assert_eq!(general::integer("+0").unwrap(), 0);
        assert_eq!(general::integer("+1").unwrap(), 1);
        assert_eq!(general::integer("+9").unwrap(), 9);
        assert_eq!(general::integer("+10").unwrap(), 10);
        assert_eq!(general::integer("+123").unwrap(), 123);
        assert_eq!(general::integer("-0").unwrap(), 0);
        assert_eq!(general::integer("-1").unwrap(), -1);
        assert_eq!(general::integer("-9").unwrap(), -9);
        assert_eq!(general::integer("-10").unwrap(), -10);
        assert_eq!(general::integer("-123").unwrap(), -123);
        assert!(general::integer("a").is_err());
        assert!(general::integer(" ").is_err());
    }

#[test]
fn general_two_number() {
        assert_eq!(
            general::two_number("00").unwrap(),
            0
        );
        assert_eq!(
            general::two_number("01").unwrap(),
            1
        );
        assert_eq!(
            general::two_number("09").unwrap(),
            9
        );
        assert_eq!(
            general::two_number("10").unwrap(),
            10
        );
        assert_eq!(
            general::two_number("99").unwrap(),
            99
        );
        assert!(general::two_number("0").is_err());
        assert!(general::two_number("000").is_err());
        assert!(general::two_number("a").is_err());
        assert!(general::two_number(" ").is_err());
    }

#[test]
fn general_three_number() {
        assert_eq!(
            general::three_number("000").unwrap(),
            0
        );
        assert_eq!(
            general::three_number("001").unwrap(),
            1
        );
        assert_eq!(
            general::three_number("009").unwrap(),
            9
        );
        assert_eq!(
            general::three_number("010").unwrap(),
            10
        );
        assert_eq!(
            general::three_number("099").unwrap(),
            99
        );
        assert_eq!(
            general::three_number("100").unwrap(),
            100
        );
        assert_eq!(
            general::three_number("999").unwrap(),
            999
        );
        assert!(general::three_number("00").is_err());
        assert!(general::three_number("0000").is_err());
        assert!(general::three_number("a").is_err());
        assert!(general::three_number(" ").is_err());
    }

#[test]
fn general_float() {
        assert_eq!(millionths_f32(general::float("0.0").unwrap()), 0.0);
        assert_eq!(millionths_f32(general::float("1.0").unwrap()), 1.0);
        assert_eq!(millionths_f32(general::float("9.0").unwrap()), 9.0);
        assert_eq!(
            millionths_f32(general::float("10.01").unwrap()),
            10.01
        );
        assert_eq!(
            millionths_f32(general::float("99.0").unwrap()),
            99.0
        );
        assert!(general::float("0").is_err());
        assert!(general::float("1").is_err());
        assert!(general::float("10").is_err());
        assert!(general::float("a").is_err());
        assert!(general::float(" ").is_err());
    }

#[test]
fn general_percentage_int() {
        assert_eq!(
            general::percentage_int("0%").unwrap(),
            0
        );
        assert_eq!(
            general::percentage_int("1%").unwrap(),
            1
        );
        assert_eq!(
            general::percentage_int("9%").unwrap(),
            9
        );
        assert_eq!(
            general::percentage_int("10%").unwrap(),
            10
        );
        assert_eq!(
            general::percentage_int("99%").unwrap(),
            99
        );
        assert_eq!(
            general::percentage_int("100%").unwrap(),
            100
        );
        assert_eq!(
            general::percentage_int("000%").unwrap(),
            0
        );
        assert!(general::percentage_int("10.0%").is_err());
        assert!(general::percentage_int("100.1%").is_err());
        assert!(general::percentage_int("100.9%").is_err());
        assert!(general::percentage_int("101%").is_err());
        assert!(general::percentage_int("999%").is_err());
        assert!(general::percentage_int("0").is_err());
        assert!(general::percentage_int("a").is_err());
        assert!(general::percentage_int(" ").is_err());
    }

#[test]
fn general_percentage_float() {
        assert_eq!(
            percent_f32(general::percentage_float("0.0%").unwrap()),
            0.0
        );
        assert_eq!(
            percent_f32(general::percentage_float("1.0%").unwrap()),
            1.0
        );
        assert_eq!(
            percent_f32(general::percentage_float("9.0%").unwrap()),
            9.0
        );
        assert_eq!(
            percent_f32(general::percentage_float("10.0%").unwrap()),
            10.0
        );
        assert_eq!(
            percent_f32(general::percentage_float("99.0%").unwrap()),
            99.0
        );
        assert_eq!(
            percent_f32(general::percentage_float("100.0%").unwrap()),
            100.0
        );
        assert_eq!(
            percent_f32(general::percentage_float("99.9%").unwrap()),
            99.9
        );
        assert_eq!(
            percent_f32(general::percentage_float("0.1%").unwrap()),
            0.1
        );
        assert_eq!(
            percent_f32(general::percentage_float("0.9%").unwrap()),
            0.9
        );
        assert!(general::percentage_float("100.1%").is_err());
        assert!(general::percentage_float("100.9%").is_err());
        assert!(general::percentage_float("100").is_err());
        assert!(general::percentage_float("0").is_err());
        assert!(general::percentage_float("a").is_err());
        assert!(general::percentage_float(" ").is_err());
    }

#[test]
fn general_percentage() {
        assert_eq!(
            percent_f32(general::percentage("0%").unwrap()),
            0.0
        );
        assert_eq!(
            percent_f32(general::percentage("1%").unwrap()),
            1.0
        );
        assert_eq!(
            percent_f32(general::percentage("9%").unwrap()),
            9.0
        );
        assert_eq!(
            percent_f32(general::percentage("10%").unwrap()),
            10.0
        );
        assert_eq!(
            percent_f32(general::percentage("99%").unwrap()),
            99.0
        );
        assert_eq!(
            percent_f32(general::percentage("100%").unwrap()),
            100.0
        );
        assert_eq!(
            percent_f32(general::percentage("100.0%").unwrap()),
            100.0
        );
        assert_eq!(
            percent_f32(general::percentage("000%").unwrap()),
            0.0
        );
        assert!(general::percentage("100.1%").is_err());
        assert!(general::percentage("100.9%").is_err());
        assert!(general::percentage("101%").is_err());
        assert!(general::percentage("999%").is_err());
        assert!(general::percentage("0").is_err());
        assert!(general::percentage("a").is_err());
        assert!(general::percentage(" ").is_err());
    }

#[test]
fn general_sequence() {
        assert_eq!(
            general::sequence("Hello,world!").unwrap(),
            "Hello,world!".to_string()
        );
        assert!(general::sequence(" Hello,world!").is_err());
        assert!(general::sequence("Hello, world!").is_err());
        assert!(general::sequence("Hello,world! ").is_err());
        assert!(general::sequence("\nHello,world!").is_err());
        assert!(general::sequence("Hello,\nworld!").is_err());
        assert!(general::sequence("Hello,world!\n").is_err());
        assert!(general::sequence(" Hello,world!  \n").is_err());
    }

#[test]
fn general_line() {
        assert_eq!(
            general::line("Hello, world!\n").unwrap(),
            "Hello, world!".to_string()
        );
        assert_eq!(
            general::line("Hello, world! \n").unwrap(),
            "Hello, world!".to_string()
        );
        assert!(general::line(" Hello, world!\n").is_err());
        assert!(general::line("Hello, world!").is_err());
        assert!(general::line("\nHello, world!").is_err());
        assert!(general::line("Hello, world!\nThis is a test.").is_err());
    }

#[test]
fn general_multiline() {
        assert_eq!(
            general::multiline("Hello, world!\n").unwrap(),
            vec!["Hello, world!".to_string()]
        );
        assert_eq!(
            general::multiline("Hello, world!\nThis is a test.\n")
                .unwrap(),
            vec![
                "Hello, world!".to_string(),
                "This is a test.".to_string(),
            ]
        );
        assert_eq!(
            general::multiline(
                "Hello, world!\nThis is a test.\nHow are you?\n"
            )
            .unwrap(),
            vec![
                "Hello, world!".to_string(),
                "This is a test.".to_string(),
                "How are you?".to_string(),
            ]
        );

        assert!(general::multiline("").is_err());
        assert!(general::multiline("Hello, world!").is_err());
        assert!(general::multiline(" Hello, world!\n").is_err());
        assert!(general::multiline("\nHello, world!\n").is_err());
        assert!(
            general::multiline("Hello, world!\nThis is a test.\n\n")
                .is_err()
        );
        assert!(
            general::multiline("Hello, world!\nThis is a test.\n \n")
                .is_err()
        );
        assert!(general::multiline("some\ntext\n\nover\nline").is_err());
    }

#[test]
fn anchor() {
        assert_eq!(
            anchor_f32(general::anchor("0%,0%").unwrap()),
            (0.0, 0.0)
        );
        assert_eq!(
            anchor_f32(general::anchor("1%,1%").unwrap()),
            (1.0, 1.0)
        );
        assert_eq!(
            anchor_f32(general::anchor("9%,9%").unwrap()),
            (9.0, 9.0)
        );
        assert_eq!(
            anchor_f32(general::anchor("10%,10%").unwrap()),
            (10.0, 10.0)
        );
        assert_eq!(
            anchor_f32(general::anchor("99%,99%").unwrap()),
            (99.0, 99.0)
        );
        assert_eq!(
            anchor_f32(general::anchor("100%,100%").unwrap()),
            (100.0, 100.0)
        );
        assert_eq!(
            anchor_f32(general::anchor("100.0%,100.0%").unwrap()),
            (100.0, 100.0)
        );
        assert_eq!(
            anchor_f32(general::anchor("000%,000%").unwrap()),
            (0.0, 0.0)
        );
        assert!(general::anchor("100.1%,100.1%").is_err());
        assert!(general::anchor("100.9%,100.9%").is_err());
        assert!(general::anchor("101%,101%").is_err());
        assert!(general::anchor("999%,999%").is_err());
        assert!(general::anchor("0,0").is_err());
        assert!(general::anchor("a").is_err());
        assert!(general::anchor(" ").is_err());
    }

#[test]
fn text_block() {
        assert_eq!(
            general::text_block("Hello, world!\n").unwrap(),
            "Hello, world!\n".to_string()
        );
        assert_eq!(
            general::text_block("Hello, world!\nThis is a test.\n")
                .unwrap(),
            "Hello, world!\nThis is a test.\n".to_string()
        );
        assert_eq!(
            general::text_block(
                "Hello, world!\nThis is a test.\nHow are you?\n"
            )
            .unwrap(),
            "Hello, world!\nThis is a test.\nHow are you?\n".to_string()
        );
        assert!(general::text_block("").is_err());
        assert!(general::text_block("Hello, world!").is_err());
        assert!(general::text_block("\nHello, world!\n").is_err());
        assert!(
            general::text_block("Hello, world!\nThis is a test.\n\n")
                .is_err()
        );
        assert!(general::text_block("some\ntext\n\nover\nline").is_err());
    }
