use rusthor::commands::Position;
use rusthor::parsing::{
    motion_command, parse_line, read_call, speed_command, statement_from_captures, MotionKind,
    RhothorCommand, SpeedKind, Statement, CALL_PATTERN,
};
use rusthor::text::{chars_of, find_only_comma, parse_u32, text_equals, trim_bounds, white_space};
use rusthor::AppError;

fn double_bits(text: &str) -> Option<u64> {
    text.parse::<f64>().ok().map(|v| v.to_bits())
}

fn single_bits(text: &str) -> Option<u32> {
    text.parse::<f32>().ok().map(|v| v.to_bits())
}

fn complete(statement: Statement) -> Result<RhothorCommand, AppError> {
    match statement {
        Statement::Command(command) => Ok(command),
        Statement::Motion(kind, x, y) => motion_command(kind, double_bits(&x), double_bits(&y)),
        Statement::Speed(kind, text) => speed_command(kind, single_bits(&text)),
    }
}

fn command_of_line(line: &str) -> Result<Option<RhothorCommand>, AppError> {
    match parse_line(line)? {
        Some(statement) => Ok(Some(complete(statement)?)),
        None => Ok(None),
    }
}

fn from_str(line: &str) -> Result<RhothorCommand, AppError> {
    match command_of_line(line) {
        Ok(Some(command)) => Ok(command),
        Ok(None) => Err(AppError::ParseError),
        Err(error) => Err(error),
    }
}

fn pos(x: f64, y: f64) -> Position {
    Position::new(x.to_bits(), y.to_bits())
}

#[test]
fn parse_command() {
    struct TestCase {
        got: Result<RhothorCommand, AppError>,
        want: Result<RhothorCommand, AppError>,
    }
    let test_cases = vec![
        TestCase {
            got: Ok(from_str("rtJumpTo(1234.5,777.42)").unwrap()),
            want: Ok(RhothorCommand::Jump(pos(1234.5, 777.42))),
        },
        TestCase {
            got: Ok(from_str("rtJumpTo(-1234,777)").unwrap()),
            want: Ok(RhothorCommand::Jump(pos(-1234.0, 777.0))),
        },
        TestCase {
            got: Ok(from_str("rtSetSpeed(1200)").unwrap()),
            want: Ok(RhothorCommand::SetSpeed(1200.0f32.to_bits())),
        },
        TestCase {
            got: from_str("rtSetSpeed()"),
            want: Err(AppError::ParseError),
        },
        TestCase {
            // two many arguments
            got: from_str("rtSetSpeed(1.2, 0)"),
            want: Err(AppError::ParseError),
        },
        TestCase {
            // two many arguments
            got: from_str("rtJumpTo(1234.5,777.42,4.8)"),
            want: Err(AppError::ParseError),
        },
        TestCase {
            // syntax error
            got: from_str("rtJumpTo(1234.O,4.8)"),
            want: Err(AppError::ParseError),
        },
        TestCase {
            got: Ok(from_str("rtMoveTo(1.2,7.77)").unwrap()),
            want: Ok(RhothorCommand::Move(pos(1.2, 7.77))),
        },
    ];

    for test in test_cases {
        assert_eq!(test.got, test.want);
    }
}

#[test]
fn line_parsing() {
    assert!(command_of_line("// This is a comment").unwrap().is_none());
    assert!(command_of_line("   ").unwrap().is_none());
    assert_eq!(
        command_of_line("rtMoveTo(1.2,3.4)").unwrap().unwrap(),
        RhothorCommand::Move(pos(1.2, 3.4))
    );
}

#[test]
fn parse_script() {
    let script = "// square\nrtListOpen(4)\n\nrtSetJumpSpeed(1200)\nrtSetSpeed(1200)\n  rtJumpTo(-6,-6)\nrtLineTo(6,6)  \nrtListClose()\n";
    let mut commands = Vec::new();
    for line in script.lines() {
        if let Some(command) = command_of_line(line).unwrap() {
            commands.push(command);
        }
    }
    let want = vec![
        RhothorCommand::ListOpen(4),
        RhothorCommand::SetJumpSpeed(1200.0f32.to_bits()),
        RhothorCommand::SetSpeed(1200.0f32.to_bits()),
        RhothorCommand::Jump(pos(-6.0, -6.0)),
        RhothorCommand::Line(pos(6.0, 6.0)),
        RhothorCommand::ListClose,
    ];
    assert_eq!(commands, want);
}

#[test]
fn lines_before_their_numbers_are_converted() {
    assert_eq!(parse_line(""), Ok(None));
    assert_eq!(parse_line(" \t\u{3000} "), Ok(None));
    assert_eq!(parse_line("  //rtJumpTo(1,2)"), Ok(None));
    assert_eq!(
        parse_line("rtJumpTo(1.5,-2)"),
        Ok(Some(Statement::Motion(MotionKind::Jump, "1.5".to_string(), "-2".to_string())))
    );
    assert_eq!(
        parse_line("  rtMoveTo(a, b)  "),
        Ok(Some(Statement::Motion(MotionKind::Move, "a".to_string(), " b".to_string())))
    );
    assert_eq!(
        parse_line("rtLineTo(,)"),
        Ok(Some(Statement::Motion(MotionKind::Line, "".to_string(), "".to_string())))
    );
    assert_eq!(
        parse_line("rtSetSpeed(1.2, 0)"),
        Ok(Some(Statement::Speed(SpeedKind::Mark, "1.2, 0".to_string())))
    );
    assert_eq!(
        parse_line("rtSetJumpSpeed()"),
        Ok(Some(Statement::Speed(SpeedKind::Jump, "".to_string())))
    );
    assert_eq!(
        parse_line("rtListOpen(12)"),
        Ok(Some(Statement::Command(RhothorCommand::ListOpen(12))))
    );
    assert_eq!(
        parse_line("rtSetTarget(+7)"),
        Ok(Some(Statement::Command(RhothorCommand::SetTarget(7))))
    );
    assert_eq!(
        parse_line("rtListClose()"),
        Ok(Some(Statement::Command(RhothorCommand::ListClose)))
    );
}

#[test]
fn parse_failures() {
    let lines = vec![
        "rtJumpTo",
        "rtJumpTo(",
        "rtJumpTo 1,2",
        "hello",
        "(1,2)",
        "rtFly(1,2)",
        "rtjumpto(1,2)",
        "rtJumpTo(1)",
        "rtJumpTo()",
        "rtJumpTo(1,2,3)",
        "rtListOpen()",
        "rtListOpen(-1)",
        "rtListOpen(1.5)",
        "rtListOpen(4294967296)",
        "rtListOpen(1,2)",
        "rtListOpen( 4)",
        "rtSetTarget(x)",
        "rtListClose(1)",
        "/ rtJumpTo(1,2",
    ];
    for line in lines {
        assert_eq!(parse_line(line), Err(AppError::ParseError), "line {:?}", line);
    }
    assert_eq!(from_str("rtJumpTo(1, 2)"), Err(AppError::ParseError));
    assert_eq!(from_str("rtJumpTo(1,)"), Err(AppError::ParseError));
    assert_eq!(from_str("rtSetSpeed(fast)"), Err(AppError::ParseError));
    assert_eq!(from_str("rtSetJumpSpeed()"), Err(AppError::ParseError));
}

#[test]
fn the_first_call_of_a_line_counts() {
    assert_eq!(
        parse_line("x = rtListOpen(3) // three"),
        Ok(Some(Statement::Command(RhothorCommand::ListOpen(3))))
    );
    assert_eq!(
        parse_line("1rtSetTarget(9)"),
        Ok(Some(Statement::Command(RhothorCommand::SetTarget(9))))
    );
    assert_eq!(
        parse_line("rtListOpen(1) rtListOpen(2)"),
        Err(AppError::ParseError)
    );
    assert_eq!(
        parse_line("rtSetSpeed((1))"),
        Ok(Some(Statement::Speed(SpeedKind::Mark, "(1)".to_string())))
    );
}

#[test]
fn statements_from_capture_groups() {
    let group = |s: &str| Some(s.to_string());
    assert_eq!(statement_from_captures(None), Err(AppError::ParseError));
    assert_eq!(statement_from_captures(Some(vec![])), Err(AppError::ParseError));
    assert_eq!(
        statement_from_captures(Some(vec![group("rtListClose()"), group("rtListClose")])),
        Err(AppError::ParseError)
    );
    assert_eq!(
        statement_from_captures(Some(vec![group("x"), None, group("")])),
        Err(AppError::ParseError)
    );
    assert_eq!(
        statement_from_captures(Some(vec![group("x"), group("rtListClose"), None])),
        Err(AppError::ParseError)
    );
    assert_eq!(
        statement_from_captures(Some(vec![None, group("rtListClose"), group("")])),
        Ok(Statement::Command(RhothorCommand::ListClose))
    );
    assert_eq!(
        statement_from_captures(Some(vec![
            group("rtLineTo(1,2)"),
            group("rtLineTo"),
            group("1,2"),
            group("1,2")
        ])),
        Ok(Statement::Motion(MotionKind::Line, "1".to_string(), "2".to_string()))
    );
}

#[test]
fn calls_by_name() {
    assert_eq!(
        read_call("rtListOpen", "0042"),
        Ok(Statement::Command(RhothorCommand::ListOpen(42)))
    );
    assert_eq!(
        read_call("rtSetTarget", "4294967295"),
        Ok(Statement::Command(RhothorCommand::SetTarget(u32::MAX)))
    );
    assert_eq!(read_call("rtListClose", ""), Ok(Statement::Command(RhothorCommand::ListClose)));
    assert_eq!(read_call("rtListClose", " "), Err(AppError::ParseError));
    assert_eq!(
        read_call("rtJumpTo", "1,2"),
        Ok(Statement::Motion(MotionKind::Jump, "1".to_string(), "2".to_string()))
    );
    assert_eq!(
        read_call("rtMoveTo", "\u{e9},\u{4e2d}\u{6587}"),
        Ok(Statement::Motion(MotionKind::Move, "\u{e9}".to_string(), "\u{4e2d}\u{6587}".to_string()))
    );
    assert_eq!(
        read_call("rtSetSpeed", "1e3"),
        Ok(Statement::Speed(SpeedKind::Mark, "1e3".to_string()))
    );
    assert_eq!(
        read_call("rtSetJumpSpeed", "2"),
        Ok(Statement::Speed(SpeedKind::Jump, "2".to_string()))
    );
    assert_eq!(read_call("rtSetSpeeds", "2"), Err(AppError::ParseError));
    assert_eq!(read_call("rtSetSpee", "2"), Err(AppError::ParseError));
    assert_eq!(read_call("", ""), Err(AppError::ParseError));
}

#[test]
fn completed_commands() {
    let one = 1.0f64.to_bits();
    let two = 2.0f64.to_bits();
    assert_eq!(
        motion_command(MotionKind::Jump, Some(one), Some(two)),
        Ok(RhothorCommand::Jump(Position::new(one, two)))
    );
    assert_eq!(
        motion_command(MotionKind::Move, Some(one), Some(two)),
        Ok(RhothorCommand::Move(Position::new(one, two)))
    );
    assert_eq!(
        motion_command(MotionKind::Line, Some(two), Some(one)),
        Ok(RhothorCommand::Line(Position::new(two, one)))
    );
    assert_eq!(motion_command(MotionKind::Line, None, Some(one)), Err(AppError::ParseError));
    assert_eq!(motion_command(MotionKind::Line, Some(one), None), Err(AppError::ParseError));
    assert_eq!(motion_command(MotionKind::Jump, None, None), Err(AppError::ParseError));
    assert_eq!(speed_command(SpeedKind::Mark, Some(5)), Ok(RhothorCommand::SetSpeed(5)));
    assert_eq!(speed_command(SpeedKind::Jump, Some(5)), Ok(RhothorCommand::SetJumpSpeed(5)));
    assert_eq!(speed_command(SpeedKind::Mark, None), Err(AppError::ParseError));
}

#[test]
fn the_call_pattern() {
    assert_eq!(CALL_PATTERN, r"(?P<command>[A-z]+)\((?P<args>(.*))\)");
}

#[test]
fn white_space_is_the_unicode_property() {
    let mut code: u32 = 0;
    while code <= 0x10FFFF {
        if let Some(c) = char::from_u32(code) {
            assert_eq!(white_space(c), c.is_whitespace(), "code {:#x}", code);
        }
        code += 1;
    }
}

#[test]
fn trimming_agrees_with_the_standard_library() {
    let texts = vec![
        "",
        " ",
        "a",
        " a",
        "a ",
        "  a b  ",
        "\t\r\n x \u{a0}\u{2003}",
        "\u{1680}\u{2028}\u{2029}\u{202f}\u{205f}\u{3000}",
        "\u{200b}a\u{200b}",
        " \u{e9}t\u{e9} ",
    ];
    for text in texts {
        let chars = chars_of(text);
        assert_eq!(chars, text.chars().collect::<Vec<char>>());
        let (start, end) = trim_bounds(&chars);
        let got: String = chars[start..end].iter().collect();
        assert_eq!(got, text.trim(), "text {:?}", text);
    }
}

#[test]
fn text_comparison() {
    let chars = chars_of("rtJumpTo");
    assert!(text_equals(&chars, "rtJumpTo"));
    assert!(!text_equals(&chars, "rtJumpT"));
    assert!(!text_equals(&chars, "rtJumpToo"));
    assert!(!text_equals(&chars, "rtJumpTO"));
    assert!(!text_equals(&chars, ""));
    assert!(text_equals(&[], ""));
    assert!(!text_equals(&[], "a"));
}

#[test]
fn decimal_numbers_agree_with_the_standard_library() {
    let texts = vec![
        "",
        "+",
        "-",
        "0",
        "+0",
        "-0",
        "00",
        "7",
        "+7",
        "++7",
        "+-7",
        "12",
        "0012",
        "4294967295",
        "4294967296",
        "+4294967295",
        "00000000000000000000004294967295",
        "99999999999999999999999999999999",
        "18446744073709551616",
        "1 ",
        " 1",
        "1_000",
        "1.0",
        "1e3",
        "0x10",
        "12a",
        "a12",
        "\u{661}\u{662}",
        "\u{ff11}",
    ];
    for text in texts {
        assert_eq!(parse_u32(&chars_of(text)), text.parse::<u32>().ok(), "text {:?}", text);
    }
    for n in [0u32, 1, 9, 10, 99, 100, 65535, 65536, 1_000_000_007, u32::MAX - 1, u32::MAX] {
        assert_eq!(parse_u32(&chars_of(&n.to_string())), Some(n));
    }
}

#[test]
fn the_only_comma() {
    assert_eq!(find_only_comma(&chars_of("")), None);
    assert_eq!(find_only_comma(&chars_of("12")), None);
    assert_eq!(find_only_comma(&chars_of(",")), Some(0));
    assert_eq!(find_only_comma(&chars_of("1,2")), Some(1));
    assert_eq!(find_only_comma(&chars_of("12,")), Some(2));
    assert_eq!(find_only_comma(&chars_of("\u{4e2d},2")), Some(1));
    assert_eq!(find_only_comma(&chars_of("1,2,3")), None);
    assert_eq!(find_only_comma(&chars_of(",,")), None);
}

#[test]
fn error_messages() {
    assert_eq!(AppError::ParseError.message(), "Parse Error");
    assert_eq!(AppError::FileError.message(), "File Error");
    assert_eq!(AppError::DecodeError.message(), "Decode Error");
    assert_eq!(AppError::UnsupportedCommandError.message(), "Unsupported Command Error");
}
