//! Scanner commands and the script lines that name them.

use crate::commands::Position;
use crate::text::{
    chars_of, comma_pair, decimal_u32, find_only_comma, is_only_comma, parse_u32, text_equals,
    trim_bounds, trimmed,
};
use crate::AppError;
use regex::Regex;
use vstd::prelude::*;
use vstd::string::*;

verus! {

/// A scanner command with its parameters. A single-precision parameter is
/// held as its 32-bit pattern.
#[derive(Debug, Clone, Copy, PartialEq, Eq, Structural)]
pub enum RhothorCommand {
    /// No command at all.
    NoCommand,
    /// Opens a list of the given number of commands.
    ListOpen(u32),
    /// Closes the list.
    ListClose,
    /// Jumps to a position with the beam off.
    Jump(Position),
    /// Sets the outputs selected by a mask: value, mask.
    SetIO(u16, u16),
    /// Sets the analog outputs selected by a mask: value, mask.
    SetAnalog(u16, u16),
    /// Draws an arc to a position; the second field is the bulge factor.
    Arc(Position, u32),
    /// Draws a circle around a position; the second field is the angle.
    Circle(Position, u32),
    /// Draws a line to a position.
    Line(Position),
    /// Waits for an input.
    WaitIO,
    /// Moves to a position.
    Move(Position),
    /// Sets the marking speed.
    SetSpeed(u32),
    /// Sets the jump speed.
    SetJumpSpeed(u32),
    /// Waits for the given time.
    Sleep(u16),
    /// Fires for the given time.
    Burst(u16),
    /// Switches the laser on or off.
    SetLaser(bool),
    /// Sets the laser's on and off delays.
    SetLaserTimes(u16, u16),
    /// Selects a target.
    SetTarget(u32),
    /// Begins a loop that runs while an input holds.
    WhileIO,
    /// Ends a loop that runs while an input holds.
    DoWhile,
    /// Begins a counted loop.
    SetLoop,
    /// Ends a counted loop.
    DoLoop,
}

/// The form of a call: a name made of characters from `A` to `z`, then the
/// arguments between round brackets, which reach to the last closing
/// bracket of the line.
pub const CALL_PATTERN: &'static str = "(?P<command>[A-z]+)\\((?P<args>(.*))\\)";

/// The commands that take a position.
#[derive(Debug, Clone, Copy, PartialEq, Eq, Structural)]
pub enum MotionKind {
    /// `rtJumpTo`
    Jump,
    /// `rtMoveTo`
    Move,
    /// `rtLineTo`
    Line,
}

/// The commands that take a speed.
#[derive(Debug, Clone, Copy, PartialEq, Eq, Structural)]
pub enum SpeedKind {
    /// `rtSetSpeed`
    Mark,
    /// `rtSetJumpSpeed`
    Jump,
}

/// A script line whose command is known. Arguments that are written as
/// decimal fractions are still text: turning them into bit patterns is left
/// to the caller, who then completes the command with `motion_command` or
/// `speed_command`.
#[derive(Debug, PartialEq, Eq)]
pub enum Statement {
    /// A command that is complete.
    Command(RhothorCommand),
    /// A command that takes a position, with the text of each coordinate,
    /// to be read in double precision.
    Motion(MotionKind, String, String),
    /// A command that takes a speed, with its text, to be read in single
    /// precision.
    Speed(SpeedKind, String),
}

/// A statement with its texts as sequences of characters.
pub enum StatementText {
    Command(RhothorCommand),
    Motion(MotionKind, Seq<char>, Seq<char>),
    Speed(SpeedKind, Seq<char>),
}

impl View for Statement {
    type V = StatementText;

    open spec fn view(&self) -> StatementText {
        match *self {
            Statement::Command(command) => StatementText::Command(command),
            Statement::Motion(kind, x, y) => StatementText::Motion(kind, x@, y@),
            Statement::Speed(kind, text) => StatementText::Speed(kind, text@),
        }
    }
}

/// What the regular expression `pattern` finds in `haystack`: nothing if the
/// pattern is not a valid expression or matches nowhere, else the capture
/// groups of the first match by their index, each with the text it matched
/// if it took part in the match.
pub uninterp spec fn regex_captures(pattern: Seq<char>, haystack: Seq<char>) -> Option<
    Seq<Option<Seq<char>>>,
>;

/// The text of a capture group.
pub open spec fn group_text(group: Option<String>) -> Option<Seq<char>> {
    match group {
        Some(text) => Some(text@),
        None => None,
    }
}

/// The texts of the capture groups of a match.
pub open spec fn groups_text(groups: Option<Vec<Option<String>>>) -> Option<
    Seq<Option<Seq<char>>>,
> {
    match groups {
        Some(found) => Some(Seq::new(found@.len(), |i: int| group_text(found@[i]))),
        None => None,
    }
}

/// Compiles the call pattern with `regex::Regex::new`, searches `haystack`
/// with `Regex::captures` and copies the text of each group out of the
/// match with `Captures::iter` and `Match::as_str`. The contract only names
/// the result: it is a function of the pattern and the haystack, and nothing
/// of it is proved here.
#[verifier::external_body]
fn first_captures(pattern: &str, haystack: &str) -> (groups: Option<Vec<Option<String>>>)
    requires
        pattern@ == CALL_PATTERN@,
    ensures
        groups_text(groups) == regex_captures(pattern@, haystack@),
{
    let expression = Regex::new(pattern).ok()?;
    let captures = expression.captures(haystack)?;
    Some(captures.iter().map(|group| group.map(|found| found.as_str().to_string())).collect())
}

/// The statement that a position command with the arguments `args` makes:
/// the arguments are two texts with one comma between them.
pub open spec fn motion_statement(kind: MotionKind, args: Seq<char>) -> Result<
    StatementText,
    AppError,
> {
    match comma_pair(args) {
        Some((x, y)) => Ok(StatementText::Motion(kind, x, y)),
        None => Err(AppError::ParseError),
    }
}

/// The statement that a command with a count as its argument makes.
pub open spec fn count_statement(
    args: Seq<char>,
    command: spec_fn(u32) -> RhothorCommand,
) -> Result<StatementText, AppError> {
    match decimal_u32(args) {
        Some(count) => Ok(StatementText::Command(command(count))),
        None => Err(AppError::ParseError),
    }
}

/// The statement that the call of `name` with the arguments `args` makes.
/// An unknown name, a wrong number of arguments or a count that is no
/// number is a parse error.
pub open spec fn call_statement(name: Seq<char>, args: Seq<char>) -> Result<
    StatementText,
    AppError,
> {
    if name == "rtListOpen"@ {
        count_statement(args, |count: u32| RhothorCommand::ListOpen(count))
    } else if name == "rtListClose"@ {
        if args.len() == 0 {
            Ok(StatementText::Command(RhothorCommand::ListClose))
        } else {
            Err(AppError::ParseError)
        }
    } else if name == "rtJumpTo"@ {
        motion_statement(MotionKind::Jump, args)
    } else if name == "rtMoveTo"@ {
        motion_statement(MotionKind::Move, args)
    } else if name == "rtLineTo"@ {
        motion_statement(MotionKind::Line, args)
    } else if name == "rtSetSpeed"@ {
        Ok(StatementText::Speed(SpeedKind::Mark, args))
    } else if name == "rtSetJumpSpeed"@ {
        Ok(StatementText::Speed(SpeedKind::Jump, args))
    } else if name == "rtSetTarget"@ {
        count_statement(args, |count: u32| RhothorCommand::SetTarget(count))
    } else {
        Err(AppError::ParseError)
    }
}

/// The statement that the capture groups of a match make: group 1 is the
/// name and group 2 the arguments. No match is a parse error.
pub open spec fn captured_statement(groups: Option<Seq<Option<Seq<char>>>>) -> Result<
    StatementText,
    AppError,
> {
    match groups {
        Some(found) => if found.len() > 2 && found[1] is Some && found[2] is Some {
            call_statement(found[1]->Some_0, found[2]->Some_0)
        } else {
            Err(AppError::ParseError)
        },
        None => Err(AppError::ParseError),
    }
}

/// Whether a line, once trimmed, is empty or a comment.
pub open spec fn is_skipped(body: Seq<char>) -> bool {
    body.len() == 0 || (body.len() >= 2 && body[0] == '/' && body[1] == '/')
}

/// What a script line holds: nothing if it is blank or a comment, else the
/// statement that its first call makes.
pub open spec fn line_statement(line: Seq<char>) -> Result<Option<StatementText>, AppError> {
    let body = trimmed(line);
    if is_skipped(body) {
        Ok(None)
    } else {
        match captured_statement(regex_captures(CALL_PATTERN@, body)) {
            Ok(statement) => Ok(Some(statement)),
            Err(error) => Err(error),
        }
    }
}

/// The outcome of reading a statement, with texts as sequences.
pub open spec fn statement_view(outcome: Result<Statement, AppError>) -> Result<
    StatementText,
    AppError,
> {
    match outcome {
        Ok(statement) => Ok(statement@),
        Err(error) => Err(error),
    }
}

/// The outcome of reading a line, with texts as sequences.
pub open spec fn line_view(outcome: Result<Option<Statement>, AppError>) -> Result<
    Option<StatementText>,
    AppError,
> {
    match outcome {
        Ok(Some(statement)) => Ok(Some(statement@)),
        Ok(None) => Ok(None),
        Err(error) => Err(error),
    }
}

/// Reads the statement of a position command from its arguments.
fn read_motion(kind: MotionKind, args: &str, chars: &[char]) -> (outcome: Result<
    Statement,
    AppError,
>)
    requires
        chars@ == args@,
    ensures
        statement_view(outcome) == motion_statement(kind, args@),
{
    match find_only_comma(chars) {
        Some(at) => {
            let n = chars.len();
            assert(is_only_comma(chars@, at as int));
            let x = args.substring_char(0, at);
            let y = args.substring_char(at + 1, n);
            proof {
                let chosen = choose|place: int| is_only_comma(args@, place);
                assert(chosen == at);
            }
            Ok(Statement::Motion(kind, String::from_str(x), String::from_str(y)))
        },
        None => Err(AppError::ParseError),
    }
}

/// Reads the statement that the call of `name` with the arguments `args`
/// makes.
pub fn read_call(name: &str, args: &str) -> (outcome: Result<Statement, AppError>)
    ensures
        statement_view(outcome) == call_statement(name@, args@),
{
    let name_chars = chars_of(name);
    let chars = chars_of(args);
    if text_equals(name_chars.as_slice(), "rtListOpen") {
        match parse_u32(chars.as_slice()) {
            Some(count) => Ok(Statement::Command(RhothorCommand::ListOpen(count))),
            None => Err(AppError::ParseError),
        }
    } else if text_equals(name_chars.as_slice(), "rtListClose") {
        if chars.len() == 0 {
            Ok(Statement::Command(RhothorCommand::ListClose))
        } else {
            Err(AppError::ParseError)
        }
    } else if text_equals(name_chars.as_slice(), "rtJumpTo") {
        read_motion(MotionKind::Jump, args, chars.as_slice())
    } else if text_equals(name_chars.as_slice(), "rtMoveTo") {
        read_motion(MotionKind::Move, args, chars.as_slice())
    } else if text_equals(name_chars.as_slice(), "rtLineTo") {
        read_motion(MotionKind::Line, args, chars.as_slice())
    } else if text_equals(name_chars.as_slice(), "rtSetSpeed") {
        Ok(Statement::Speed(SpeedKind::Mark, String::from_str(args)))
    } else if text_equals(name_chars.as_slice(), "rtSetJumpSpeed") {
        Ok(Statement::Speed(SpeedKind::Jump, String::from_str(args)))
    } else if text_equals(name_chars.as_slice(), "rtSetTarget") {
        match parse_u32(chars.as_slice()) {
            Some(count) => Ok(Statement::Command(RhothorCommand::SetTarget(count))),
            None => Err(AppError::ParseError),
        }
    } else {
        Err(AppError::ParseError)
    }
}

/// Reads the statement that the capture groups of a match make.
pub fn statement_from_captures(groups: Option<Vec<Option<String>>>) -> (outcome: Result<
    Statement,
    AppError,
>)
    ensures
        statement_view(outcome) == captured_statement(groups_text(groups)),
{
    match groups {
        Some(found) => {
            if found.len() <= 2 {
                return Err(AppError::ParseError);
            }
            match (&found[1], &found[2]) {
                (Some(name), Some(args)) => read_call(name.as_str(), args.as_str()),
                _ => Err(AppError::ParseError),
            }
        },
        None => Err(AppError::ParseError),
    }
}

/// Reads one line of a script. A blank line or a comment gives nothing; any
/// other line must hold the call of a known command.
pub fn parse_line(s: &str) -> (outcome: Result<Option<Statement>, AppError>)
    ensures
        line_view(outcome) == line_statement(s@),
{
    let chars = chars_of(s);
    let (start, end) = trim_bounds(chars.as_slice());
    if start == end {
        return Ok(None);
    }
    if end - start >= 2 && chars[start] == '/' && chars[start + 1] == '/' {
        return Ok(None);
    }
    let body = s.substring_char(start, end);
    match statement_from_captures(first_captures(CALL_PATTERN, body)) {
        Ok(statement) => Ok(Some(statement)),
        Err(error) => Err(error),
    }
}

/// The command that a position command makes of its two coordinates, each
/// given as the bit pattern of a double-precision value or as nothing where
/// its text was no number.
pub open spec fn motion_of(kind: MotionKind, x: Option<u64>, y: Option<u64>) -> Result<
    RhothorCommand,
    AppError,
> {
    match (x, y) {
        (Some(x), Some(y)) => Ok(
            match kind {
                MotionKind::Jump => RhothorCommand::Jump(Position { x, y }),
                MotionKind::Move => RhothorCommand::Move(Position { x, y }),
                MotionKind::Line => RhothorCommand::Line(Position { x, y }),
            },
        ),
        _ => Err(AppError::ParseError),
    }
}

/// The command that a speed command makes of its value, given as the bit
/// pattern of a single-precision value or as nothing where its text was no
/// number.
pub open spec fn speed_of(kind: SpeedKind, value: Option<u32>) -> Result<
    RhothorCommand,
    AppError,
> {
    match value {
        Some(bits) => Ok(
            match kind {
                SpeedKind::Mark => RhothorCommand::SetSpeed(bits),
                SpeedKind::Jump => RhothorCommand::SetJumpSpeed(bits),
            },
        ),
        None => Err(AppError::ParseError),
    }
}

/// Completes a position command once its coordinates are converted.
pub fn motion_command(kind: MotionKind, x: Option<u64>, y: Option<u64>) -> (outcome: Result<
    RhothorCommand,
    AppError,
>)
    ensures
        outcome == motion_of(kind, x, y),
{
    match (x, y) {
        (Some(x), Some(y)) => {
            let position = Position::new(x, y);
            Ok(
                match kind {
                    MotionKind::Jump => RhothorCommand::Jump(position),
                    MotionKind::Move => RhothorCommand::Move(position),
                    MotionKind::Line => RhothorCommand::Line(position),
                },
            )
        },
        _ => Err(AppError::ParseError),
    }
}

/// Completes a speed command once its value is converted.
pub fn speed_command(kind: SpeedKind, value: Option<u32>) -> (outcome: Result<
    RhothorCommand,
    AppError,
>)
    ensures
        outcome == speed_of(kind, value),
{
    match value {
        Some(bits) => Ok(
            match kind {
                SpeedKind::Mark => RhothorCommand::SetSpeed(bits),
                SpeedKind::Jump => RhothorCommand::SetJumpSpeed(bits),
            },
        ),
        None => Err(AppError::ParseError),
    }
}

} // verus!
