//! Frames, the opcode table and the command compiler.

use crate::codec::{
    encode_f32_halves, encode_f32_high_half, high16, high_byte, lemma_count_round_trip, low16,
    low_word, rejoin_count, split_count,
};
use crate::ieee::{
    below_millionth, is_below_millionth, is_finite, lemma_thousandths_recover,
    rounds_up_onto_tie, scale_to_thousandths, thousandths, within_half_thousandth,
};
use crate::parsing::RhothorCommand;
use crate::wire::{le_i32, le_u16, read_i32, read_u16, STATUS_SIZE};
use crate::AppError;
use vstd::prelude::*;

verus! {

/// Target byte that addresses the single scanning unit.
pub const TARGET: u8 = 0x01;

/// Target byte of the controller's idle state.
pub const SYSIDLE: u8 = 0x40;

/// Target byte that addresses every unit.
pub const TGTALL: u8 = 0xFF;

/// Operation tag of a frame. The set is closed: a frame carries one of these
/// and nothing else. Tags from `INTCMD` on address the controller itself
/// rather than a scanning unit.
#[derive(Debug, Clone, Copy, PartialEq, Eq, Structural)]
#[allow(non_camel_case_types)]
pub enum CMD3G_OPCODE {
    CMD3G_NOP,
    CMD3G_SETIO,
    CMD3G_SETSPEED,
    CMD3G_JUMPTO,
    CMD3G_MOVETO,
    CMD3G_PULSTO,
    CMD3G_LINETO,
    CMD3G_PARAMS,
    CMD3G_ARCMOVE,
    CMD3G_ARCLINE,
    CMD3G_SPEED,
    CMD3G_JUMPSPEED,
    CMD3G_SETOSC,
    CMD3G_SETLOOP,
    CMD3G_DOLOOP,
    CMD3G_SLEEP,
    CMD3G_SUSPEND,
    CMD3G_SETDELAYS,
    CMD3G_SETLIDLE,
    CMD3G_SM_LASER,
    CMD3G_EXCHLLINK,
    CMD3G_TABLESET,
    CMD3G_TABLESSIZE,
    CMD3G_TABLEDELAY,
    CMD3G_TABLE1D,
    CMD3G_SETFDATA,
    CMD3G_TABLEMOVETO,
    CMD3G_SETIMGAIJ,
    CMD3G_SETIMGROT,
    CMD3G_SETIMGOFFS,
    CMD3G_SETIMGOFFSR,
    CMD3G_SETIMGOFFSZ,
    CMD3G_SETFS,
    CMD3G_SETFSZ,
    CMD3G_SETSPFLTR,
    CMD3G_BURST,
    CMD3G_IDXFETCH,
    CMD3G_LIST,
    CMD3G_SETCNTR,
    CMD3G_SETANA,
    CMD3G_CFG_IO,
    CMD3G_OTFSTEP,
    CMD3G_OTFRANGE,
    CMD3G_OTFSET,
    CMD3G_IOWAIT,
    CMD3G_OTFWAIT,
    CMD3G_OTFENABLE,
    CMD3G_SETMINGATE,
    CMD3G_SETBULGE,
    CMD3G_SETDDELAY,
    CMD3G_CIRCLE,
    CMD3G_TABLEJOG,
    CMD3G_TABLELINETO,
    CMD3G_TABLEJUMPTO,
    CMD3G_TABLEARCLINE,
    CMD3G_BRANCH,
    CMD3G_SETAIJ,
    CMD3G_SETROT,
    CMD3G_SETOFFS,
    CMD3G_SETOFFSZ,
    CMD3G_SETWOBBLE,
    CMD3G_JUMPTO3D,
    CMD3G_MOVETO3D,
    CMD3G_LINETO3D,
    CMD3G_TABLEWHILEIO,
    CMD3G_BSTR0,
    CMD3G_BSTRN,
    CMD3G_UDPSEND,
    CMD3G_TABLESNAP,
    CMD3G_EOF,
    INTCMD,
    INTSUSPEND,
    INTRESUME,
    INTABORT,
    INTRUNMODE,
    INTFLASHEP,
    INTFLASHPP,
    INTSETIO,
    INTUARTOPEN,
    INTUARTWRITE,
    INTEXCHLLINK,
    INTTESTIO,
    INTWAITIDLE,
    INTMAPTGT,
    INTSCANTGT,
    INTUDPSEND,
    INTWAITIO,
    INTREPLY,
    INTSTATUS,
    INTTGTSTATUS,
    INTFLASHRD,
    INTGTID,
    INTFLASHRDY,
    INTUARTREAD,
    INTSCANREAD,
    INTGETIP,
}

impl CMD3G_OPCODE {
    /// The 8-bit code that stands for the tag on the wire.
    pub open spec fn spec_code(self) -> u8 {
        match self {
            CMD3G_OPCODE::CMD3G_NOP => 0x00,
            CMD3G_OPCODE::CMD3G_SETIO => 0x02,
            CMD3G_OPCODE::CMD3G_SETSPEED => 0x03,
            CMD3G_OPCODE::CMD3G_JUMPTO => 0x04,
            CMD3G_OPCODE::CMD3G_MOVETO => 0x05,
            CMD3G_OPCODE::CMD3G_PULSTO => 0x06,
            CMD3G_OPCODE::CMD3G_LINETO => 0x07,
            CMD3G_OPCODE::CMD3G_PARAMS => 0x08,
            CMD3G_OPCODE::CMD3G_ARCMOVE => 0x09,
            CMD3G_OPCODE::CMD3G_ARCLINE => 0x0a,
            CMD3G_OPCODE::CMD3G_SPEED => 0x0b,
            CMD3G_OPCODE::CMD3G_JUMPSPEED => 0x0c,
            CMD3G_OPCODE::CMD3G_SETOSC => 0x0d,
            CMD3G_OPCODE::CMD3G_SETLOOP => 0x0e,
            CMD3G_OPCODE::CMD3G_DOLOOP => 0x0f,
            CMD3G_OPCODE::CMD3G_SLEEP => 0x10,
            CMD3G_OPCODE::CMD3G_SUSPEND => 0x11,
            CMD3G_OPCODE::CMD3G_SETDELAYS => 0x12,
            CMD3G_OPCODE::CMD3G_SETLIDLE => 0x13,
            CMD3G_OPCODE::CMD3G_SM_LASER => 0x14,
            CMD3G_OPCODE::CMD3G_EXCHLLINK => 0x15,
            CMD3G_OPCODE::CMD3G_TABLESET => 0x16,
            CMD3G_OPCODE::CMD3G_TABLESSIZE => 0x17,
            CMD3G_OPCODE::CMD3G_TABLEDELAY => 0x18,
            CMD3G_OPCODE::CMD3G_TABLE1D => 0x19,
            CMD3G_OPCODE::CMD3G_SETFDATA => 0x1a,
            CMD3G_OPCODE::CMD3G_TABLEMOVETO => 0x1b,
            CMD3G_OPCODE::CMD3G_SETIMGAIJ => 0x1c,
            CMD3G_OPCODE::CMD3G_SETIMGROT => 0x1d,
            CMD3G_OPCODE::CMD3G_SETIMGOFFS => 0x1e,
            CMD3G_OPCODE::CMD3G_SETIMGOFFSR => 0x1f,
            CMD3G_OPCODE::CMD3G_SETIMGOFFSZ => 0x20,
            CMD3G_OPCODE::CMD3G_SETFS => 0x21,
            CMD3G_OPCODE::CMD3G_SETFSZ => 0x22,
            CMD3G_OPCODE::CMD3G_SETSPFLTR => 0x23,
            CMD3G_OPCODE::CMD3G_BURST => 0x24,
            CMD3G_OPCODE::CMD3G_IDXFETCH => 0x25,
            CMD3G_OPCODE::CMD3G_LIST => 0x26,
            CMD3G_OPCODE::CMD3G_SETCNTR => 0x27,
            CMD3G_OPCODE::CMD3G_SETANA => 0x28,
            CMD3G_OPCODE::CMD3G_CFG_IO => 0x29,
            CMD3G_OPCODE::CMD3G_OTFSTEP => 0x2a,
            CMD3G_OPCODE::CMD3G_OTFRANGE => 0x2b,
            CMD3G_OPCODE::CMD3G_OTFSET => 0x2c,
            CMD3G_OPCODE::CMD3G_IOWAIT => 0x2d,
            CMD3G_OPCODE::CMD3G_OTFWAIT => 0x2e,
            CMD3G_OPCODE::CMD3G_OTFENABLE => 0x2f,
            CMD3G_OPCODE::CMD3G_SETMINGATE => 0x30,
            CMD3G_OPCODE::CMD3G_SETBULGE => 0x31,
            CMD3G_OPCODE::CMD3G_SETDDELAY => 0x32,
            CMD3G_OPCODE::CMD3G_CIRCLE => 0x33,
            CMD3G_OPCODE::CMD3G_TABLEJOG => 0x34,
            CMD3G_OPCODE::CMD3G_TABLELINETO => 0x35,
            CMD3G_OPCODE::CMD3G_TABLEJUMPTO => 0x36,
            CMD3G_OPCODE::CMD3G_TABLEARCLINE => 0x37,
            CMD3G_OPCODE::CMD3G_BRANCH => 0x38,
            CMD3G_OPCODE::CMD3G_SETAIJ => 0x39,
            CMD3G_OPCODE::CMD3G_SETROT => 0x3a,
            CMD3G_OPCODE::CMD3G_SETOFFS => 0x3b,
            CMD3G_OPCODE::CMD3G_SETOFFSZ => 0x3c,
            CMD3G_OPCODE::CMD3G_SETWOBBLE => 0x3d,
            CMD3G_OPCODE::CMD3G_JUMPTO3D => 0x3e,
            CMD3G_OPCODE::CMD3G_MOVETO3D => 0x3f,
            CMD3G_OPCODE::CMD3G_LINETO3D => 0x41,
            CMD3G_OPCODE::CMD3G_TABLEWHILEIO => 0x42,
            CMD3G_OPCODE::CMD3G_BSTR0 => 0x43,
            CMD3G_OPCODE::CMD3G_BSTRN => 0x44,
            CMD3G_OPCODE::CMD3G_UDPSEND => 0x45,
            CMD3G_OPCODE::CMD3G_TABLESNAP => 0x46,
            CMD3G_OPCODE::CMD3G_EOF => 0xff,
            CMD3G_OPCODE::INTCMD => 0x80,
            CMD3G_OPCODE::INTSUSPEND => 0x81,
            CMD3G_OPCODE::INTRESUME => 0x82,
            CMD3G_OPCODE::INTABORT => 0x83,
            CMD3G_OPCODE::INTRUNMODE => 0x85,
            CMD3G_OPCODE::INTFLASHEP => 0x87,
            CMD3G_OPCODE::INTFLASHPP => 0x88,
            CMD3G_OPCODE::INTSETIO => 0x89,
            CMD3G_OPCODE::INTUARTOPEN => 0x8a,
            CMD3G_OPCODE::INTUARTWRITE => 0x8b,
            CMD3G_OPCODE::INTEXCHLLINK => 0x8c,
            CMD3G_OPCODE::INTTESTIO => 0x8d,
            CMD3G_OPCODE::INTWAITIDLE => 0x8e,
            CMD3G_OPCODE::INTMAPTGT => 0x8f,
            CMD3G_OPCODE::INTSCANTGT => 0x90,
            CMD3G_OPCODE::INTUDPSEND => 0x91,
            CMD3G_OPCODE::INTWAITIO => 0x92,
            CMD3G_OPCODE::INTREPLY => 0x40,
            CMD3G_OPCODE::INTSTATUS => 0xc0,
            CMD3G_OPCODE::INTTGTSTATUS => 0xc1,
            CMD3G_OPCODE::INTFLASHRD => 0xc4,
            CMD3G_OPCODE::INTGTID => 0xc5,
            CMD3G_OPCODE::INTFLASHRDY => 0xc6,
            CMD3G_OPCODE::INTUARTREAD => 0xc7,
            CMD3G_OPCODE::INTSCANREAD => 0xc8,
            CMD3G_OPCODE::INTGETIP => 0xc9,
        }
    }

    /// The 8-bit code that stands for the tag on the wire.
    #[verifier::when_used_as_spec(spec_code)]
    pub fn code(self) -> (code: u8)
        ensures
            code == self.spec_code(),
    {
        match self {
            CMD3G_OPCODE::CMD3G_NOP => 0x00,
            CMD3G_OPCODE::CMD3G_SETIO => 0x02,
            CMD3G_OPCODE::CMD3G_SETSPEED => 0x03,
            CMD3G_OPCODE::CMD3G_JUMPTO => 0x04,
            CMD3G_OPCODE::CMD3G_MOVETO => 0x05,
            CMD3G_OPCODE::CMD3G_PULSTO => 0x06,
            CMD3G_OPCODE::CMD3G_LINETO => 0x07,
            CMD3G_OPCODE::CMD3G_PARAMS => 0x08,
            CMD3G_OPCODE::CMD3G_ARCMOVE => 0x09,
            CMD3G_OPCODE::CMD3G_ARCLINE => 0x0a,
            CMD3G_OPCODE::CMD3G_SPEED => 0x0b,
            CMD3G_OPCODE::CMD3G_JUMPSPEED => 0x0c,
            CMD3G_OPCODE::CMD3G_SETOSC => 0x0d,
            CMD3G_OPCODE::CMD3G_SETLOOP => 0x0e,
            CMD3G_OPCODE::CMD3G_DOLOOP => 0x0f,
            CMD3G_OPCODE::CMD3G_SLEEP => 0x10,
            CMD3G_OPCODE::CMD3G_SUSPEND => 0x11,
            CMD3G_OPCODE::CMD3G_SETDELAYS => 0x12,
            CMD3G_OPCODE::CMD3G_SETLIDLE => 0x13,
            CMD3G_OPCODE::CMD3G_SM_LASER => 0x14,
            CMD3G_OPCODE::CMD3G_EXCHLLINK => 0x15,
            CMD3G_OPCODE::CMD3G_TABLESET => 0x16,
            CMD3G_OPCODE::CMD3G_TABLESSIZE => 0x17,
            CMD3G_OPCODE::CMD3G_TABLEDELAY => 0x18,
            CMD3G_OPCODE::CMD3G_TABLE1D => 0x19,
            CMD3G_OPCODE::CMD3G_SETFDATA => 0x1a,
            CMD3G_OPCODE::CMD3G_TABLEMOVETO => 0x1b,
            CMD3G_OPCODE::CMD3G_SETIMGAIJ => 0x1c,
            CMD3G_OPCODE::CMD3G_SETIMGROT => 0x1d,
            CMD3G_OPCODE::CMD3G_SETIMGOFFS => 0x1e,
            CMD3G_OPCODE::CMD3G_SETIMGOFFSR => 0x1f,
            CMD3G_OPCODE::CMD3G_SETIMGOFFSZ => 0x20,
            CMD3G_OPCODE::CMD3G_SETFS => 0x21,
            CMD3G_OPCODE::CMD3G_SETFSZ => 0x22,
            CMD3G_OPCODE::CMD3G_SETSPFLTR => 0x23,
            CMD3G_OPCODE::CMD3G_BURST => 0x24,
            CMD3G_OPCODE::CMD3G_IDXFETCH => 0x25,
            CMD3G_OPCODE::CMD3G_LIST => 0x26,
            CMD3G_OPCODE::CMD3G_SETCNTR => 0x27,
            CMD3G_OPCODE::CMD3G_SETANA => 0x28,
            CMD3G_OPCODE::CMD3G_CFG_IO => 0x29,
            CMD3G_OPCODE::CMD3G_OTFSTEP => 0x2a,
            CMD3G_OPCODE::CMD3G_OTFRANGE => 0x2b,
            CMD3G_OPCODE::CMD3G_OTFSET => 0x2c,
            CMD3G_OPCODE::CMD3G_IOWAIT => 0x2d,
            CMD3G_OPCODE::CMD3G_OTFWAIT => 0x2e,
            CMD3G_OPCODE::CMD3G_OTFENABLE => 0x2f,
            CMD3G_OPCODE::CMD3G_SETMINGATE => 0x30,
            CMD3G_OPCODE::CMD3G_SETBULGE => 0x31,
            CMD3G_OPCODE::CMD3G_SETDDELAY => 0x32,
            CMD3G_OPCODE::CMD3G_CIRCLE => 0x33,
            CMD3G_OPCODE::CMD3G_TABLEJOG => 0x34,
            CMD3G_OPCODE::CMD3G_TABLELINETO => 0x35,
            CMD3G_OPCODE::CMD3G_TABLEJUMPTO => 0x36,
            CMD3G_OPCODE::CMD3G_TABLEARCLINE => 0x37,
            CMD3G_OPCODE::CMD3G_BRANCH => 0x38,
            CMD3G_OPCODE::CMD3G_SETAIJ => 0x39,
            CMD3G_OPCODE::CMD3G_SETROT => 0x3a,
            CMD3G_OPCODE::CMD3G_SETOFFS => 0x3b,
            CMD3G_OPCODE::CMD3G_SETOFFSZ => 0x3c,
            CMD3G_OPCODE::CMD3G_SETWOBBLE => 0x3d,
            CMD3G_OPCODE::CMD3G_JUMPTO3D => 0x3e,
            CMD3G_OPCODE::CMD3G_MOVETO3D => 0x3f,
            CMD3G_OPCODE::CMD3G_LINETO3D => 0x41,
            CMD3G_OPCODE::CMD3G_TABLEWHILEIO => 0x42,
            CMD3G_OPCODE::CMD3G_BSTR0 => 0x43,
            CMD3G_OPCODE::CMD3G_BSTRN => 0x44,
            CMD3G_OPCODE::CMD3G_UDPSEND => 0x45,
            CMD3G_OPCODE::CMD3G_TABLESNAP => 0x46,
            CMD3G_OPCODE::CMD3G_EOF => 0xff,
            CMD3G_OPCODE::INTCMD => 0x80,
            CMD3G_OPCODE::INTSUSPEND => 0x81,
            CMD3G_OPCODE::INTRESUME => 0x82,
            CMD3G_OPCODE::INTABORT => 0x83,
            CMD3G_OPCODE::INTRUNMODE => 0x85,
            CMD3G_OPCODE::INTFLASHEP => 0x87,
            CMD3G_OPCODE::INTFLASHPP => 0x88,
            CMD3G_OPCODE::INTSETIO => 0x89,
            CMD3G_OPCODE::INTUARTOPEN => 0x8a,
            CMD3G_OPCODE::INTUARTWRITE => 0x8b,
            CMD3G_OPCODE::INTEXCHLLINK => 0x8c,
            CMD3G_OPCODE::INTTESTIO => 0x8d,
            CMD3G_OPCODE::INTWAITIDLE => 0x8e,
            CMD3G_OPCODE::INTMAPTGT => 0x8f,
            CMD3G_OPCODE::INTSCANTGT => 0x90,
            CMD3G_OPCODE::INTUDPSEND => 0x91,
            CMD3G_OPCODE::INTWAITIO => 0x92,
            CMD3G_OPCODE::INTREPLY => 0x40,
            CMD3G_OPCODE::INTSTATUS => 0xc0,
            CMD3G_OPCODE::INTTGTSTATUS => 0xc1,
            CMD3G_OPCODE::INTFLASHRD => 0xc4,
            CMD3G_OPCODE::INTGTID => 0xc5,
            CMD3G_OPCODE::INTFLASHRDY => 0xc6,
            CMD3G_OPCODE::INTUARTREAD => 0xc7,
            CMD3G_OPCODE::INTSCANREAD => 0xc8,
            CMD3G_OPCODE::INTGETIP => 0xc9,
        }
    }
}

impl From<CMD3G_OPCODE> for u8 {
    fn from(value: CMD3G_OPCODE) -> (code: u8) {
        value.code()
    }
}

impl vstd::std_specs::convert::FromSpecImpl<CMD3G_OPCODE> for u8 {
    open spec fn obeys_from_spec() -> bool {
        true
    }

    open spec fn from_spec(value: CMD3G_OPCODE) -> u8 {
        value.spec_code()
    }
}

/// One frame: the atomic 8-byte record that the controller takes.
#[derive(Debug, Clone, Copy, PartialEq, Eq, Structural)]
pub struct CMD3G {
    /// Low word of the first axis, or the first plain value.
    pub x: u16,
    /// Low word of the second axis, or the second plain value.
    pub y: u16,
    /// High byte of the first axis.
    pub xh: u8,
    /// High byte of the second axis.
    pub yh: u8,
    /// What the controller is to do with the frame.
    pub op_code: CMD3G_OPCODE,
    /// Which unit the frame is for.
    pub target: u8,
}

impl CMD3G {
    /// A frame from its six fields.
    pub fn new(x: u16, y: u16, xh: u8, yh: u8, op_code: CMD3G_OPCODE, target: u8) -> (frame: CMD3G)
        ensures
            frame == (CMD3G { x, y, xh, yh, op_code, target }),
    {
        CMD3G { x, y, xh, yh, op_code, target }
    }

    /// A frame that carries an encoded position.
    pub fn new_movement(pos: &RawPosition, op_code: CMD3G_OPCODE, target: u8) -> (frame: CMD3G)
        ensures
            frame == movement_frame(*pos, op_code, target),
    {
        CMD3G { x: pos.x, y: pos.y, xh: pos.xh, yh: pos.yh, op_code, target }
    }
}

/// The frame that carries the encoded position `pos` under `op_code`.
pub open spec fn movement_frame(pos: RawPosition, op_code: CMD3G_OPCODE, target: u8) -> CMD3G {
    CMD3G { x: pos.x, y: pos.y, xh: pos.xh, yh: pos.yh, op_code, target }
}

/// A position in physical units. Each coordinate is held as the bit pattern
/// of a double-precision value, and two positions are equal where their
/// patterns are.
#[derive(Debug, Clone, Copy, PartialEq, Eq, Structural)]
pub struct Position {
    pub x: u64,
    pub y: u64,
}

/// A position as a frame carries it: per axis the low word and the high byte
/// of a count of thousandths. `Position::to_raw` makes it.
#[derive(Debug, Clone, Copy, PartialEq, Eq, Structural)]
pub struct RawPosition {
    /// Low word of the first axis.
    pub x: u16,
    /// Low word of the second axis.
    pub y: u16,
    /// High byte of the first axis.
    pub xh: u8,
    /// High byte of the second axis.
    pub yh: u8,
}

impl Position {
    /// A position from the bit patterns of its two coordinates.
    pub fn new(x: u64, y: u64) -> (pos: Position)
        ensures
            pos == (Position { x, y }),
    {
        Position { x, y }
    }

    /// The encoding of this position: each coordinate times 1000, rounded to
    /// the nearest integer, split into low word and high byte.
    pub open spec fn raw(self) -> RawPosition {
        RawPosition {
            x: low_word(thousandths(self.x)),
            y: low_word(thousandths(self.y)),
            xh: high_byte(thousandths(self.x)),
            yh: high_byte(thousandths(self.y)),
        }
    }

    /// Encodes the position for a frame. A coordinate whose count of
    /// thousandths does not fit in 24 bits keeps only its low 24 bits.
    pub fn to_raw(&self) -> (raw: RawPosition)
        ensures
            raw == self.raw(),
    {
        let (x, xh) = split_count(scale_to_thousandths(self.x));
        let (y, yh) = split_count(scale_to_thousandths(self.y));
        RawPosition { x, y, xh, yh }
    }
}

/// The frame that carries two plain words under `op_code` for the single
/// target.
pub open spec fn value_frame(x: u16, y: u16, op_code: CMD3G_OPCODE) -> CMD3G {
    CMD3G { x, y, xh: 0, yh: 0, op_code, target: TARGET }
}

/// Whether a command has a frame encoding. The list brackets, the loop and
/// wait commands, target selection and the empty command have none yet.
pub open spec fn is_supported(command: RhothorCommand) -> bool {
    match command {
        RhothorCommand::Jump(_)
        | RhothorCommand::Move(_)
        | RhothorCommand::Line(_)
        | RhothorCommand::Arc(_, _)
        | RhothorCommand::Circle(_, _)
        | RhothorCommand::SetSpeed(_)
        | RhothorCommand::SetJumpSpeed(_)
        | RhothorCommand::SetIO(_, _)
        | RhothorCommand::SetAnalog(_, _)
        | RhothorCommand::Sleep(_)
        | RhothorCommand::Burst(_)
        | RhothorCommand::SetLaser(_)
        | RhothorCommand::SetLaserTimes(_, _) => true,
        _ => false,
    }
}

/// The frames that a command compiles to, in the order in which the
/// controller takes them. A command without an encoding gives none.
pub open spec fn command_frames(command: RhothorCommand) -> Seq<CMD3G> {
    match command {
        RhothorCommand::Jump(pos) => seq![
            movement_frame(pos.raw(), CMD3G_OPCODE::CMD3G_JUMPTO, TARGET),
        ],
        RhothorCommand::Move(pos) => seq![
            movement_frame(pos.raw(), CMD3G_OPCODE::CMD3G_MOVETO, TARGET),
        ],
        RhothorCommand::Line(pos) => seq![
            movement_frame(pos.raw(), CMD3G_OPCODE::CMD3G_LINETO, TARGET),
        ],
        RhothorCommand::Arc(pos, bulge) => if below_millionth(bulge) {
            seq![movement_frame(pos.raw(), CMD3G_OPCODE::CMD3G_MOVETO, TARGET)]
        } else {
            seq![
                movement_frame(pos.raw(), CMD3G_OPCODE::CMD3G_ARCLINE, TARGET),
                value_frame(high16(bulge), 0, CMD3G_OPCODE::CMD3G_PARAMS),
            ]
        },
        RhothorCommand::Circle(pos, angle) => seq![
            movement_frame(pos.raw(), CMD3G_OPCODE::CMD3G_CIRCLE, TARGET),
            value_frame(low16(angle), high16(angle), CMD3G_OPCODE::CMD3G_PARAMS),
        ],
        RhothorCommand::SetSpeed(speed) => seq![
            value_frame(low16(speed), high16(speed), CMD3G_OPCODE::CMD3G_SPEED),
        ],
        RhothorCommand::SetJumpSpeed(speed) => seq![
            value_frame(low16(speed), high16(speed), CMD3G_OPCODE::CMD3G_JUMPSPEED),
        ],
        RhothorCommand::SetIO(value, mask) => seq![
            value_frame(value, mask, CMD3G_OPCODE::CMD3G_SETIO),
        ],
        RhothorCommand::SetAnalog(value, mask) => seq![
            value_frame(value, mask, CMD3G_OPCODE::CMD3G_SETANA),
        ],
        RhothorCommand::Sleep(time) => seq![value_frame(time, 0, CMD3G_OPCODE::CMD3G_SLEEP)],
        RhothorCommand::Burst(time) => seq![value_frame(time, 0, CMD3G_OPCODE::CMD3G_BURST)],
        RhothorCommand::SetLaser(on) => seq![
            value_frame(if on { 1u16 } else { 0u16 }, 0, CMD3G_OPCODE::CMD3G_SETLIDLE),
        ],
        RhothorCommand::SetLaserTimes(on_delay, off_delay) => seq![
            value_frame(on_delay, off_delay, CMD3G_OPCODE::CMD3G_SETDELAYS),
        ],
        _ => Seq::empty(),
    }
}

/// Turns a command into its frames. A command without an encoding gives no
/// frame; `compile` reports it instead.
pub fn build_command(command: &RhothorCommand) -> (frames: Vec<CMD3G>)
    ensures
        frames@ == command_frames(*command),
{
    match command {
        RhothorCommand::Jump(pos) => {
            vec![CMD3G::new_movement(&pos.to_raw(), CMD3G_OPCODE::CMD3G_JUMPTO, TARGET)]
        },
        RhothorCommand::Move(pos) => {
            vec![CMD3G::new_movement(&pos.to_raw(), CMD3G_OPCODE::CMD3G_MOVETO, TARGET)]
        },
        RhothorCommand::Line(pos) => {
            vec![CMD3G::new_movement(&pos.to_raw(), CMD3G_OPCODE::CMD3G_LINETO, TARGET)]
        },
        RhothorCommand::Arc(center, bulge) => {
            if is_below_millionth(*bulge) {
                return vec![
                    CMD3G::new_movement(&center.to_raw(), CMD3G_OPCODE::CMD3G_MOVETO, TARGET),
                ];
            }
            vec![
                CMD3G::new_movement(&center.to_raw(), CMD3G_OPCODE::CMD3G_ARCLINE, TARGET),
                CMD3G::new(
                    encode_f32_high_half(*bulge),
                    0,
                    0,
                    0,
                    CMD3G_OPCODE::CMD3G_PARAMS,
                    TARGET,
                ),
            ]
        },
        RhothorCommand::Circle(center, angle) => {
            let (low, high) = encode_f32_halves(*angle);
            vec![
                CMD3G::new_movement(&center.to_raw(), CMD3G_OPCODE::CMD3G_CIRCLE, TARGET),
                CMD3G::new(low, high, 0, 0, CMD3G_OPCODE::CMD3G_PARAMS, TARGET),
            ]
        },
        RhothorCommand::SetSpeed(speed) => {
            let (low, high) = encode_f32_halves(*speed);
            vec![CMD3G::new(low, high, 0, 0, CMD3G_OPCODE::CMD3G_SPEED, TARGET)]
        },
        RhothorCommand::SetJumpSpeed(speed) => {
            let (low, high) = encode_f32_halves(*speed);
            vec![CMD3G::new(low, high, 0, 0, CMD3G_OPCODE::CMD3G_JUMPSPEED, TARGET)]
        },
        RhothorCommand::SetIO(value, mask) => {
            vec![CMD3G::new(*value, *mask, 0, 0, CMD3G_OPCODE::CMD3G_SETIO, TARGET)]
        },
        RhothorCommand::SetAnalog(value, mask) => {
            vec![CMD3G::new(*value, *mask, 0, 0, CMD3G_OPCODE::CMD3G_SETANA, TARGET)]
        },
        RhothorCommand::Sleep(time) => {
            vec![CMD3G::new(*time, 0, 0, 0, CMD3G_OPCODE::CMD3G_SLEEP, TARGET)]
        },
        RhothorCommand::Burst(time) => {
            vec![CMD3G::new(*time, 0, 0, 0, CMD3G_OPCODE::CMD3G_BURST, TARGET)]
        },
        RhothorCommand::SetLaser(on) => {
            let flag: u16 = if *on {
                1
            } else {
                0
            };
            vec![CMD3G::new(flag, 0, 0, 0, CMD3G_OPCODE::CMD3G_SETLIDLE, TARGET)]
        },
        RhothorCommand::SetLaserTimes(on_delay, off_delay) => {
            vec![CMD3G::new(*on_delay, *off_delay, 0, 0, CMD3G_OPCODE::CMD3G_SETDELAYS, TARGET)]
        },
        _ => Vec::new(),
    }
}

/// Compiles a command and reports one that has no encoding.
pub fn compile(command: &RhothorCommand) -> (outcome: Result<Vec<CMD3G>, AppError>)
    ensures
        is_supported(*command) ==> outcome is Ok && outcome->Ok_0@ == command_frames(*command),
        !is_supported(*command) ==> outcome == Err::<Vec<CMD3G>, AppError>(
            AppError::UnsupportedCommandError,
        ),
{
    match command {
        RhothorCommand::Jump(_)
        | RhothorCommand::Move(_)
        | RhothorCommand::Line(_)
        | RhothorCommand::Arc(_, _)
        | RhothorCommand::Circle(_, _)
        | RhothorCommand::SetSpeed(_)
        | RhothorCommand::SetJumpSpeed(_)
        | RhothorCommand::SetIO(_, _)
        | RhothorCommand::SetAnalog(_, _)
        | RhothorCommand::Sleep(_)
        | RhothorCommand::Burst(_)
        | RhothorCommand::SetLaser(_)
        | RhothorCommand::SetLaserTimes(_, _) => Ok(build_command(command)),
        _ => Err(AppError::UnsupportedCommandError),
    }
}

/// The frames of a list of commands: those of each command, in the order of
/// the commands.
pub open spec fn list_frames(commands: Seq<RhothorCommand>) -> Seq<CMD3G>
    decreases commands.len(),
{
    if commands.len() == 0 {
        Seq::empty()
    } else {
        list_frames(commands.drop_last()) + command_frames(commands.last())
    }
}

/// Where the frames of command `index` begin among the frames of the list.
pub open spec fn frame_offset(commands: Seq<RhothorCommand>, index: int) -> int {
    list_frames(commands.take(index)).len() as int
}

/// Turns a list of commands into one list of frames. Nothing is reordered,
/// merged or dropped.
pub fn build_commandlist(command_vec: &[RhothorCommand]) -> (frames: Vec<CMD3G>)
    ensures
        frames@ == list_frames(command_vec@),
{
    let mut frames: Vec<CMD3G> = Vec::new();
    let mut i: usize = 0;
    while i < command_vec.len()
        invariant
            i <= command_vec@.len(),
            frames@ == list_frames(command_vec@.take(i as int)),
        decreases command_vec@.len() - i,
    {
        let mut next = build_command(&command_vec[i]);
        frames.append(&mut next);
        proof {
            assert(command_vec@.take(i + 1).drop_last() == command_vec@.take(i as int));
        }
        i += 1;
    }
    proof {
        assert(command_vec@.take(i as int) == command_vec@);
    }
    frames
}

/// The positions of the commands that have no frame encoding, in rising
/// order.
pub fn unsupported_positions(command_vec: &[RhothorCommand]) -> (positions: Vec<usize>)
    ensures
        forall|i: int, j: int|
            0 <= i < j < positions@.len() ==> positions@[i] < positions@[j],
        forall|k: int|
            0 <= k < positions@.len() ==> positions@[k] < command_vec@.len() && !is_supported(
                command_vec@[positions@[k] as int],
            ),
        forall|n: int|
            0 <= n < command_vec@.len() && !is_supported(command_vec@[n]) ==> exists|k: int|
                0 <= k < positions@.len() && positions@[k] == n,
{
    let mut positions: Vec<usize> = Vec::new();
    let mut i: usize = 0;
    while i < command_vec.len()
        invariant
            i <= command_vec@.len(),
            forall|a: int, b: int|
                0 <= a < b < positions@.len() ==> positions@[a] < positions@[b],
            forall|k: int|
                0 <= k < positions@.len() ==> positions@[k] < i && !is_supported(
                    command_vec@[positions@[k] as int],
                ),
            forall|n: int|
                0 <= n < i && !is_supported(command_vec@[n]) ==> exists|k: int|
                    0 <= k < positions@.len() && positions@[k] == n,
        decreases command_vec@.len() - i,
    {
        if compile(&command_vec[i]).is_err() {
            let ghost before = positions@;
            positions.push(i);
            proof {
                assert forall|n: int|
                    0 <= n < i + 1 && !is_supported(command_vec@[n]) implies exists|k: int|
                    0 <= k < positions@.len() && positions@[k] == n by {
                    if n < i {
                        let k = choose|k: int| 0 <= k < before.len() && before[k] == n;
                        assert(positions@[k] == n);
                    } else {
                        assert(positions@[before.len() as int] == n);
                    }
                }
            }
        }
        i += 1;
    }
    positions
}

/// The request for the status record.
pub fn get_status() -> (frames: Vec<CMD3G>)
    ensures
        frames@ == seq![
            (CMD3G {
                x: 0,
                y: 0x2C,
                xh: 0,
                yh: 0,
                op_code: CMD3G_OPCODE::INTSTATUS,
                target: TARGET,
            }),
        ],
{
    vec![CMD3G::new(0, 0x2C, 0, 0, CMD3G_OPCODE::INTSTATUS, TARGET)]
}

/// The request for the target's identifier.
pub fn get_target_id() -> (frames: Vec<CMD3G>)
    ensures
        frames@ == seq![
            (CMD3G { x: 0, y: 0, xh: 0, yh: 0, op_code: CMD3G_OPCODE::INTGTID, target: 0 }),
        ],
{
    vec![CMD3G::new(0, 0, 0, 0, CMD3G_OPCODE::INTGTID, 0)]
}

/// The status record of a target: the state of its inputs and outputs and
/// its positions, as counts of thousandths.
#[derive(Debug, Clone, Copy, PartialEq, Eq)]
pub struct TgtStatus {
    pub inputs: u16,
    pub outputs: u16,
    pub me: u8,
    pub return_value: u8,
    pub counter: u16,
    pub analog: [u8; 4],
    pub otfx: i32,
    pub otfy: i32,
    pub tablex: i32,
    pub tabley: i32,
    pub tablez: i32,
    pub deflx: i32,
    pub defly: i32,
    pub deflz: i32,
}

impl TgtStatus {
    /// Whether this record is what the first 44 bytes of `bytes` hold.
    pub open spec fn decodes(self, bytes: Seq<u8>) -> bool {
        &&& self.inputs == le_u16(bytes, 0)
        &&& self.outputs == le_u16(bytes, 2)
        &&& self.me == bytes[4]
        &&& self.return_value == bytes[5]
        &&& self.counter == le_u16(bytes, 6)
        &&& self.analog@ == bytes.subrange(8, 12)
        &&& self.otfx == le_i32(bytes, 12)
        &&& self.otfy == le_i32(bytes, 16)
        &&& self.tablex == le_i32(bytes, 20)
        &&& self.tabley == le_i32(bytes, 24)
        &&& self.tablez == le_i32(bytes, 28)
        &&& self.deflx == le_i32(bytes, 32)
        &&& self.defly == le_i32(bytes, 36)
        &&& self.deflz == le_i32(bytes, 40)
    }

    /// A reply holds one record and no other.
    pub proof fn lemma_decodes_one(self, other: TgtStatus, bytes: Seq<u8>)
        requires
            self.decodes(bytes),
            other.decodes(bytes),
        ensures
            self == other,
    {
        assert(self.analog@ == other.analog@);
        assert(self.analog == other.analog);
    }

    /// Decodes a status reply. The record takes the first 44 bytes; a
    /// shorter reply is an error and what follows the record is ignored.
    pub fn decode(bytes: &[u8]) -> (outcome: Result<TgtStatus, AppError>)
        ensures
            bytes@.len() >= STATUS_SIZE ==> outcome is Ok && outcome->Ok_0.decodes(bytes@),
            bytes@.len() < STATUS_SIZE ==> outcome == Err::<TgtStatus, AppError>(
                AppError::DecodeError,
            ),
    {
        if bytes.len() < STATUS_SIZE {
            return Err(AppError::DecodeError);
        }
        let analog: [u8; 4] = [bytes[8], bytes[9], bytes[10], bytes[11]];
        assert(analog@ =~= bytes@.subrange(8, 12));
        Ok(
            TgtStatus {
                inputs: read_u16(bytes, 0),
                outputs: read_u16(bytes, 2),
                me: bytes[4],
                return_value: bytes[5],
                counter: read_u16(bytes, 6),
                analog,
                otfx: read_i32(bytes, 12),
                otfy: read_i32(bytes, 16),
                tablex: read_i32(bytes, 20),
                tabley: read_i32(bytes, 24),
                tablez: read_i32(bytes, 28),
                deflx: read_i32(bytes, 32),
                defly: read_i32(bytes, 36),
                deflz: read_i32(bytes, 40),
            },
        )
    }

    /// The measured beam position, in thousandths.
    pub fn get_position(&self) -> (position: (i32, i32))
        ensures
            position == (self.deflx, self.defly),
    {
        (self.deflx, self.defly)
    }
}

/// Whether a coordinate can be carried: it is a finite value whose count of
/// thousandths fits in the 24 bits of a low word and a high byte.
pub open spec fn in_range(coordinate: u64) -> bool {
    is_finite(coordinate) && -0x80_0000 <= thousandths(coordinate) < 0x80_0000
}

/// Distinct opcodes have distinct codes.
pub proof fn lemma_codes_differ(a: CMD3G_OPCODE, b: CMD3G_OPCODE)
    requires
        a != b,
    ensures
        a.spec_code() != b.spec_code(),
{
}

/// A position in range comes back from its encoding: the words of each
/// axis rejoin to the count of thousandths of the coordinate, and that count
/// lies within half a thousandth of the coordinate, unless the product with
/// 1000 was rounded up onto a tie in double precision.
pub proof fn lemma_position_recovers(pos: Position)
    requires
        in_range(pos.x),
        in_range(pos.y),
    ensures
        rejoin_count(pos.raw().x, pos.raw().xh) == thousandths(pos.x),
        rejoin_count(pos.raw().y, pos.raw().yh) == thousandths(pos.y),
        !rounds_up_onto_tie(pos.x) ==> within_half_thousandth(
            pos.x,
            rejoin_count(pos.raw().x, pos.raw().xh),
        ),
        !rounds_up_onto_tie(pos.y) ==> within_half_thousandth(
            pos.y,
            rejoin_count(pos.raw().y, pos.raw().yh),
        ),
{
    lemma_count_round_trip(thousandths(pos.x));
    lemma_count_round_trip(thousandths(pos.y));
    lemma_thousandths_recover(pos.x);
    lemma_thousandths_recover(pos.y);
}

/// An arc with a bulge below a millionth in magnitude is one MOVETO frame
/// at its position; any other arc is an ARCLINE frame at its position and a
/// PARAMS frame with the high half of the bulge in `x` and nothing else.
pub proof fn lemma_arc_frames(pos: Position, bulge: u32)
    ensures
        below_millionth(bulge) ==> command_frames(RhothorCommand::Arc(pos, bulge)) == seq![
            (CMD3G {
                x: pos.raw().x,
                y: pos.raw().y,
                xh: pos.raw().xh,
                yh: pos.raw().yh,
                op_code: CMD3G_OPCODE::CMD3G_MOVETO,
                target: TARGET,
            }),
        ],
        !below_millionth(bulge) ==> command_frames(RhothorCommand::Arc(pos, bulge)) == seq![
            (CMD3G {
                x: pos.raw().x,
                y: pos.raw().y,
                xh: pos.raw().xh,
                yh: pos.raw().yh,
                op_code: CMD3G_OPCODE::CMD3G_ARCLINE,
                target: TARGET,
            }),
            (CMD3G {
                x: high16(bulge),
                y: 0,
                xh: 0,
                yh: 0,
                op_code: CMD3G_OPCODE::CMD3G_PARAMS,
                target: TARGET,
            }),
        ],
{
}

/// A circle is always a CIRCLE frame at its position and a PARAMS frame
/// with the low half of the angle in `x` and the high half in `y`.
pub proof fn lemma_circle_frames(pos: Position, angle: u32)
    ensures
        command_frames(RhothorCommand::Circle(pos, angle)) == seq![
            (CMD3G {
                x: pos.raw().x,
                y: pos.raw().y,
                xh: pos.raw().xh,
                yh: pos.raw().yh,
                op_code: CMD3G_OPCODE::CMD3G_CIRCLE,
                target: TARGET,
            }),
            (CMD3G {
                x: low16(angle),
                y: high16(angle),
                xh: 0,
                yh: 0,
                op_code: CMD3G_OPCODE::CMD3G_PARAMS,
                target: TARGET,
            }),
        ],
{
}

/// A command compiles to two frames at most, and to none exactly where it
/// has no encoding. Every frame is addressed to the single target.
pub proof fn lemma_command_frames_shape(command: RhothorCommand)
    ensures
        command_frames(command).len() <= 2,
        command_frames(command).len() == 0 <==> !is_supported(command),
        forall|i: int|
            0 <= i < command_frames(command).len() ==> (#[trigger] command_frames(
                command,
            )[i]).target == TARGET,
{
}

/// The frames of two lists joined are the frames of the first list, then
/// those of the second.
pub proof fn lemma_list_frames_concat(first: Seq<RhothorCommand>, second: Seq<RhothorCommand>)
    ensures
        list_frames(first + second) == list_frames(first) + list_frames(second),
    decreases second.len(),
{
    if second.len() == 0 {
        assert(first + second == first);
    } else {
        lemma_list_frames_concat(first, second.drop_last());
        assert((first + second).drop_last() == first + second.drop_last());
        assert((first + second).last() == second.last());
    }
}

/// The frames of a list keep the order of its commands: the frames of
/// command `index` stand together, right behind the frames of all commands
/// before it, and the frames of all commands after it follow.
pub proof fn lemma_frames_keep_order(commands: Seq<RhothorCommand>, index: int)
    requires
        0 <= index < commands.len(),
    ensures
        frame_offset(commands, index + 1) == frame_offset(commands, index) + command_frames(
            commands[index],
        ).len(),
        frame_offset(commands, index + 1) <= list_frames(commands).len(),
        list_frames(commands).subrange(
            frame_offset(commands, index),
            frame_offset(commands, index + 1),
        ) == command_frames(commands[index]),
{
    let before = commands.take(index);
    let upto = commands.take(index + 1);
    let after = commands.skip(index + 1);
    assert(upto.drop_last() == before);
    assert(upto.last() == commands[index]);
    assert(upto + after == commands);
    lemma_list_frames_concat(upto, after);
    assert(list_frames(commands).subrange(
        frame_offset(commands, index),
        frame_offset(commands, index + 1),
    ) == command_frames(commands[index]));
}

/// The frames of an earlier command begin no later than those of a later
/// one.
pub proof fn lemma_offsets_rise(commands: Seq<RhothorCommand>, earlier: int, later: int)
    requires
        0 <= earlier <= later <= commands.len(),
    ensures
        frame_offset(commands, earlier) <= frame_offset(commands, later),
    decreases later - earlier,
{
    if earlier < later {
        lemma_offsets_rise(commands, earlier, later - 1);
        lemma_frames_keep_order(commands, later - 1);
    }
}

} // verus!
