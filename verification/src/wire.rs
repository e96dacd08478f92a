//! The byte layout of frames and of the status reply.
//!
//! Every field is written at its natural width, least significant byte
//! first, with nothing between the fields.

use crate::commands::{lemma_codes_differ, CMD3G};
use vstd::prelude::*;

verus! {

/// Bytes per frame.
pub const FRAME_SIZE: usize = 8;

/// Bytes per transmission block.
pub const BLOCK_SIZE: usize = 512;

/// The eight bytes of a frame.
pub open spec fn frame_bytes(frame: CMD3G) -> Seq<u8> {
    seq![
        (frame.x % 256) as u8,
        (frame.x / 256) as u8,
        (frame.y % 256) as u8,
        (frame.y / 256) as u8,
        frame.xh,
        frame.yh,
        frame.op_code.spec_code(),
        frame.target,
    ]
}

/// The bytes of a list of frames: those of each frame, in order.
pub open spec fn wire_image(frames: Seq<CMD3G>) -> Seq<u8>
    decreases frames.len(),
{
    if frames.len() == 0 {
        Seq::empty()
    } else {
        wire_image(frames.drop_last()) + frame_bytes(frames.last())
    }
}

/// A buffer filled up with zero bytes to the next block boundary beyond its
/// end. A buffer that ends on a boundary gets a whole block of zeros.
pub open spec fn padded(buffer: Seq<u8>) -> Seq<u8> {
    buffer + Seq::new((BLOCK_SIZE - buffer.len() % (BLOCK_SIZE as nat)) as nat, |i: int| 0u8)
}

/// Writes the frames out as bytes, eight per frame.
pub fn serialize_commands(commands: &[CMD3G]) -> (buffer: Vec<u8>)
    ensures
        buffer@ == wire_image(commands@),
{
    let mut buffer: Vec<u8> = Vec::new();
    let mut i: usize = 0;
    while i < commands.len()
        invariant
            i <= commands@.len(),
            buffer@ == wire_image(commands@.take(i as int)),
        decreases commands@.len() - i,
    {
        let frame = &commands[i];
        let ghost before = buffer@;
        buffer.push((frame.x % 256) as u8);
        buffer.push((frame.x / 256) as u8);
        buffer.push((frame.y % 256) as u8);
        buffer.push((frame.y / 256) as u8);
        buffer.push(frame.xh);
        buffer.push(frame.yh);
        buffer.push(frame.op_code.code());
        buffer.push(frame.target);
        proof {
            assert(commands@.take(i + 1).drop_last() == commands@.take(i as int));
            assert(buffer@ == before + frame_bytes(*frame));
        }
        i += 1;
    }
    proof {
        assert(commands@.take(i as int) == commands@);
    }
    buffer
}

/// The bytes to transmit for a list of frames: the frames, then zeros up to
/// the next block boundary.
pub fn block_buffer(commands: &[CMD3G]) -> (buffer: Vec<u8>)
    ensures
        buffer@ == padded(wire_image(commands@)),
{
    let mut buffer = serialize_commands(commands);
    let ghost image = buffer@;
    buffer.push(0);
    while buffer.len() % BLOCK_SIZE != 0
        invariant
            image.len() < buffer@.len() <= image.len() + BLOCK_SIZE - image.len() % (
            BLOCK_SIZE as nat),
            buffer@.subrange(0, image.len() as int) == image,
            forall|i: int| image.len() <= i < buffer@.len() ==> buffer@[i] == 0,
        decreases image.len() + BLOCK_SIZE - image.len() % (BLOCK_SIZE as nat) - buffer@.len(),
    {
        buffer.push(0);
    }
    proof {
        assert(buffer@.len() == image.len() + BLOCK_SIZE - image.len() % (BLOCK_SIZE as nat));
        assert(buffer@ =~= padded(image));
    }
    buffer
}

/// Bytes in a status reply.
pub const STATUS_SIZE: usize = 44;

/// The unsigned 16-bit value whose two bytes start at `at`, low byte first.
pub open spec fn le_u16(bytes: Seq<u8>, at: int) -> u16 {
    (bytes[at] + 0x100 * bytes[at + 1]) as u16
}

/// The signed 32-bit value whose four bytes start at `at`, low byte first,
/// in two's complement.
pub open spec fn le_i32(bytes: Seq<u8>, at: int) -> i32 {
    let unsigned = bytes[at] + 0x100 * bytes[at + 1] + 0x1_0000 * bytes[at + 2] + 0x100_0000
        * bytes[at + 3];
    if unsigned >= 0x8000_0000 {
        (unsigned - 0x1_0000_0000) as i32
    } else {
        unsigned as i32
    }
}

/// Reads an unsigned 16-bit value, low byte first.
pub fn read_u16(bytes: &[u8], at: usize) -> (value: u16)
    requires
        at + 2 <= bytes@.len(),
    ensures
        value == le_u16(bytes@, at as int),
{
    bytes[at] as u16 + 0x100 * (bytes[at + 1] as u16)
}

/// Reads a signed 32-bit value, low byte first.
pub fn read_i32(bytes: &[u8], at: usize) -> (value: i32)
    requires
        at + 4 <= bytes@.len(),
    ensures
        value == le_i32(bytes@, at as int),
{
    let low: u32 = bytes[at] as u32 + 0x100 * (bytes[at + 1] as u32) + 0x1_0000 * (bytes[at
        + 2] as u32);
    let top: u8 = bytes[at + 3];
    if top >= 0x80 {
        let above: i32 = (top - 0x80) as i32;
        i32::MIN + (0x100_0000 * above + low as i32)
    } else {
        0x100_0000 * (top as i32) + low as i32
    }
}

/// Every frame takes eight bytes.
pub proof fn lemma_wire_image_len(frames: Seq<CMD3G>)
    ensures
        wire_image(frames).len() == FRAME_SIZE * frames.len(),
    decreases frames.len(),
{
    if frames.len() > 0 {
        lemma_wire_image_len(frames.drop_last());
    }
}

/// The bytes of frame `index` stand at eight times its index.
pub proof fn lemma_wire_image_frame(frames: Seq<CMD3G>, index: int)
    requires
        0 <= index < frames.len(),
    ensures
        FRAME_SIZE * index + FRAME_SIZE <= wire_image(frames).len(),
        wire_image(frames).subrange(FRAME_SIZE * index, FRAME_SIZE * index + FRAME_SIZE)
            == frame_bytes(frames[index]),
    decreases frames.len(),
{
    lemma_wire_image_len(frames);
    lemma_wire_image_len(frames.drop_last());
    if index < frames.len() - 1 {
        lemma_wire_image_frame(frames.drop_last(), index);
        assert(wire_image(frames).subrange(FRAME_SIZE * index, FRAME_SIZE * index + FRAME_SIZE)
            == wire_image(frames.drop_last()).subrange(
            FRAME_SIZE * index,
            FRAME_SIZE * index + FRAME_SIZE,
        ));
    } else {
        assert(wire_image(frames).subrange(FRAME_SIZE * index, FRAME_SIZE * index + FRAME_SIZE)
            == frame_bytes(frames.last()));
    }
}

/// Two frames with the same bytes are the same frame.
pub proof fn lemma_frame_bytes_differ(a: CMD3G, b: CMD3G)
    requires
        a != b,
    ensures
        frame_bytes(a) != frame_bytes(b),
{
    if a.op_code != b.op_code {
        lemma_codes_differ(a.op_code, b.op_code);
    }
    if frame_bytes(a) == frame_bytes(b) {
        assert(frame_bytes(a)[0] == frame_bytes(b)[0]);
        assert(frame_bytes(a)[1] == frame_bytes(b)[1]);
        assert(frame_bytes(a)[2] == frame_bytes(b)[2]);
        assert(frame_bytes(a)[3] == frame_bytes(b)[3]);
        assert(frame_bytes(a)[4] == frame_bytes(b)[4]);
        assert(frame_bytes(a)[5] == frame_bytes(b)[5]);
        assert(frame_bytes(a)[6] == frame_bytes(b)[6]);
        assert(frame_bytes(a)[7] == frame_bytes(b)[7]);
    }
}

/// A padded buffer is a whole number of blocks, longer than the buffer by
/// one block at most, and begins with the buffer.
pub proof fn lemma_padded_shape(buffer: Seq<u8>)
    ensures
        padded(buffer).len() % (BLOCK_SIZE as nat) == 0,
        buffer.len() < padded(buffer).len() <= buffer.len() + BLOCK_SIZE,
        padded(buffer).subrange(0, buffer.len() as int) == buffer,
        forall|i: int| buffer.len() <= i < padded(buffer).len() ==> padded(buffer)[i] == 0,
{
}

} // verus!
