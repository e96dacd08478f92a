use bincode::Options;
use rusthor::commands::{get_status, get_target_id, CMD3G, CMD3G_OPCODE, TARGET};
use rusthor::wire::{block_buffer, read_i32, read_u16, serialize_commands};

#[test]
fn test_serialize() {
    let q = vec![CMD3G::new(0, 0, 0, 0, CMD3G_OPCODE::INTGTID, 0)];
    let want = vec![0x00, 0x00, 0x00, 0x00, 0x00, 0x00, 0xC5, 0x00];
    let buffer = serialize_commands(&q);
    assert_eq!(buffer.len(), want.len());
    buffer
        .iter()
        .zip(want.iter())
        .for_each(|(got, want)| assert_eq!(got, want));
}

#[test]
fn serialize_writes_low_bytes_first() {
    let frames = vec![
        CMD3G::new(0x1234, 0xABCD, 0x56, 0x78, CMD3G_OPCODE::CMD3G_JUMPTO, TARGET),
        CMD3G::new(1200, 3400, 0, 0xFF, CMD3G_OPCODE::CMD3G_EOF, 0xFF),
    ];
    assert_eq!(
        serialize_commands(&frames),
        vec![
            0x34, 0x12, 0xCD, 0xAB, 0x56, 0x78, 0x04, 0x01, 0xB0, 0x04, 0x48, 0x0D, 0x00, 0xFF,
            0xFF, 0xFF
        ]
    );
    assert_eq!(serialize_commands(&[]), Vec::<u8>::new());
}

#[test]
fn serialize_agrees_with_bincode() {
    let options = bincode::DefaultOptions::new().with_fixint_encoding();
    let mut state: u64 = 0x0123_4567_89AB_CDEF;
    let codes = [
        CMD3G_OPCODE::CMD3G_NOP,
        CMD3G_OPCODE::CMD3G_PARAMS,
        CMD3G_OPCODE::CMD3G_CIRCLE,
        CMD3G_OPCODE::INTSTATUS,
        CMD3G_OPCODE::CMD3G_EOF,
    ];
    let mut frames = Vec::new();
    let mut want: Vec<u8> = Vec::new();
    for i in 0..500 {
        state ^= state << 13;
        state ^= state >> 7;
        state ^= state << 17;
        let x = state as u16;
        let y = (state >> 16) as u16;
        let xh = (state >> 32) as u8;
        let yh = (state >> 40) as u8;
        let target = (state >> 48) as u8;
        let op = codes[i % codes.len()];
        frames.push(CMD3G::new(x, y, xh, yh, op, target));
        want.extend(options.serialize(&(x, y, xh, yh, op.code(), target)).unwrap());
    }
    assert_eq!(serialize_commands(&frames), want);
}

#[test]
fn block_buffer_fills_up_to_the_next_block() {
    let one = block_buffer(&get_target_id());
    assert_eq!(one.len(), 512);
    assert_eq!(&one[..8], &[0, 0, 0, 0, 0, 0, 0xC5, 0]);
    assert!(one[8..].iter().all(|b| *b == 0));

    let status = block_buffer(&get_status());
    assert_eq!(status.len(), 512);
    assert_eq!(&status[..8], &[0, 0, 0x2C, 0, 0, 0, 0xC0, 1]);
    assert!(status[8..].iter().all(|b| *b == 0));

    let empty = block_buffer(&[]);
    assert_eq!(empty, vec![0u8; 512]);

    let frame = CMD3G::new(0xFFFF, 0xFFFF, 0xFF, 0xFF, CMD3G_OPCODE::CMD3G_EOF, 0xFF);
    let full = block_buffer(&vec![frame; 64]);
    assert_eq!(full.len(), 1024);
    assert!(full[..512].iter().all(|b| *b == 0xFF));
    assert!(full[512..].iter().all(|b| *b == 0));

    let more = block_buffer(&vec![frame; 65]);
    assert_eq!(more.len(), 1024);
    assert!(more[..520].iter().all(|b| *b == 0xFF));
    assert!(more[520..].iter().all(|b| *b == 0));
}

#[test]
fn block_buffer_matches_a_resize() {
    let frame = CMD3G::new(1, 2, 3, 4, CMD3G_OPCODE::CMD3G_SLEEP, TARGET);
    for n in 0..200usize {
        let frames = vec![frame; n];
        let mut want = serialize_commands(&frames);
        let remainder = want.len() % 512;
        want.resize(want.len() + 512 - remainder, 0);
        assert_eq!(block_buffer(&frames), want);
    }
}

#[test]
fn reads_little_endian_fields() {
    let bytes = [0x34u8, 0x12, 0xFF, 0xFF, 0xFF, 0x7F, 0x00, 0x00, 0x00, 0x80];
    assert_eq!(read_u16(&bytes, 0), 0x1234);
    assert_eq!(read_u16(&bytes, 1), 0xFF12);
    assert_eq!(read_i32(&bytes, 2), 0x7FFF_FFFF);
    assert_eq!(read_i32(&bytes, 6), i32::MIN);
    assert_eq!(read_i32(&bytes, 1), -238);
    for w in [0i32, 1, -1, 1200, -1200, i32::MAX, i32::MIN, 0x0102_0304] {
        assert_eq!(read_i32(&w.to_le_bytes(), 0), w);
    }
}
