use jtag_cable::bits::{
    align_last_byte, byte_len, mask_low_bits, normalize_buffer, ones_buffer, ones_vec,
};
use jtag_cable::mpsse::{
    change_mode_commands, chunk_tms, decode_shift_response, read_commands, read_write_commands,
    tms_commands, write_commands, TmsChunk, TMS_CHUNK_BITS,
};
use jtag_cable::tap::{step_state, walk_states, TapState};

#[test]
fn chunking_respects_bit_limit() {
    let tms: Vec<usize> = vec![1; 20];
    let chunks = chunk_tms(&tms);
    assert_eq!(chunks.len(), 3);
    for c in &chunks {
        assert!(c.len >= 1 && c.len <= TMS_CHUNK_BITS);
        assert!(c.pattern < (1 << c.len));
    }
    assert_eq!(chunks[0], TmsChunk { pattern: 0x7F, len: 7 });
    assert_eq!(chunks[1], TmsChunk { pattern: 0x7F, len: 7 });
    assert_eq!(chunks[2], TmsChunk { pattern: 0x3F, len: 6 });
}

#[test]
fn chunk_count_is_ceiling_of_sevenths() {
    for n in 0usize..30 {
        let tms: Vec<usize> = vec![0; n];
        let chunks = chunk_tms(&tms);
        assert_eq!(chunks.len(), (n + 6) / 7);
        for c in chunks.iter().take(chunks.len().saturating_sub(1)) {
            assert_eq!(c.len, 7);
        }
    }
}

#[test]
fn chunking_is_transparent_to_the_walk() {
    // A sequence longer than the per-command limit: walking the chunks
    // one by one ends where the single-shot reference walk ends.
    let tms: Vec<usize> = vec![1, 0, 1, 1, 0, 1, 1, 1, 0, 0, 1, 0, 1, 1, 1, 0, 1];
    let reference = walk_states(TapState::TestLogicReset, &tms);
    let chunks = chunk_tms(&tms);
    let mut state = TapState::TestLogicReset;
    let mut total_bits = 0u32;
    for c in &chunks {
        for j in 0..c.len {
            state = step_state(state, (c.pattern >> j) & 1 != 0);
            total_bits += 1;
        }
    }
    assert_eq!(state, reference);
    assert_eq!(total_bits as usize, tms.len());
}

#[test]
fn change_mode_command_bytes() {
    let tms: Vec<usize> = vec![1, 0, 1, 1, 0, 1, 1, 1, 0];
    let (chunks, builder) = change_mode_commands(&tms, false);
    assert_eq!(chunks.len(), 2);
    assert_eq!(builder.as_slice(), &[0x4B, 6, 0x6D, 0x4B, 1, 0x01]);
    let (_, builder) = change_mode_commands(&tms, true);
    assert_eq!(builder.as_slice(), &[0x4B, 6, 0xED, 0x4B, 1, 0x81]);
}

#[test]
fn tms_commands_empty_sequence() {
    let chunks = chunk_tms(&[]);
    assert!(chunks.is_empty());
    let builder = tms_commands(&chunks, true);
    assert!(builder.as_slice().is_empty());
}

#[test]
fn write_command_bytes_single_byte() {
    // Seven bits of 0xAB clock as data, the eighth rides on the TMS
    // command that leaves Shift: bit 7 of 0xAB is one, so TDI is high.
    let builder = write_commands(&[0xAB], 8, false);
    assert_eq!(builder.as_slice(), &[0x1B, 6, 0xAB, 0x4B, 0, 0x81]);
}

#[test]
fn write_command_bytes_multi_byte_pause() {
    // Bit 3 of 0x34 is zero, so the final TMS command holds TDI low and
    // clocks two TMS bits (high then low) to rest in Pause.
    let builder = write_commands(&[0x12, 0x34], 4, true);
    assert_eq!(
        builder.as_slice(),
        &[0x19, 0, 0, 0x12, 0x1B, 2, 0x34, 0x4B, 1, 0x01]
    );
}

#[test]
fn write_command_bytes_single_bit() {
    // One data bit in total: nothing is byte- or bit-clocked, the lone
    // bit travels on the TMS command.
    let builder = write_commands(&[0x01], 1, false);
    assert_eq!(builder.as_slice(), &[0x4B, 0, 0x81]);
}

#[test]
fn read_command_bytes() {
    let (builder, expected) = read_commands(13);
    assert_eq!(builder.as_slice(), &[0x39, 0, 0, 0xFF, 0x3B, 4, 0xFF]);
    assert_eq!(expected, 2);

    let (builder, expected) = read_commands(16);
    assert_eq!(builder.as_slice(), &[0x39, 1, 0, 0xFF, 0xFF]);
    assert_eq!(expected, 2);

    let (builder, expected) = read_commands(3);
    assert_eq!(builder.as_slice(), &[0x3B, 2, 0xFF]);
    assert_eq!(expected, 1);
}

#[test]
fn read_write_command_bytes() {
    let (builder, expected) = read_write_commands(&[0xF0], 1, true);
    assert_eq!(builder.as_slice(), &[0x6B, 1, 0x01]);
    assert_eq!(expected, 1);

    let (builder, expected) = read_write_commands(&[0x80, 0xFF], 8, false);
    assert_eq!(
        builder.as_slice(),
        &[0x39, 0, 0, 0x80, 0x3B, 6, 0xFF, 0x6B, 0, 0x81]
    );
    assert_eq!(expected, 3);
}

#[test]
fn decode_response_assembles_last_byte() {
    // One byte shifted, eight bits: seven captured bits sit in the top
    // of the first response byte, the last bit at the top of the TMS
    // response byte.
    let out = decode_shift_response(&[0xFE, 0x80], 1, 8, false);
    assert_eq!(out, vec![0xFF]);

    // With a pause the TMS command clocks twice and its first captured
    // bit sits at bit 6.
    let out = decode_shift_response(&[0xFE, 0x40], 1, 8, true);
    assert_eq!(out, vec![0xFF]);

    // A single-bit shift: only the TMS response byte contributes.
    let out = decode_shift_response(&[0x80], 1, 1, false);
    assert_eq!(out, vec![0x01]);
    let out = decode_shift_response(&[0x00], 1, 1, false);
    assert_eq!(out, vec![0x00]);

    // Two bytes, three bits in the last: full byte passes through, the
    // two sub-byte bits drop from the top, the third bit lands above.
    let out = decode_shift_response(&[0x5A, 0xC0, 0x80], 2, 3, false);
    assert_eq!(out, vec![0x5A, 0x07]);
}

#[test]
fn align_moves_partial_capture_down() {
    // Eleven bits: the adapter leaves the three valid bits of the last
    // byte at its top; decoding right-aligns them and zeroes the rest.
    let mut raw = vec![0xFF, 0xE0];
    align_last_byte(&mut raw, 11);
    assert_eq!(raw, vec![0xFF, 0x07]);

    // A whole number of bytes needs no alignment.
    let mut raw = vec![0x12, 0x34];
    align_last_byte(&mut raw, 16);
    assert_eq!(raw, vec![0x12, 0x34]);
}

#[test]
fn byte_len_rounds_up() {
    assert_eq!(byte_len(1), 1);
    assert_eq!(byte_len(8), 1);
    assert_eq!(byte_len(9), 2);
    assert_eq!(byte_len(64), 8);
}

#[test]
fn mask_and_ones_helpers() {
    assert_eq!(mask_low_bits(0xFF, 3), 0x07);
    assert_eq!(mask_low_bits(0xAB, 8), 0xAB);
    assert_eq!(ones_vec(3), vec![0xFF, 0xFF, 0xFF]);
    assert_eq!(ones_buffer(9), vec![0xFF, 0x01]);
    assert_eq!(normalize_buffer(&[0xAB, 0xCD], 5), vec![0xAB, 0x0D]);
}
