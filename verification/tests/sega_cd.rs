use omnicore::saturn_cd_block::CdTrack;
use omnicore::sega_cd_drive::{
    process_cdd_command, SegaCdDrive, CDD_END, CDD_OPEN, CDD_PAUSE, CDD_PLAY, CDD_STOP, CDD_TOC,
};
use omnicore::sega_cd_gate::{SegaCdGate, WORD_RAM_SIZE};
use omnicore::sega_cd_graphics::SegaCdGraphics;
use omnicore::sega_cd_pcm::SegaCdPcm;

fn write_word(bytes: &mut [u8], offset: usize, value: u16) {
    bytes[offset..offset + 2].copy_from_slice(&value.to_be_bytes());
}

fn write_dot(bytes: &mut [u8], pixel_index: u32, value: u8) {
    let offset = ((pixel_index >> 1) as usize) & (bytes.len() - 1);
    if pixel_index & 1 == 0 {
        bytes[offset] = (bytes[offset] & 0x0f) | ((value & 0x0f) << 4);
    } else {
        bytes[offset] = (bytes[offset] & 0xf0) | (value & 0x0f);
    }
}

#[test]
fn gate_array_switches_word_ram_and_releases_sub_cpu() {
    let mut gate = SegaCdGate::default();
    assert!(gate.main_prg_access());
    assert!(gate.main_has_word_ram());
    assert!(!gate.sub_has_word_ram());
    gate.main_write(0x03, 0x00);
    assert!(!gate.main_has_word_ram());
    assert!(gate.sub_has_word_ram());
    gate.main_write(0x01, 0x01);
    assert!(gate.sub_running());
    assert!(gate.sub_reset_pulse);
}

#[test]
fn graphics_asic_geometry_transform_and_priority_modes_match_stamp_rules() {
    let mut gate = SegaCdGate::default();
    gate.regs[0x5a >> 1] = 0xffff;
    gate.regs[0x62 >> 1] = 8;
    gate.regs[0x64 >> 1] = 1;
    for (config, dot_mask, stamp_shift, map_shift, map_base) in [
        (0x00, 0x07ffff, 15, 4, 0x3fe00usize),
        (0x02, 0x07ffff, 16, 3, 0x3ff80usize),
        (0x04, 0x7fffff, 15, 8, 0x20000usize),
        (0x06, 0x7fffff, 16, 7, 0x38000usize),
    ] {
        gate.set_byte(0x59, config);
        let mut graphics = SegaCdGraphics::default();
        graphics.start(&mut gate);
        assert_eq!(graphics.dot_mask, dot_mask);
        assert_eq!(graphics.stamp_shift, stamp_shift);
        assert_eq!(graphics.map_shift, map_shift);
        assert_eq!(graphics.map_base, map_base);
    }

    let graphics = SegaCdGraphics::default();
    let mut word_ram = vec![0u8; WORD_RAM_SIZE];
    write_dot(&mut word_ram, 0x400, 1);
    write_dot(&mut word_ram, 0x707, 2);
    assert_eq!(graphics.transformed_pixel(&word_ram, 0x0004, 0, 0, true), 1);
    assert_eq!(graphics.transformed_pixel(&word_ram, 0x0005, 0, 0, true), 1);
    assert_eq!(graphics.transformed_pixel(&word_ram, 0x8004, 0, 0, true), 2);

    assert_eq!(SegaCdGraphics::merge_priority(0xa5, 0xc0, 0), 0xc0);
    assert_eq!(SegaCdGraphics::merge_priority(0xa5, 0xc0, 1), 0xa5);
    assert_eq!(SegaCdGraphics::merge_priority(0xa5, 0xc0, 2), 0xc5);
    assert_eq!(SegaCdGraphics::merge_priority(0xa5, 0xc0, 3), 0xa5);
}

fn stamp_operation(word_ram: &mut [u8]) -> SegaCdGate {
    // stamp 1 at map entry 0; trace table: start (0, 0), step (1.0, 0)
    write_word(word_ram, 0x200, 0x0001);
    write_word(word_ram, 0x400, 0x0000);
    write_word(word_ram, 0x402, 0x0000);
    write_word(word_ram, 0x404, 0x0800);
    write_word(word_ram, 0x406, 0x0000);
    let mut gate = SegaCdGate::default();
    gate.set_byte(0x03, 0x00);
    gate.set_byte(0x33, 0x02);
    gate.regs[0x5a >> 1] = 0x0080;
    gate.regs[0x5e >> 1] = 0x0200;
    gate.regs[0x62 >> 1] = 0x0008;
    gate.regs[0x64 >> 1] = 0x0001;
    gate.regs[0x66 >> 1] = 0x0100;
    gate
}

#[test]
fn graphics_line_copies_stamp_row_and_completes_with_level1() {
    let mut word_ram = vec![0u8; WORD_RAM_SIZE];
    word_ram[0x80..0x84].copy_from_slice(&[0x12, 0x34, 0x56, 0x78]);
    let mut gate = stamp_operation(&mut word_ram);
    let mut graphics = SegaCdGraphics::default();
    graphics.start(&mut gate);
    assert!(graphics.active);
    assert_eq!(gate.byte(0x58), 0x80);
    assert_eq!(gate.byte(0x65), 1);
    graphics.tick(1, &mut gate, &mut word_ram);
    assert_eq!(&word_ram[0x800..0x804], &[0x12, 0x34, 0x56, 0x78]);
    assert!(!graphics.active);
    assert_eq!(gate.byte(0x58), 0);
    assert_eq!(gate.byte(0x65), 0);
    assert_ne!(gate.pending & (1 << 1), 0);
    assert_eq!(graphics.trace_offset, 0x408);
    assert_eq!(graphics.buffer_start, 0x1000 + 8);
}

#[test]
fn graphics_waits_while_main_owns_word_ram() {
    let mut word_ram = vec![0u8; WORD_RAM_SIZE];
    let mut gate = stamp_operation(&mut word_ram);
    write_word(&mut word_ram, 0x404, 0x0000);
    write_dot(&mut word_ram, 0x100, 0x0d);
    gate.set_byte(0x03, 0x01);
    gate.regs[0x62 >> 1] = 1;
    let mut graphics = SegaCdGraphics::default();
    graphics.start(&mut gate);
    graphics.tick(100_000, &mut gate, &mut word_ram);
    assert!(graphics.active);
    assert_eq!(gate.byte(0x65), 1);
    assert_eq!(word_ram[0x800] >> 4, 0);

    gate.set_byte(0x03, 0x00);
    graphics.tick(1, &mut gate, &mut word_ram);
    assert!(!graphics.active);
    assert_eq!(word_ram[0x800] >> 4, 0x0d);
}

#[test]
fn graphics_idle_unit_leaves_word_ram_alone() {
    let mut word_ram = vec![0u8; WORD_RAM_SIZE];
    let mut gate = stamp_operation(&mut word_ram);
    let before = word_ram.clone();
    let mut graphics = SegaCdGraphics::default();
    graphics.tick(1_000, &mut gate, &mut word_ram);
    assert_eq!(word_ram, before);
    assert_eq!(graphics.line_credit, 0);
}

#[test]
fn gate_byte_writes_read_back_and_leave_neighbours() {
    let mut gate = SegaCdGate::default();
    gate.set_byte(0x58, 0x80);
    gate.set_byte(0x59, 0x06);
    assert_eq!(gate.byte(0x58), 0x80);
    assert_eq!(gate.byte(0x59), 0x06);
    assert_eq!(gate.regs[0x2c], 0x8006);
    assert_eq!(gate.byte(0x258), 0x80);
}

#[test]
fn pcm_channel_uses_wave_ram_loop_and_stereo_pan() {
    let mut pcm = SegaCdPcm::default();
    pcm.write(0x07, 0x00);
    for index in 0..32u16 {
        pcm.write(0x1000 + index, 0xc0 + (index as u8 & 0x1f));
    }
    pcm.write(0x07, 0xc0);
    pcm.write(0x00, 0xff);
    pcm.write(0x01, 0xff);
    pcm.write(0x02, 0x00);
    pcm.write(0x03, 0x08);
    pcm.write(0x04, 0x00);
    pcm.write(0x05, 0x00);
    pcm.write(0x06, 0x00);
    pcm.write(0x08, 0xfe);
    pcm.begin_frame();
    pcm.tick(384 * 64);
    assert!(pcm
        .samples
        .iter()
        .any(|&(left, right)| left > 0 && right > 0));
}

fn playing_channel_zero(sample: u8, pan: u8) -> SegaCdPcm {
    let mut pcm = SegaCdPcm::default();
    pcm.write(0x07, 0x00);
    pcm.write(0x1000, sample);
    pcm.write(0x07, 0xc0);
    pcm.write(0x00, 0xff);
    pcm.write(0x01, pan);
    pcm.write(0x03, 0x08);
    pcm.write(0x06, 0x00);
    pcm.write(0x08, 0xfe);
    pcm
}

#[test]
fn pcm_register_window_reads_back() {
    let mut pcm = SegaCdPcm::default();
    pcm.write(0x07, 0xc3);
    assert_eq!(pcm.read(0x07), 0xc3);
    pcm.write(0x00, 0x12);
    pcm.write(0x01, 0x34);
    pcm.write(0x02, 0x56);
    pcm.write(0x03, 0x78);
    pcm.write(0x04, 0x9a);
    pcm.write(0x05, 0xbc);
    pcm.write(0x06, 0xde);
    assert_eq!(pcm.read(0x00), 0x12);
    assert_eq!(pcm.read(0x01), 0x34);
    assert_eq!(pcm.read(0x02), 0x56);
    assert_eq!(pcm.read(0x03), 0x78);
    assert_eq!(pcm.read(0x04), 0x9a);
    assert_eq!(pcm.read(0x05), 0xbc);
    assert_eq!(pcm.read(0x06), 0xde);
    assert_eq!(pcm.channels[3].step, 0x7856);
    assert_eq!(pcm.channels[3].loop_start, 0xbc9a);
    assert_eq!(pcm.channels[3].address, 0xde << 19);
    pcm.write(0x08, 0xf0);
    assert_eq!(pcm.read(0x08), 0xf0);
    assert_eq!(pcm.status, 0x0f);
    pcm.write(0x07, 0x05);
    assert_eq!(pcm.read(0x07), 0x43);
    assert_eq!(pcm.bank, 5);
    pcm.write(0x1010, 0x77);
    assert_eq!(pcm.ram[0x5010], 0x77);
    assert_eq!(pcm.read(0x1010), 0x77);
    assert_eq!(pcm.read(0x3010), 0x77);
    assert_eq!(pcm.read(0x09), 0);
}

#[test]
fn pcm_single_clock_mixes_exact_sample() {
    let mut pcm = playing_channel_zero(0xc0, 0x1f);
    pcm.begin_frame();
    pcm.tick(383);
    assert!(pcm.samples.is_empty());
    pcm.tick(1);
    assert_eq!(pcm.samples, vec![(7650, 510)]);
    assert_eq!(pcm.channels[0].address, 0x0800);
    assert_eq!(pcm.clock_phase, 0);
    assert_eq!(pcm.output_phase, 384 * 48_000 - 12_500_000);
}

#[test]
fn pcm_negative_sample_and_silent_disabled_chip() {
    let mut pcm = playing_channel_zero(0x40, 0xff);
    pcm.tick(384);
    assert_eq!(pcm.current, (-7650, -7650));
    pcm.write(0x07, 0x40);
    pcm.tick(384);
    assert_eq!(pcm.current, (0, 0));
}

#[test]
fn pcm_end_marker_jumps_to_loop_start() {
    let mut pcm = playing_channel_zero(0xff, 0xff);
    pcm.write(0x07, 0x00);
    pcm.write(0x1020, 0x81);
    pcm.write(0x07, 0xc0);
    pcm.write(0x04, 0x20);
    pcm.tick(384);
    assert_eq!(pcm.channels[0].address, 0x20 << 11);
    assert_eq!(pcm.current, (119, 119));
}

fn two_track_drive() -> SegaCdDrive {
    SegaCdDrive::new(
        3,
        vec![
            CdTrack { number: 1, start_lba: 0, data: true },
            CdTrack { number: 2, start_lba: 2, data: false },
        ],
    )
}

fn status_sum(gate: &SegaCdGate) -> u8 {
    [0x38u16, 0x39, 0x3a, 0x3b, 0x3c, 0x3d, 0x3e, 0x3f, 0x40]
        .into_iter()
        .fold(0u8, |sum, offset| sum.wrapping_add(gate.byte(offset)))
}

#[test]
fn cdd_commands_use_digit_nibbles_and_report_multitrack_toc() {
    let mut gate = SegaCdGate::default();
    let mut drive = two_track_drive();

    gate.set_byte(0x42, 0x02);
    gate.set_byte(0x45, 0x04);
    process_cdd_command(&mut gate, &mut drive);
    assert_eq!(gate.byte(0x38), CDD_TOC);
    assert_eq!(gate.byte(0x39), 0x04);
    assert_eq!((gate.byte(0x3a), gate.byte(0x3b)), (0, 1));
    assert_eq!((gate.byte(0x3c), gate.byte(0x3d)), (0, 2));
    assert_eq!(gate.byte(0x41), (!status_sum(&gate)) & 0x0f);

    for (offset, digit) in [(0x44, 0), (0x45, 0), (0x46, 0), (0x47, 2), (0x48, 0), (0x49, 2)] {
        gate.set_byte(offset, digit);
    }
    gate.set_byte(0x42, 0x03);
    process_cdd_command(&mut gate, &mut drive);
    assert_eq!(drive.current_lba, 2);
    assert!(drive.reading);
    assert_eq!(drive.status, CDD_PLAY);
    assert_eq!(gate.byte(0x38), CDD_PLAY);
    assert_eq!(gate.byte(0x40), 0x00);

    gate.set_byte(0x42, 0x06);
    process_cdd_command(&mut gate, &mut drive);
    assert!(!drive.reading);
    assert_eq!(drive.current_lba, 2);
    assert_eq!(drive.status, CDD_PAUSE);

    gate.set_byte(0x42, 0x07);
    process_cdd_command(&mut gate, &mut drive);
    assert!(drive.reading);
    assert_eq!(drive.status, CDD_PLAY);

    gate.set_byte(0x42, 0x02);
    gate.set_byte(0x45, 0x05);
    gate.set_byte(0x46, 0x00);
    gate.set_byte(0x47, 0x02);
    process_cdd_command(&mut gate, &mut drive);
    assert_eq!(gate.byte(0x39), 0x05);
    assert_eq!((gate.byte(0x3a), gate.byte(0x3b)), (0, 0));
    assert_eq!((gate.byte(0x3c), gate.byte(0x3d)), (0, 2));
    assert_eq!((gate.byte(0x3e), gate.byte(0x3f)), (0, 2));
    assert_eq!(gate.byte(0x40), 2);
}

#[test]
fn cdd_position_reports_data_track_and_checksum_balances() {
    let mut gate = SegaCdGate::default();
    let mut drive = two_track_drive();

    gate.set_byte(0x42, 0x00);
    process_cdd_command(&mut gate, &mut drive);
    // Position 0 is 00:02:00 absolute, in the data track.
    assert_eq!((gate.byte(0x3a), gate.byte(0x3b)), (0, 0));
    assert_eq!((gate.byte(0x3c), gate.byte(0x3d)), (0, 2));
    assert_eq!((gate.byte(0x3e), gate.byte(0x3f)), (0, 0));
    assert_eq!(gate.byte(0x40), 0x04);
    assert_eq!(status_sum(&gate).wrapping_add(gate.byte(0x41)) & 0x0f, 0x0f);

    // A nibble that is not a digit leaves the drive where it was.
    for (offset, digit) in [(0x44, 0), (0x45, 0x0a), (0x46, 0), (0x47, 2), (0x48, 0), (0x49, 2)] {
        gate.set_byte(offset, digit);
    }
    gate.set_byte(0x42, 0x04);
    process_cdd_command(&mut gate, &mut drive);
    assert_eq!(drive.current_lba, 0);

    // A seek past the disc stops at its end.
    for (offset, digit) in [(0x44, 0), (0x45, 1), (0x46, 0), (0x47, 0), (0x48, 0), (0x49, 0)] {
        gate.set_byte(offset, digit);
    }
    process_cdd_command(&mut gate, &mut drive);
    assert_eq!(drive.current_lba, 3);
    assert_eq!(drive.status, CDD_END);

    for (offset, digit) in [(0x44, 0), (0x45, 0), (0x46, 0), (0x47, 2), (0x48, 0), (0x49, 1)] {
        gate.set_byte(offset, digit);
    }
    process_cdd_command(&mut gate, &mut drive);
    assert_eq!(drive.current_lba, 1);
    assert_eq!(drive.status, CDD_PAUSE);

    gate.set_byte(0x37, 0x04);
    gate.set_byte(0x42, 0x01);
    process_cdd_command(&mut gate, &mut drive);
    assert_eq!(drive.current_lba, 0);
    assert_eq!(gate.byte(0x38), CDD_STOP);
    assert_eq!(gate.byte(0x39), 0x0f);
    assert_eq!(gate.pending & 0x10, 0x10);

    gate.set_byte(0x42, 0x0d);
    process_cdd_command(&mut gate, &mut drive);
    assert_eq!(drive.status, CDD_OPEN);
    assert_eq!(gate.byte(0x38), CDD_OPEN);
}

#[test]
fn sega_cd_register_chip_state_round_trips() {
    let mut gate = SegaCdGate::default();
    gate.set_byte(0x38, 0x12);
    gate.set_byte(0x41, 0x0f);
    gate.pending = 0x30;
    gate.timer_remaining = 0x0102_0304_0506_0708;
    gate.sub_reset_pulse = true;
    let mut state = vec![0xee];
    gate.save(&mut state);
    assert_eq!(state.len(), 1 + 0x200 + 10);

    let mut restored = SegaCdGate::default();
    let mut pos = 1usize;
    restored.load(&state, &mut pos).unwrap();
    assert_eq!(pos, state.len());
    assert_eq!(restored.regs, gate.regs);
    assert_eq!(restored.byte(0x38), 0x12);
    assert_eq!(restored.pending, 0x30);
    assert_eq!(restored.timer_remaining, 0x0102_0304_0506_0708);
    assert!(restored.sub_reset_pulse);

    let mut fresh = SegaCdGate::default();
    let mut pos = 1usize;
    assert!(fresh.load(&state[..state.len() - 1], &mut pos).is_err());
    assert_eq!(pos, 1);
    assert_eq!(fresh.pending, 0);
}

#[test]
fn graphics_asic_state_round_trips_and_refuses_bad_geometry() {
    let asic = SegaCdGraphics {
        active: true,
        line_credit: -17,
        cycles_per_line: 3,
        dot_mask: 0x7fffff,
        stamp_shift: 16,
        map_shift: 8,
        map_base: 0x3_0000,
        trace_offset: 0x1_2344,
        buffer_start: 0x8000,
        buffer_offset: 12,
    };
    let mut state = Vec::new();
    asic.save(&mut state);
    assert_eq!(state.len(), 39);

    let mut restored = SegaCdGraphics::default();
    let mut pos = 0usize;
    restored.load(&state, &mut pos).unwrap();
    assert_eq!(pos, 39);
    assert!(restored.active);
    assert_eq!(restored.line_credit, -17);
    assert_eq!(restored.cycles_per_line, 3);
    assert_eq!(restored.dot_mask, 0x7fffff);
    assert_eq!((restored.stamp_shift, restored.map_shift), (16, 8));
    assert_eq!(restored.map_base, 0x3_0000);
    assert_eq!(restored.trace_offset, 0x1_2344);
    assert_eq!((restored.buffer_start, restored.buffer_offset), (0x8000, 12));

    let mut bad = state.clone();
    bad[21] = 14;
    let mut fresh = SegaCdGraphics::default();
    let mut pos = 0usize;
    assert_eq!(
        fresh.load(&bad, &mut pos),
        Err("Sega CD state has invalid graphics-ASIC geometry".to_string())
    );
    assert_eq!(pos, 0);
    assert!(!fresh.active);
}
