use omnicore::bytes::be16;
use omnicore::saturn_scsp::SaturnScsp;
use omnicore::saturn_scsp_dsp::SOUND_RAM_SIZE;

fn write_scsp_word(scsp: &mut SaturnScsp, offset: usize, value: u16) {
    let [high, low] = value.to_be_bytes();
    scsp.write8(offset + 1, low);
    scsp.write8(offset, high);
}

#[test]
fn scsp_ring_buffer_mmio_round_trips() {
    let mut scsp = SaturnScsp::default();
    write_scsp_word(&mut scsp, 0x600, 0x7abc);
    assert_eq!(scsp.ring_buffer[0] as u16, 0x7abc);
    let high = scsp.read8(0x600);
    let low = scsp.read8(0x601);
    assert_eq!(u16::from_be_bytes([high, low]), 0x7abc);

    write_scsp_word(&mut scsp, 0x680, 0x9234);
    assert_eq!(scsp.ring_buffer[0] as u16, 0x9234);
}

#[test]
fn scsp_dma_copies_sound_ram_to_registers_and_preserves_parameters() {
    let mut scsp = SaturnScsp::default();
    let mut ram = vec![0u8; SOUND_RAM_SIZE];
    ram[0x100] = 0x7a;
    ram[0x101] = 0xbc;
    write_scsp_word(&mut scsp, 0x412, 0x0100);
    write_scsp_word(&mut scsp, 0x414, 0x0600);
    write_scsp_word(&mut scsp, 0x416, 0x1002);
    assert!(scsp.dma_pending);

    scsp.execute_dma(&mut ram);

    assert_eq!(scsp.ring_buffer[0] as u16, 0x7abc);
    assert_eq!(be16(scsp.regs.as_slice(), 0x412), 0x0100);
    assert_eq!(be16(scsp.regs.as_slice(), 0x414), 0x0600);
    assert_eq!(be16(scsp.regs.as_slice(), 0x416), 0x0002);
    assert!(!scsp.dma_pending);
}

#[test]
fn scsp_dma_direction_and_gate_write_sound_ram() {
    let mut scsp = SaturnScsp::default();
    let mut ram = vec![0u8; SOUND_RAM_SIZE];
    write_scsp_word(&mut scsp, 0x600, 0x9234);
    write_scsp_word(&mut scsp, 0x412, 0x0200);
    write_scsp_word(&mut scsp, 0x414, 0x0600);
    write_scsp_word(&mut scsp, 0x416, 0x3002);
    scsp.execute_dma(&mut ram);
    assert_eq!(&ram[0x200..0x202], &[0x92, 0x34]);

    ram[0x202] = 0xff;
    ram[0x203] = 0xff;
    write_scsp_word(&mut scsp, 0x412, 0x0202);
    write_scsp_word(&mut scsp, 0x414, 0x0600);
    write_scsp_word(&mut scsp, 0x416, 0x7002);
    scsp.execute_dma(&mut ram);
    assert_eq!(&ram[0x202..0x204], &[0, 0]);
}

#[test]
fn scsp_dma_completion_routes_and_acknowledges_sci_interrupt() {
    let mut scsp = SaturnScsp::default();
    let mut ram = vec![0u8; SOUND_RAM_SIZE];
    write_scsp_word(&mut scsp, 0x41e, 0x0010);
    write_scsp_word(&mut scsp, 0x424, 0x0010);
    write_scsp_word(&mut scsp, 0x426, 0x0000);
    write_scsp_word(&mut scsp, 0x428, 0x0010);
    write_scsp_word(&mut scsp, 0x412, 0x0100);
    write_scsp_word(&mut scsp, 0x414, 0x0600);
    write_scsp_word(&mut scsp, 0x416, 0x7002);

    scsp.execute_dma(&mut ram);
    assert!(scsp.dma_irq_pending);
    assert_eq!(scsp.interrupt_source(), Some((4, 5, 29)));
    assert_eq!(scsp.interrupt(), Some((5, 29)));
    scsp.acknowledge_interrupt(4);
    assert!(!scsp.dma_irq_pending);
    assert_eq!(scsp.interrupt(), None);
}

#[test]
fn scsp_midi_input_fifo_updates_status_and_sci_irq() {
    let mut scsp = SaturnScsp::default();
    write_scsp_word(&mut scsp, 0x41e, 0x0008);
    write_scsp_word(&mut scsp, 0x424, 0x0008);
    write_scsp_word(&mut scsp, 0x426, 0x0008);
    write_scsp_word(&mut scsp, 0x428, 0x0000);

    scsp.push_midi_input(0x5a);

    assert_eq!(scsp.midi_status_word() & 0x0100, 0);
    assert_eq!(scsp.interrupt(), Some((3, 27)));
    assert_eq!(scsp.read8(0x404) & 0x01, 0);
    assert_eq!(scsp.read8(0x405), 0x5a);
    assert_eq!(scsp.midi_status_word() & 0x0100, 0x0100);
    assert_eq!(scsp.interrupt(), None);

    for value in 0..32 {
        scsp.push_midi_input(value);
    }
    scsp.push_midi_input(0xff);
    assert_eq!(scsp.midi_status_word() & 0x0600, 0x0600);
}

#[test]
fn scsp_midi_output_drains_one_byte_per_serial_byte_time() {
    let mut scsp = SaturnScsp::default();
    assert_eq!(scsp.midi_status_word() & 0x0800, 0x0800);
    scsp.write8(0x407, 0xa5);
    scsp.write8(0x407, 0x5a);
    assert_eq!(scsp.midi_out_count, 2);
    assert_eq!(scsp.midi_status_word() & 0x0800, 0);
    let byte_cycles = (28_636_360 / 3_125 + 1) as u32;
    scsp.tick_midi(byte_cycles);
    assert_eq!(scsp.midi_out_count, 1);
    assert_eq!(scsp.midi_out_read, 1);
    scsp.tick_midi(byte_cycles);
    assert_eq!(scsp.midi_out_count, 0);
    assert_eq!(scsp.midi_out_phase, 0);
    assert_eq!(scsp.midi_status_word() & 0x0800, 0x0800);
}

#[test]
fn scsp_timer_a_reaches_ff_and_raises_both_requests() {
    let mut scsp = SaturnScsp::default();
    write_scsp_word(&mut scsp, 0x418, 0x00fe);
    write_scsp_word(&mut scsp, 0x41e, 0x0040);
    write_scsp_word(&mut scsp, 0x424, 0x0040);
    write_scsp_word(&mut scsp, 0x426, 0x0000);
    write_scsp_word(&mut scsp, 0x428, 0x0040);
    write_scsp_word(&mut scsp, 0x42a, 0x0040);

    scsp.tick_timers();
    assert_eq!(be16(scsp.regs.as_slice(), 0x418) & 0x00ff, 0x00ff);
    assert_eq!(be16(scsp.regs.as_slice(), 0x420) & 0x0040, 0x0040);
    assert_eq!(be16(scsp.regs.as_slice(), 0x42c) & 0x0040, 0x0040);
    assert_eq!(scsp.interrupt(), Some((5, 29)));
    assert!(scsp.main_interrupt_pending());

    write_scsp_word(&mut scsp, 0x422, 0x0040);
    assert_eq!(be16(scsp.regs.as_slice(), 0x420) & 0x0040, 0x0040);

    write_scsp_word(&mut scsp, 0x418, 0x00fe);
    write_scsp_word(&mut scsp, 0x422, 0x0040);
    write_scsp_word(&mut scsp, 0x42e, 0x0040);
    assert_eq!(scsp.interrupt(), None);
    assert!(!scsp.main_interrupt_pending());
}

#[test]
fn scsp_timer_divider_counts_every_power_of_two_samples() {
    let mut scsp = SaturnScsp::default();
    write_scsp_word(&mut scsp, 0x41a, 0x0210);
    for _ in 0..3 {
        scsp.tick_timers();
    }
    assert_eq!(be16(scsp.regs.as_slice(), 0x41a), 0x0210);
    scsp.tick_timers();
    assert_eq!(be16(scsp.regs.as_slice(), 0x41a), 0x0211);
    assert_eq!(scsp.timer_phase[1], 0);
}

#[test]
fn scsp_key_on_execute_starts_and_releases_slots() {
    let mut scsp = SaturnScsp::default();
    scsp.phase[2] = 1234;
    write_scsp_word(&mut scsp, 2 * 0x20, 0x0800);
    let keys = scsp.write_word(0, 0x1000);
    assert!(keys[2]);
    assert!(!keys[0]);
    assert!(scsp.keyed[2]);
    assert_eq!(scsp.phase[2], 0);
    assert_eq!(scsp.envelope_state[2], 0);
    assert_eq!(be16(scsp.regs.as_slice(), 0), 0);
    let again = scsp.write_word(0, 0x1000);
    assert!(!again[2]);
    write_scsp_word(&mut scsp, 2 * 0x20, 0x0000);
    scsp.write_word(0, 0x1000);
    assert_eq!(scsp.envelope_state[2], 3);
    assert!(scsp.keyed[2]);
    scsp.stop_slot(2);
    assert!(!scsp.keyed[2]);
}

#[test]
fn scsp_loop_modes_move_the_cursor() {
    let mut scsp = SaturnScsp::default();
    scsp.phase[0] = 9 << 16;
    assert!(!scsp.advance_slot_phase(0, 2 << 16, 4, 10, 1));
    assert_eq!(scsp.phase[0], 5 << 16);

    scsp.keyed[1] = true;
    scsp.phase[1] = 9 << 16;
    assert!(scsp.advance_slot_phase(1, 2 << 16, 4, 10, 0));
    assert_eq!(scsp.phase[1], 10 << 16);
    assert!(!scsp.keyed[1]);

    scsp.phase[2] = 3 << 16;
    assert!(!scsp.advance_slot_phase(2, 2 << 16, 4, 10, 2));
    assert!(scsp.backwards[2]);
    assert_eq!(scsp.phase[2], 9 << 16);

    scsp.phase[3] = 9 << 16;
    assert!(!scsp.advance_slot_phase(3, 3 << 16, 4, 10, 3));
    assert!(scsp.backwards[3]);
    assert_eq!(scsp.phase[3], 8 << 16);
}

#[test]
fn scsp_lfo_waves_noise_and_pitch() {
    assert_eq!(SaturnScsp::pitch_lfo_wave(10, 0), 10);
    assert_eq!(SaturnScsp::pitch_lfo_wave(200, 0), -56);
    assert_eq!(SaturnScsp::pitch_lfo_wave(200, 1), -128);
    assert_eq!(SaturnScsp::pitch_lfo_wave(100, 2), 55);
    assert_eq!(SaturnScsp::amplitude_lfo_wave(10, 0), 245);
    assert_eq!(SaturnScsp::amplitude_lfo_wave(200, 2), 144);
    assert_eq!(
        SaturnScsp::amplitude_lfo_wave(7, 3),
        SaturnScsp::lfo_noise(7) as u16
    );

    let mut scsp = SaturnScsp::default();
    let first = scsp.next_noise_sample();
    let mut value: u32 = 0x5343_5350;
    value ^= value << 13;
    value ^= value >> 17;
    value ^= value << 5;
    assert_eq!(first, (value >> 16) as u16 as i16);
    assert_eq!(scsp.noise_state, value);

    write_scsp_word(&mut scsp, 0x10, 0x1001);
    assert_eq!(scsp.pitch_step_base(0), (0x1_0000 + 0x40) << 2);
    write_scsp_word(&mut scsp, 0x10, 0x7800);
    assert_eq!(scsp.pitch_step_base(0), 0x1_0000 >> 1);
    write_scsp_word(&mut scsp, 0x0a, 0x3c00);
    assert_eq!(scsp.envelope_rate_index(0, 5), 10);
    write_scsp_word(&mut scsp, 0x0a, 0x0800);
    assert_eq!(scsp.envelope_rate_index(0, 5), 13);
}

#[test]
fn scsp_ring_modulation_averages_two_ring_samples() {
    let mut scsp = SaturnScsp::default();
    assert_eq!(scsp.ring_modulation_offset(0, true), 0);
    scsp.ring_buffer[1] = 1000;
    scsp.ring_buffer[2] = 3000;
    write_scsp_word(&mut scsp, 0x0e, 0xf042);
    assert_eq!(scsp.ring_modulation_offset(0, true), (2000 << 10) >> 11);
    assert_eq!(scsp.ring_modulation_offset(0, false), ((2000 << 10) >> 11) * 2);
}
