use omnicore::bytes::{put_be16, put_be32};
use omnicore::input::{InputState, FACE_SOUTH, R1, START, UP};
use omnicore::saturn_cd::{SaturnCdBufferedSector, SaturnCdFilter};
use omnicore::saturn_scsp_dsp::{SaturnScspDsp, SOUND_RAM_SIZE};
use omnicore::saturn_scu::SaturnScu;
use omnicore::saturn_smpc::SaturnSmpc;

#[test]
fn smpc_intback_reports_active_low_controller_and_releases_slave() {
    let mut smpc = SaturnSmpc::default();
    let mut input = InputState::default();
    input.buttons[0] = UP | START | FACE_SOUTH | R1;
    smpc.set_input(&input);
    smpc.write8(0x1f, 0x10);
    let pad = u16::from_be_bytes([smpc.read8(0x23), smpc.read8(0x25)]);
    assert_eq!(pad & (1 << 0), 0);
    assert_eq!(pad & (1 << 4), 0);
    assert_eq!(pad & (1 << 5), 0);
    assert_eq!(pad & (1 << 10), 0);
    assert!(smpc.interrupt_pending);
    smpc.write8(0x1f, 0x02);
    assert!(smpc.slave_on);
}

#[test]
fn scu_interrupt_levels_vectors_and_version_match_source_map() {
    let mut scu = SaturnScu {
        irq_mask: 0,
        ..Default::default()
    };
    for (bit, level) in [(0u8, 15u8), (3, 12), (4, 11), (6, 9), (11, 5), (13, 2)] {
        scu.irq_status = 1u32 << bit;
        assert_eq!(scu.interrupt(), Some((level, 0x40 + bit)));
    }
    assert_eq!(
        [
            scu.read8(0xc8),
            scu.read8(0xc9),
            scu.read8(0xca),
            scu.read8(0xcb),
        ],
        4u32.to_be_bytes()
    );
}

#[test]
fn scu_hblank_timers_follow_compare_delay_and_mode() {
    let mut scu = SaturnScu::default();
    put_be32(&mut scu.regs, 0x90, 2);
    put_be32(&mut scu.regs, 0x94, 3);
    put_be16(&mut scu.regs, 0x9a, 0x0001);

    scu.vblank_out();
    assert_eq!(scu.timer0_counter, 0);
    assert_ne!(scu.irq_status & (1 << 1), 0);

    scu.irq_status = 0;
    scu.hblank_in();
    assert_eq!(scu.timer0_counter, 1);
    assert_eq!(scu.irq_status & (1 << 3), 0);
    assert!(scu.timer1_armed);
    assert_eq!(scu.timer1_countdown, 12);

    scu.tick_timing(11);
    assert_eq!(scu.irq_status & (1 << 4), 0);
    scu.tick_timing(1);
    assert_ne!(scu.irq_status & (1 << 4), 0);

    scu.irq_status = 0;
    scu.hblank_in();
    assert_eq!(scu.timer0_counter, 2);
    scu.hblank_in();
    assert_ne!(scu.irq_status & (1 << 3), 0);

    let mut gated = SaturnScu::default();
    put_be32(&mut gated.regs, 0x90, 1);
    put_be32(&mut gated.regs, 0x94, 2);
    put_be16(&mut gated.regs, 0x9a, 0x0101);
    gated.hblank_in();
    assert!(!gated.timer1_armed);
    gated.hblank_in();
    assert!(gated.timer1_armed);
    assert_eq!(gated.timer1_countdown, 8);

    put_be16(&mut gated.regs, 0x9a, 0x0000);
    gated.write8(0x9b, 0);
    assert_eq!(gated.timer0_counter, 0);
    assert!(!gated.timer1_armed);
}

#[test]
fn scu_dma_start_factors_require_enable_and_matching_event() {
    let mut scu = SaturnScu::default();

    put_be32(&mut scu.regs, 0x10, 0x0000_0100);
    put_be32(&mut scu.regs, 0x14, 0);
    scu.vblank_in();
    assert!(scu.dma_pending[0]);
    assert_eq!(scu.dma_status(), 0x20);
    assert_eq!(
        [
            scu.read8(0x5c),
            scu.read8(0x5d),
            scu.read8(0x5e),
            scu.read8(0x5f),
        ],
        0x20u32.to_be_bytes()
    );
    assert_eq!(
        [
            scu.read8(0x7c),
            scu.read8(0x7d),
            scu.read8(0x7e),
            scu.read8(0x7f),
        ],
        0x20u32.to_be_bytes()
    );
    scu.dma_pending[0] = false;

    put_be32(&mut scu.regs, 0x14, 2);
    scu.vblank_in();
    assert!(!scu.dma_pending[0]);
    scu.hblank_in();
    assert!(scu.dma_pending[0]);
    scu.dma_pending[0] = false;

    put_be32(&mut scu.regs, 0x14, 3);
    put_be32(&mut scu.regs, 0x90, u32::from(scu.timer0_counter));
    put_be16(&mut scu.regs, 0x9a, 1);
    scu.hblank_in();
    assert!(scu.dma_pending[0]);
    scu.dma_pending[0] = false;

    put_be32(&mut scu.regs, 0x14, 6);
    scu.dma_event(6);
    assert!(scu.dma_pending[0]);
    scu.dma_pending[0] = false;

    put_be32(&mut scu.regs, 0x14, 7);
    put_be32(&mut scu.regs, 0x10, 0);
    scu.write8(0x13, 1);
    assert!(!scu.dma_pending[0]);
    scu.write8(0x12, 1);
    assert!(!scu.dma_pending[0]);
    scu.write8(0x13, 1);
    assert!(scu.dma_pending[0]);
}

#[test]
fn cd_filter_subheader_conditions_and_reverse_match() {
    let mut raw = Box::new([0u8; 2352]);
    raw[15] = 2;
    raw[16] = 3;
    raw[17] = 7;
    raw[18] = 0x24;
    raw[19] = 0x11;
    let sector = SaturnCdBufferedSector { fad: 321, raw };
    let mut filter = SaturnCdFilter::new(0);
    filter.mode = 0x0f;
    filter.file = 3;
    filter.channel = 7;
    filter.submode_mask = 0x3f;
    filter.submode = 0x24;
    filter.coding_info_mask = 0x1f;
    filter.coding_info = 0x11;
    assert!(filter.matches(&sector));

    filter.channel = 8;
    assert!(!filter.matches(&sector));
    filter.mode |= 0x10;
    assert!(filter.matches(&sector));

    filter.mode = 0x40;
    filter.fad = 320;
    filter.range = 2;
    assert!(filter.matches(&sector));
    filter.range = 1;
    assert!(!filter.matches(&sector));
}

#[test]
fn scsp_dsp_microprogram_executes_effect_write() {
    let mut dsp = SaturnScspDsp::default();
    let mut ram = vec![0u8; SOUND_RAM_SIZE];
    dsp.coef[0] = 0x4000;
    dsp.mixs[0] = 0x1000;
    dsp.mpro[1] = 0xa800;
    dsp.mpro[6] = 0x1000;
    dsp.start();

    dsp.step(&mut ram);

    assert_eq!(dsp.last_step, 2);
    assert_eq!(dsp.efreg[0], 0x0080);
    assert_eq!(dsp.mixs[0], 0);
    assert_eq!(dsp.dec, u32::MAX);
}

#[test]
fn scsp_dsp_reads_delay_ram_on_odd_microsteps() {
    let mut dsp = SaturnScspDsp::default();
    let mut ram = vec![0u8; SOUND_RAM_SIZE];
    ram[2] = 0x12;
    ram[3] = 0x34;
    dsp.madrs[0] = 1;
    dsp.mpro[6] = 0x2000;
    dsp.mpro[7] = 0x8000;
    dsp.mpro[9] = 0x0020;
    dsp.start();

    dsp.step(&mut ram);

    assert_eq!(dsp.mems[0], 0x123400);
}

#[test]
fn scsp_dsp_register_window_and_ring_configuration() {
    let mut dsp = SaturnScspDsp::default();
    dsp.configure_ring(0x0115);
    assert_eq!(dsp.rbl, 32 * 1024);
    assert_eq!(dsp.rbp, 0x15);
    dsp.configure_ring(0x0180);
    assert_eq!(dsp.rbl, 64 * 1024);
    dsp.write_word(0x700, 0xc321);
    dsp.write_word(0x780, 0x4321);
    dsp.write_word(0x7c0, 0x2345);
    dsp.write_word(0x800, 0xabcd);
    assert!(dsp.stopped);
    dsp.write_word(0xbf0, 0x0000);
    assert!(!dsp.stopped);
    assert_eq!(dsp.last_step, 1);
    assert_eq!(dsp.read_word(0x700), 0xc321);
    assert_eq!(dsp.read_word(0x780), 0x2345);
    assert_eq!(dsp.read_word(0x800), 0xabcd);
    assert_eq!(dsp.read_word(0xf00), 0);
    dsp.add_sample(0x12345678, 3);
    assert_eq!(dsp.read_word(0xe8c), 0x1234);
    assert_eq!(dsp.read_word(0xe8e), 0x5678);
    dsp.add_sample(1, 16);
    assert_eq!(dsp.mixs[3], 0x12345678);
}

#[test]
fn scsp_dsp_sample_formats_round_trip() {
    assert_eq!(SaturnScspDsp::sign_extend(0x0080_0000, 24), -0x0080_0000);
    assert_eq!(SaturnScspDsp::sign_extend(0x007f_ffff, 24), 0x007f_ffff);
    assert_eq!(SaturnScspDsp::sign_extend(0x1fff, 13), -1);
    for value in [0i32, 1, -1, 0x1234, -0x1234, 0x7f_f800, -0x80_0000, 0x40_0000, 0x800] {
        let packed = SaturnScspDsp::pack(value);
        let unpacked = SaturnScspDsp::unpack(packed);
        assert_eq!(unpacked, value, "value {value:#x} packed {packed:#x}");
    }
    assert_eq!(SaturnScspDsp::pack(0), 0x6000);
    assert_eq!(SaturnScspDsp::unpack(0x0000), 0x40_0000);
    assert_eq!(SaturnScspDsp::pack(0x1234), 0x511a);
    assert_eq!(SaturnScspDsp::pack(-0x80_0000), 0x8000);
}

#[test]
fn scsp_dsp_sound_ram_words_wrap_at_the_end() {
    let mut ram = vec![0u8; 4];
    SaturnScspDsp::write_ram_word(&mut ram, 3, 0xbeef);
    assert_eq!(ram, vec![0xef, 0, 0, 0xbe]);
    assert_eq!(SaturnScspDsp::read_ram_word(&ram, 7), 0xbeef);
    let mut empty: Vec<u8> = Vec::new();
    SaturnScspDsp::write_ram_word(&mut empty, 0, 1);
    assert_eq!(SaturnScspDsp::read_ram_word(&empty, 0), 0);
}

#[test]
fn scsp_stopped_dsp_step_changes_nothing() {
    let mut dsp = SaturnScspDsp::default();
    let mut ram = vec![7u8; 16];
    dsp.mixs[0] = 5;
    dsp.step(&mut ram);
    assert_eq!(dsp.mixs[0], 5);
    assert_eq!(dsp.dec, 0);
    assert_eq!(ram, vec![7u8; 16]);
}

#[test]
fn scu_plain_registers_read_back_and_version_is_fixed() {
    let mut scu = SaturnScu::default();
    scu.write8(0x00, 0x12);
    scu.write8(0x90, 0x34);
    assert_eq!(scu.read8(0x00), 0x12);
    assert_eq!(scu.read8(0x90), 0x34);
    scu.write8(0xcb, 0x99);
    assert_eq!(scu.read8(0xcb), 4);
}

#[test]
fn be16_and_be32_writes_read_back() {
    let mut bytes = [0u8; 8];
    put_be16(&mut bytes, 1, 0xbeef);
    assert_eq!(bytes[1..3], [0xbe, 0xef]);
    assert_eq!(omnicore::bytes::be16(&bytes, 1), 0xbeef);
    put_be32(&mut bytes, 4, 0x0123_4567);
    assert_eq!(omnicore::bytes::be32(&bytes, 4), 0x0123_4567);
    assert_eq!(bytes[4..8], [0x01, 0x23, 0x45, 0x67]);
}

#[test]
fn smpc_state_round_trips_and_refuses_a_wrong_register_run() {
    let mut smpc = SaturnSmpc::default();
    smpc.write8(0x1f, 0x02);
    smpc.regs[0x21] = 0x5a;
    smpc.pad = [0x1234, 0xfffe];
    smpc.interrupt_pending = true;
    let mut state = vec![7u8];
    smpc.save(&mut state);
    assert_eq!(state.len(), 1 + 4 + 0x80 + 3 + 4);

    let mut restored = SaturnSmpc::default();
    let mut pos = 1usize;
    restored.load(&state, &mut pos).unwrap();
    assert_eq!(pos, state.len());
    assert_eq!(restored.regs, smpc.regs);
    assert_eq!(restored.slave_on, smpc.slave_on);
    assert_eq!(restored.sound_on, smpc.sound_on);
    assert!(restored.interrupt_pending);
    assert_eq!(restored.pad, [0x1234, 0xfffe]);

    let mut wrong = state.clone();
    wrong[1] = 0x7f;
    let mut fresh = SaturnSmpc::default();
    let mut pos = 1usize;
    assert_eq!(fresh.load(&wrong, &mut pos), Err("Saturn SMPC state size mismatch".to_string()));
    assert_eq!(pos, 1);
    assert_eq!(fresh.pad, [0xffff, 0xffff]);
}

#[test]
fn scu_state_round_trips_and_reduces_phase_and_timer() {
    let mut scu = SaturnScu::new();
    scu.regs[0x10] = 0xab;
    scu.irq_status = 0x0000_8001;
    scu.irq_mask = 0x0000_bffe;
    scu.dma_pending = [true, false, true];
    scu.hblank_phase = 12_345;
    scu.timer0_counter = 0x1ff;
    scu.timer1_countdown = 77;
    scu.timer1_armed = true;
    let mut state = Vec::new();
    scu.save(&mut state);
    assert_eq!(state.len(), 4 + 0xd0 + 26);

    let mut restored = SaturnScu::new();
    let mut pos = 0usize;
    restored.load(&state, &mut pos).unwrap();
    assert_eq!(pos, state.len());
    assert_eq!(restored.regs, scu.regs);
    assert_eq!(restored.irq_status, 0x0000_8001);
    assert_eq!(restored.irq_mask, 0x0000_bffe);
    assert_eq!(restored.dma_pending, [true, false, true]);
    assert_eq!(restored.hblank_phase, 12_345);
    assert_eq!(restored.timer0_counter, 0x1ff);
    assert_eq!(restored.timer1_countdown, 77);
    assert!(restored.timer1_armed);

    // A stored timer 0 keeps only its nine bits.
    let at = 4 + 0xd0 + 19;
    state[at..at + 2].copy_from_slice(&0xfe05u16.to_le_bytes());
    let mut pos = 0usize;
    restored.load(&state, &mut pos).unwrap();
    assert_eq!(restored.timer0_counter, 0x005);
}

#[test]
fn scsp_dsp_state_round_trips_and_keeps_counters_in_range() {
    let mut dsp = SaturnScspDsp::default();
    dsp.coef[3] = -1234;
    dsp.madrs[31] = 0xbeef;
    dsp.mpro[511] = 0x1234;
    dsp.temp[127] = -5;
    dsp.mems[0] = 0x7fff_ffff;
    dsp.mixs[15] = i32::MIN;
    dsp.exts[1] = -2;
    dsp.efreg[0] = 0x4000;
    dsp.dec = 99;
    dsp.rbp = 63;
    dsp.rbl = 0x4000;
    dsp.stopped = true;
    dsp.last_step = 128;
    let mut state = vec![1, 2];
    dsp.save(&mut state);
    assert_eq!(state.len(), 2 + 1971);

    let mut restored = SaturnScspDsp::default();
    let mut pos = 2usize;
    restored.load(&state, &mut pos).unwrap();
    assert_eq!(pos, state.len());
    assert_eq!(restored.coef, dsp.coef);
    assert_eq!(restored.madrs, dsp.madrs);
    assert_eq!(restored.mpro, dsp.mpro);
    assert_eq!(restored.temp, dsp.temp);
    assert_eq!(restored.mems, dsp.mems);
    assert_eq!(restored.mixs, dsp.mixs);
    assert_eq!(restored.exts, dsp.exts);
    assert_eq!(restored.efreg, dsp.efreg);
    assert_eq!(restored.dec, 99);
    assert_eq!(restored.rbp, 63);
    assert_eq!(restored.rbl, 0x4000);
    assert!(restored.stopped);
    assert_eq!(restored.last_step, 128);

    // Out-of-range counters come back clamped or masked.
    let base = 2 + 1960;
    state[base..base + 4].copy_from_slice(&0x41u32.to_le_bytes());
    state[base + 4..base + 8].copy_from_slice(&0x10u32.to_le_bytes());
    state[base + 9..base + 11].copy_from_slice(&500u16.to_le_bytes());
    let mut pos = 2usize;
    restored.load(&state, &mut pos).unwrap();
    assert_eq!(restored.rbp, 1);
    assert_eq!(restored.rbl, 0x2000);
    assert_eq!(restored.last_step, 128);
}
