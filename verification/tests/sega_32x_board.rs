use omnicore::mars_board::{MarsBoard, FRAMEBUFFER_SIZE, IRQ_H, IRQ_PWM, IRQ_V, MARS_HEIGHT, MARS_WIDTH};
use omnicore::mars_pwm::{MarsPwm, PwmLevel, PWM_FIFO_DEPTH};
use omnicore::video::VideoBuffer;

fn word(image: &mut [u8], offset: usize, value: u16) {
    image[offset..offset + 2].copy_from_slice(&value.to_be_bytes());
}

fn long(image: &mut [u8], offset: usize, value: u32) {
    image[offset..offset + 4].copy_from_slice(&value.to_be_bytes());
}

fn synthetic_rom() -> Vec<u8> {
    let mut rom = vec![0xff; 0x20000];
    long(&mut rom, 0, 0x00ff_ff00);
    long(&mut rom, 4, 0x0000_0400);
    rom[0x100..0x108].copy_from_slice(b"SEGA 32X");
    rom[0x3c0..0x3c9].copy_from_slice(b"OMNICORE ");
    long(&mut rom, 0x3d0, 1);
    long(&mut rom, 0x3d4, 0x0000_1000);
    long(&mut rom, 0x3d8, 0x0000_0000);
    long(&mut rom, 0x3dc, 0x0000_0400);
    long(&mut rom, 0x3e0, 0x0600_0000);
    long(&mut rom, 0x3e4, 0x0600_0020);
    long(&mut rom, 0x3e8, 0x0600_0200);
    long(&mut rom, 0x3ec, 0x0600_0240);

    let main_words = [
        0x33fc, 0x0003, 0x00a1, 0x5100, 0x33fc, 0x0000, 0x00a1, 0x5120, 0x33fc, 0x0000, 0x00a1,
        0x5122, 0x33fc, 0x0000, 0x00a1, 0x5124, 0x33fc, 0x0000, 0x00a1, 0x5126, 0x33fc, 0x001f,
        0x00a1, 0x5202, 0x33fc, 0x0081, 0x00a1, 0x5180, 0x33fc, 0x0001, 0x00a1, 0x518a, 0x33fc,
        0x0100, 0x0084, 0x0000, 0x13fc, 0x0001, 0x0084, 0x0200, 0x60fe,
    ];
    for (index, value) in main_words.into_iter().enumerate() {
        word(&mut rom, 0x400 + index * 2, value);
    }

    let master = [0xd103, 0xe05a, 0x2102, 0xaffe, 0x0009];
    for (index, value) in master.into_iter().enumerate() {
        word(&mut rom, 0x1000 + index * 2, value);
    }
    long(&mut rom, 0x1010, 0x0600_0100);
    let slave = [0xd103, 0xe066, 0x2102, 0xaffe, 0x0009];
    for (index, value) in slave.into_iter().enumerate() {
        word(&mut rom, 0x1020 + index * 2, value);
    }
    long(&mut rom, 0x1030, 0x0600_0104);
    rom
}

#[test]
fn mars_header_loads_application_into_sdram() {
    let rom = synthetic_rom();
    let board = MarsBoard::new(&rom).unwrap();
    assert_eq!(board.header.master_entry, 0x0600_0000);
    assert_eq!(board.header.slave_entry, 0x0600_0020);
    assert_eq!(&board.sdram[..10], &rom[0x1000..0x100a]);
    assert_eq!(board.comm[0], 0x4d5f);
    assert_eq!(board.comm[1], 0x4f4b);
}

#[test]
fn main_and_sh2_register_views_share_state_and_interrupts() {
    let rom = synthetic_rom();
    let mut board = MarsBoard::new(&rom).unwrap();
    board.main_system_write16(0, 0x0003);
    board.main_system_write16(0x20, 0x1234);
    assert_eq!(board.sh_system_read16(0, 0x20), 0x1234);
    board.sh_system_write16(0, 0, 0x0002);
    board.main_system_write16(2, 1);
    assert_eq!(board.external_interrupt(0), Some((8, 68)));
    board.sh_system_write16(0, 0x1a, 0);
    assert_eq!(board.external_interrupt(0), None);
    assert_eq!(board.interrupt_command & 1, 0);
}

#[test]
fn dreq_fifo_shares_registers_tracks_full_empty_and_terminates_length() {
    let rom = synthetic_rom();
    let mut board = MarsBoard::new(&rom).unwrap();
    board.main_system_write16(0x08, 0x1234);
    board.main_system_write16(0x0a, 0x5679);
    board.main_system_write16(0x0c, 0x2600);
    board.main_system_write16(0x0e, 0x0101);
    board.main_system_write16(0x10, 0x0007);
    assert_eq!(board.dreq_source, 0x1234_5678);
    assert_eq!(board.dreq_destination, 0x2600_0100);
    assert_eq!(board.dreq_length, 4);

    board.main_system_write16(0x06, 0x0005);
    assert_eq!(board.main_system_read16(0x06) & 0x0085, 0x0005);
    assert_eq!(board.sh_system_read16(0, 0x06) & 0xc005, 0x4005);
    assert_eq!(board.main_system_read16(0x10), 4);

    for value in [0x1111, 0x2222, 0x3333, 0x4444] {
        board.main_system_write16(0x12, value);
    }
    board.main_system_write16(0x12, 0x5555);
    assert_eq!(board.main_system_read16(0x06) & 0x0080, 0x0080);
    assert_eq!(board.sh_system_read16(0, 0x06) & 0xc000, 0x8000);
    assert_eq!(board.dreq_fifo.len(), 4);

    for (remaining, expected) in [(3, 0x1111), (2, 0x2222), (1, 0x3333)] {
        assert_eq!(board.sh_system_read16(0, 0x12), expected);
        assert_eq!(board.main_system_read16(0x10), remaining);
    }
    assert_eq!(board.sh_system_read16(0, 0x12), 0x4444);
    assert_eq!(board.main_system_read16(0x10), 0);
    assert_eq!(board.main_system_read16(0x06) & 0x0004, 0);
    assert_eq!(board.sh_system_read16(0, 0x06) & 0x4000, 0x4000);
    assert!(board.dreq_fifo.is_empty());
    assert_eq!(board.dreq_control & 1, 1);
}

#[test]
fn packed_framebuffer_overlays_genesis_and_honors_vblank_switch() {
    let rom = synthetic_rom();
    let mut board = MarsBoard::new(&rom).unwrap();
    let base = VideoBuffer::new(MARS_WIDTH, MARS_HEIGHT);
    board.palette[1] = 0x001f;
    board.bitmap_mode = 0x0081;
    board.framebuffers[1][0..2].copy_from_slice(&0x0100u16.to_be_bytes());
    board.framebuffers[1][0x200] = 1;
    board.requested_display_buffer = 1;
    board.on_vblank();
    board.render(&base);
    let pixel = &board.video.pixels()[..4];
    assert!(pixel[0] > pixel[1] && pixel[0] > pixel[2]);
    assert_eq!(board.display_buffer, 1);
}

#[test]
fn auto_fill_wraps_page_updates_last_address_and_reports_fen_busy() {
    let rom = synthetic_rom();
    let mut board = MarsBoard::new(&rom).unwrap();
    board.write_vdp16(0x04, 0x0010);
    board.write_vdp16(0x06, 0x20fe);
    board.write_vdp16(0x08, 0x1234);

    assert_eq!(board.fill_start, 0x200e);
    assert_ne!(board.read_vdp16(0x0a) & 0x0002, 0);
    assert_eq!(
        &board.framebuffers[1][0x41fc..0x4200],
        &[0x12, 0x34, 0x12, 0x34]
    );
    assert_eq!(&board.framebuffers[1][0x4000..0x4002], &[0x12, 0x34]);
    assert_eq!(&board.framebuffers[1][0x401c..0x401e], &[0x12, 0x34]);
    assert_eq!(&board.framebuffers[1][0x401e..0x4020], &[0x00, 0x00]);

    board.tick_main_cycles(100);
    assert_eq!(board.read_vdp16(0x0a) & 0x0002, 0);
}

#[test]
fn framebuffer_zero_write_semantics_match_byte_and_word_windows() {
    let rom = synthetic_rom();
    let mut board = MarsBoard::new(&rom).unwrap();

    board.framebuffer_write8(0x40, 0x7a, false);
    board.framebuffer_write8(0x40, 0x00, false);
    assert_eq!(board.framebuffer_read8(0x40), 0x7a);
    board.framebuffer_write8(0x40, 0x00, true);
    assert_eq!(board.framebuffer_read8(0x40), 0x7a);

    board.framebuffer_write16(0x40, 0x0000, false);
    assert_eq!(board.framebuffer_read8(0x40), 0x00);
    assert_eq!(board.framebuffer_read8(0x41), 0x00);

    board.framebuffer_write16(0x40, 0x1234, false);
    board.framebuffer_write16(0x40, 0x5600, true);
    assert_eq!(board.framebuffer_read8(0x40), 0x56);
    assert_eq!(board.framebuffer_read8(0x41), 0x34);
    board.framebuffer_write16(0x40, 0x0078, true);
    assert_eq!(board.framebuffer_read8(0x40), 0x56);
    assert_eq!(board.framebuffer_read8(0x41), 0x78);
    board.framebuffer_write16(0x40, 0x0000, true);
    assert_eq!(board.framebuffer_read8(0x40), 0x56);
    assert_eq!(board.framebuffer_read8(0x41), 0x78);
}

#[test]
fn pwm_cycle_encoding_fifo_depth_and_rtp_dreq_match_hardware() {
    let mut pwm = MarsPwm {
        cycle: 0,
        ..Default::default()
    };
    assert_eq!(pwm.period_cycles(), 4095);
    pwm.cycle = 1;
    assert_eq!(pwm.period_cycles(), 0);
    pwm.control = 0x0185;
    assert_eq!(pwm.tick(32), 0);
    pwm.cycle = 2;
    assert_eq!(pwm.period_cycles(), 1);
    for value in [0x0111, 0x0222, 0x0333, 0x0444] {
        pwm.write(0x04, value);
    }
    assert_eq!(pwm.left.len(), PWM_FIFO_DEPTH);
    assert_eq!(pwm.read(0x04) & 0x8000, 0x8000);

    let rom = synthetic_rom();
    let mut board = MarsBoard::new(&rom).unwrap();
    board.pwm.control = 0x0185;
    board.pwm.cycle = 2;
    board.tick_main_cycles(1);
    assert_ne!(board.pending[0] & IRQ_PWM, 0);
    assert_ne!(board.pending[1] & IRQ_PWM, 0);
    assert_ne!(board.pwm_dreq_pending[0], 0);
    assert_eq!(board.pwm_dreq_pending[0], board.pwm_dreq_pending[1]);

    let before = board.pwm_dreq_pending;
    board.pwm.control &= !0x0080;
    board.tick_main_cycles(1);
    assert_eq!(board.pwm_dreq_pending, before);
}

#[test]
fn pwm_fifo_generates_stereo_samples_and_timer_request() {
    let mut pwm = MarsPwm {
        control: 0x0505,
        cycle: 0x20,
        ..Default::default()
    };
    pwm.write(4, 0x18);
    pwm.write(6, 0x08);
    pwm.begin_frame();
    assert_ne!(pwm.tick(600), 0);
    assert!(!pwm.samples.is_empty());
    assert!(pwm.samples.iter().any(|(left, right)| left != right));
}

#[test]
fn pwm_levels_follow_mode_period_and_fifo_order() {
    let mut pwm = MarsPwm {
        control: 0x0009,
        cycle: 0x0b,
        ..Default::default()
    };
    pwm.write(0x08, 0x0005);
    pwm.write(0x04, 0x0f00);
    pwm.write(0x06, 0x0000);
    assert_eq!(pwm.left.len(), 2);
    assert_eq!(pwm.right.len(), 2);
    pwm.clock_once();
    assert_eq!(pwm.channels[0].last, 5);
    assert_eq!(pwm.channels[1].last, 5);
    assert_eq!(
        pwm.current_levels(),
        (Some(PwmLevel { width: 4, full: 9 }), Some(PwmLevel { width: 4, full: 9 }))
    );
    pwm.clock_once();
    assert_eq!(pwm.channels[0].last, 0x0f00);
    assert_eq!(pwm.channels[1].last, 0);
    assert_eq!(
        pwm.current_levels(),
        (Some(PwmLevel { width: 9, full: 9 }), Some(PwmLevel { width: 9, full: 9 }))
    );
    pwm.control = 0x0002;
    assert_eq!(pwm.current_levels().0, Some(PwmLevel { width: 9, full: 9 }));
    assert_eq!(pwm.current_levels().1, None);
    assert_eq!(pwm.read(0x08), 0x4000);
    assert!(pwm.can_accept(0x08));
    assert!(!pwm.can_accept(0x00));
}

#[test]
fn pwm_resamples_one_output_per_48khz_period() {
    let mut pwm = MarsPwm::default();
    pwm.begin_frame();
    pwm.tick(479);
    assert!(pwm.samples.is_empty());
    pwm.tick(1);
    assert_eq!(pwm.samples, vec![(None, None)]);
    assert_eq!(pwm.sample_phase, 480 * 48_000 - 23_011_360);
}

#[test]
fn line_interrupt_counts_h_count_lines() {
    let rom = synthetic_rom();
    let mut board = MarsBoard::new(&rom).unwrap();
    board.sh_system_write16(1, 0x04, 1);
    board.tick_main_cycles(975);
    assert_eq!(board.pending[0] & IRQ_H, 0);
    board.tick_main_cycles(1);
    assert_eq!(board.pending[0] & IRQ_H, IRQ_H);
    assert_eq!(board.pending[1] & IRQ_H, IRQ_H);
    assert_eq!(board.h_phase, 0);
    board.sh_system_write16(0, 0x00, 0x0004);
    assert_eq!(board.external_interrupt(0), Some((10, 69)));
    assert_eq!(board.external_interrupt(1), None);
    board.on_vblank();
    assert_eq!(board.pending[1] & IRQ_V, IRQ_V);
    board.sh_system_write16(0, 0x00, 0x000c);
    assert_eq!(board.external_interrupt(0), Some((12, 70)));
    board.sh_system_write16(0, 0x16, 0);
    assert_eq!(board.external_interrupt(0), Some((10, 69)));
    board.end_vblank();
    assert!(!board.vblank);
}

#[test]
fn boot_handshake_releases_peripheral_clocks() {
    let rom = synthetic_rom();
    let mut board = MarsBoard::new(&rom).unwrap();
    assert!(!board.sh_boot_ready());
    assert_eq!(board.tick_main_cycles(1000), 0);
    board.main_system_write16(0x00, 0x0003);
    for port in [0x20, 0x22, 0x24, 0x26] {
        board.main_system_write16(port, 0);
    }
    assert!(board.sh_boot_ready());
    assert_eq!(board.main_system_read16(0x00), 0x0083);
    assert_eq!(board.tick_main_cycles(10), 30);
    board.main_system_write16(0x00, 0x8000);
    assert!(board.fm());
    assert_eq!(board.main_system_read16(0x00), 0x8083);
    assert_eq!(board.sh_system_read16(1, 0x00), 0x8200);
}

#[test]
fn direct_and_run_length_modes_decode_lines() {
    let rom = synthetic_rom();
    let mut board = MarsBoard::new(&rom).unwrap();
    let base = VideoBuffer::new(MARS_WIDTH, MARS_HEIGHT);
    board.framebuffers[0][0..2].copy_from_slice(&0x0100u16.to_be_bytes());
    board.framebuffers[0][0x200..0x202].copy_from_slice(&0x03e0u16.to_be_bytes());
    board.bitmap_mode = 0x0082;
    board.render(&base);
    assert_eq!(&board.video.pixels()[..4], &[0, 255, 0, 255]);

    board.palette[7] = 0x7c00;
    board.framebuffers[0][0x200] = 1;
    board.framebuffers[0][0x201] = 7;
    board.bitmap_mode = 0x0083;
    board.render(&base);
    assert_eq!(&board.video.pixels()[..4], &[0, 0, 255, 255]);
    assert_eq!(&board.video.pixels()[4..8], &[0, 0, 255, 255]);
    assert_eq!(&board.video.pixels()[8..12], &[0, 0, 0, 255]);
}

#[test]
fn load_program_rejects_bad_ranges() {
    let rom = synthetic_rom();
    let mut board = MarsBoard::new(&rom).unwrap();
    assert_eq!(
        board.load_program(&rom, 0x1000..0x1200),
        Err("32X MARS source and destination lengths disagree".to_string())
    );
    board.header.destination = 0x3_ff00;
    assert_eq!(
        board.load_program(&rom, 0x1000..0x1400),
        Err("32X MARS destination is outside SDRAM".to_string())
    );
    assert_eq!(board.framebuffers[0].len(), FRAMEBUFFER_SIZE);
    let short = vec![0u8; 0x100];
    assert!(MarsBoard::new(&short).is_err());
}

#[test]
fn pwm_state_round_trips_and_refuses_an_overlong_fifo() {
    let mut pwm = MarsPwm::new();
    pwm.control = 0x0105;
    pwm.cycle = 0x0401;
    pwm.chip_phase = 17;
    pwm.timer_count = 9;
    pwm.sample_phase = 1234;
    pwm.channels[0].last = 0x0123;
    pwm.channels[1].last = 0x0456;
    pwm.left.push_back(0x0111);
    pwm.left.push_back(0x0222);
    pwm.right.push_back(0x0fff);
    let mut state = Vec::new();
    pwm.save(&mut state);
    assert_eq!(state.len(), 26 + 4 + 1 + 2);

    let mut restored = MarsPwm::new();
    let mut pos = 0usize;
    restored.load(&state, &mut pos).unwrap();
    assert_eq!(pos, state.len());
    assert_eq!(restored.control, 0x0105);
    assert_eq!(restored.cycle, 0x0401);
    assert_eq!(restored.chip_phase, 17);
    assert_eq!(restored.timer_count, 9);
    assert_eq!(restored.sample_phase, 1234);
    assert_eq!(restored.channels[0].last, 0x0123);
    assert_eq!(restored.channels[1].last, 0x0456);
    assert_eq!(restored.left.iter().copied().collect::<Vec<u16>>(), vec![0x0111, 0x0222]);
    assert_eq!(restored.right.iter().copied().collect::<Vec<u16>>(), vec![0x0fff]);

    let mut bad = state.clone();
    bad[25] = 4;
    let mut fresh = MarsPwm::new();
    let mut pos = 0usize;
    assert_eq!(
        fresh.load(&bad, &mut pos),
        Err("32X PWM state left FIFO length is invalid".to_string())
    );
    assert_eq!(pos, 0);
    assert_eq!(fresh.cycle, 0x100);
}
