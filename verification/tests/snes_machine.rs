use omnicore::input::{InputState, FACE_SOUTH, R1, RIGHT, START};
use omnicore::snes_bus::SnesMachine;

fn synthetic_lorom() -> Vec<u8> {
    let mut rom = vec![0xea; 0x8000];
    let program = [
        0x78, 0xa9, 0x0f, 0x8d, 0x00, 0x21, 0xa9, 0x00, 0x8d, 0x21, 0x21, 0xa9, 0x1f, 0x8d,
        0x22, 0x21, 0xa9, 0x00, 0x8d, 0x22, 0x21, 0x80, 0xfe,
    ];
    rom[..program.len()].copy_from_slice(&program);
    let header = 0x7fc0;
    rom[header + 0x15] = 0x20;
    rom[header + 0x18] = 1;
    rom[header + 0x1c..header + 0x20].copy_from_slice(&[0xff, 0xff, 0x00, 0x00]);
    rom[0x7ffc..0x8000].copy_from_slice(&[0x00, 0x80, 0x00, 0x80]);
    rom
}

#[test]
fn controller_serializes_standard_snes_buttons() {
    let rom = synthetic_lorom();
    let mut machine = SnesMachine::from_rom(&rom).unwrap();
    let mut input = InputState::default();
    input.buttons[0] = FACE_SOUTH | START | RIGHT | R1;
    machine.bus.set_inputs(&input);
    machine.bus.set_strobe(true);
    machine.bus.set_strobe(false);
    let mut bits = 0u16;
    for bit in 0..12 {
        bits |= u16::from(machine.bus.read_joy(0)) << bit;
    }
    assert_eq!(
        bits & ((1 << 0) | (1 << 3) | (1 << 7) | (1 << 11)),
        (1 << 0) | (1 << 3) | (1 << 7) | (1 << 11)
    );
}

#[test]
fn controller_reads_ones_after_sixteen_bits() {
    let rom = synthetic_lorom();
    let mut machine = SnesMachine::from_rom(&rom).unwrap();
    let mut input = InputState::default();
    input.buttons[1] = FACE_SOUTH;
    machine.bus.set_inputs(&input);
    machine.bus.set_strobe(true);
    assert_eq!(machine.bus.read_joy(1), 1);
    assert_eq!(machine.bus.read_joy(1), 1);
    machine.bus.set_strobe(false);
    let mut bits = Vec::new();
    for _ in 0..20 {
        bits.push(machine.bus.read_joy(1));
    }
    assert_eq!(&bits[..4], &[1, 0, 0, 0]);
    assert!(bits[4..16].iter().all(|&b| b == 0));
    assert!(bits[16..].iter().all(|&b| b == 1));
}

#[test]
fn general_dma_plan_follows_pattern_direction_and_step() {
    let rom = synthetic_lorom();
    let mut machine = SnesMachine::from_rom(&rom).unwrap();
    machine.bus.dma[0][..7].copy_from_slice(&[0x01, 0x18, 0x00, 0x10, 0x7e, 0x04, 0x00]);
    let (moves, end) = machine.bus.dma_transfers(0);
    assert_eq!(
        moves,
        vec![(0x7e1000, 0x2118), (0x7e1001, 0x2119), (0x7e1002, 0x2118), (0x7e1003, 0x2119)]
    );
    assert_eq!(end, 0x1004);
    machine.bus.finish_dma(0, end);
    assert_eq!(&machine.bus.dma[0][2..7], &[0x04, 0x10, 0x7e, 0, 0]);

    machine.bus.dma[1][..7].copy_from_slice(&[0x90, 0x22, 0x00, 0x10, 0x00, 0x02, 0x00]);
    let (moves, end) = machine.bus.dma_transfers(1);
    assert_eq!(moves, vec![(0x2122, 0x001000), (0x2122, 0x000fff)]);
    assert_eq!(end, 0x0ffe);

    machine.bus.dma[2][..7].copy_from_slice(&[0x08, 0x00, 0x34, 0x12, 0x01, 0x00, 0x00]);
    let (moves, end) = machine.bus.dma_transfers(2);
    assert_eq!(moves.len(), 0x10000);
    assert!(moves.iter().all(|&(from, to)| from == 0x011234 && to == 0x2100));
    assert_eq!(end, 0x1234);
}

#[test]
fn hdma_frame_start_reloads_tables_and_counter_register() {
    let rom = synthetic_lorom();
    let mut machine = SnesMachine::from_rom(&rom).unwrap();
    machine.bus.dma[0][2] = 0x00;
    machine.bus.dma[0][3] = 0x10;
    machine.bus.dma[0][10] = 0x55;
    machine.bus.dma[1][2] = 0x34;
    machine.bus.dma[1][10] = 0x66;
    machine.bus.hdma_enable = 0x01;
    machine.bus.init_hdma();
    assert_eq!(machine.bus.hdma_active, 0x01);
    assert_eq!(&machine.bus.dma[0][8..11], &[0x00, 0x10, 0x00]);
    assert_eq!(machine.bus.dma[1][8], 0);
    assert_eq!(machine.bus.dma[1][10], 0x66);

    machine.bus.hdma_lines[0] = 5;
    machine.bus.hdma_repeat[0] = true;
    machine.bus.update_hdma_counter_register(0);
    assert_eq!(machine.bus.dma[0][10], 0x85);
    machine.bus.hdma_lines[0] = 128;
    machine.bus.update_hdma_counter_register(0);
    assert_eq!(machine.bus.dma[0][10], 0x80);
    machine.bus.hdma_lines[0] = 3;
    machine.bus.hdma_repeat[0] = false;
    machine.bus.update_hdma_counter_register(0);
    assert_eq!(machine.bus.dma[0][10], 3);
}
