use omnicore::snes_cartridge::{SnesCartridge, SnesCoprocessor, SnesMap};

fn synthetic_dsp1(map: SnesMap, size: usize) -> Vec<u8> {
    let mut rom = vec![0xea; size];
    let header = match map {
        SnesMap::LoRom => 0x7fc0,
        SnesMap::HiRom => 0xffc0,
        SnesMap::ExHiRom => panic!("DSP-1 does not use ExHiROM in this test"),
    };
    rom[header + 0x15] = match map {
        SnesMap::LoRom => 0x20,
        SnesMap::HiRom => 0x21,
        SnesMap::ExHiRom => unreachable!(),
    };
    rom[header + 0x16] = 0x03;
    rom[header + 0x18] = 1;
    rom[header + 0x1c..header + 0x20].copy_from_slice(&[0xff, 0xff, 0x00, 0x00]);
    rom[header + 0x3c..header + 0x3e].copy_from_slice(&[0x00, 0x80]);
    rom
}

fn synthetic_dsp2() -> Vec<u8> {
    let mut rom = synthetic_dsp1(SnesMap::LoRom, 0x8000);
    rom[0x7fc0 + 0x16] = 0x05;
    rom
}

fn synthetic_dsp3() -> Vec<u8> {
    let mut rom = synthetic_dsp1(SnesMap::LoRom, 0x8000);
    let header = 0x7fc0;
    rom[header + 0x15] = 0x30;
    rom[header + 0x16] = 0x05;
    rom[header + 0x2a] = 0xb2;
    rom
}

fn synthetic_sa1() -> Vec<u8> {
    let mut rom = vec![0xea; 0x8000];
    let main_program = [
        0x78, 0xa9, 0x00, 0x8d, 0x03, 0x22, 0xa9, 0x90, 0x8d, 0x04, 0x22, 0xa9, 0x00, 0x8d,
        0x00, 0x22, 0x80, 0xfe,
    ];
    rom[..main_program.len()].copy_from_slice(&main_program);
    let sa1_program = [
        0xa9, 0x80, 0x8d, 0x27, 0x22, 0xa9, 0x5a, 0x8d, 0x00, 0x60, 0x80, 0xfe,
    ];
    rom[0x1000..0x1000 + sa1_program.len()].copy_from_slice(&sa1_program);
    let header = 0x7fc0;
    rom[header + 0x15] = 0x23;
    rom[header + 0x16] = 0x34;
    rom[header + 0x18] = 5;
    rom[header + 0x1c..header + 0x20].copy_from_slice(&[0xff, 0xff, 0x00, 0x00]);
    rom[0x7ffc..0x7ffe].copy_from_slice(&[0x00, 0x80]);
    rom
}

#[test]
fn dsp_header_detection_distinguishes_dsp1_dsp2_and_dsp3() {
    let mut dsp1 = synthetic_dsp1(SnesMap::LoRom, 0x8000);
    assert_eq!(
        SnesCartridge::parse(&dsp1).unwrap().coprocessor,
        SnesCoprocessor::Dsp1
    );

    dsp1[0x7fc0 + 0x15] = 0x30;
    assert_eq!(
        SnesCartridge::parse(&dsp1).unwrap().coprocessor,
        SnesCoprocessor::NoCoprocessor
    );

    let dsp2 = synthetic_dsp2();
    assert_eq!(
        SnesCartridge::parse(&dsp2).unwrap().coprocessor,
        SnesCoprocessor::Dsp2
    );

    let dsp3 = synthetic_dsp3();
    assert_eq!(
        SnesCartridge::parse(&dsp3).unwrap().coprocessor,
        SnesCoprocessor::Dsp3
    );
}

#[test]
fn sa1_arithmetic_and_normal_dma_use_hardware_register_paths() {
    let rom = synthetic_sa1();
    let mut cart = SnesCartridge::parse(&rom).unwrap();

    cart.sa1_write8(0x002250, 0x00);
    cart.sa1_write8(0x002251, 0xfd);
    cart.sa1_write8(0x002252, 0xff);
    cart.sa1_write8(0x002253, 0x07);
    cart.sa1_write8(0x002254, 0x00);
    let product = u32::from(cart.sa1_read8(0x002306))
        | (u32::from(cart.sa1_read8(0x002307)) << 8)
        | (u32::from(cart.sa1_read8(0x002308)) << 16)
        | (u32::from(cart.sa1_read8(0x002309)) << 24);
    assert_eq!(product, 0xffff_ffeb);

    cart.sa1_write8(0x002230, 0x84);
    cart.sa1_write8(0x002238, 4);
    cart.sa1_write8(0x002239, 0);
    cart.sa1_write8(0x002232, 0x00);
    cart.sa1_write8(0x002233, 0x80);
    cart.sa1_write8(0x002234, 0x00);
    cart.sa1_write8(0x002235, 0x00);
    cart.sa1_write8(0x002236, 0x00);
    cart.sa1_write8(0x002237, 0x00);
    assert_eq!(&cart.sram[..4], &rom[..4]);
    assert!(cart.sa1.as_ref().unwrap().dma_irq_flag);
    assert_eq!(cart.sa1.as_ref().unwrap().dtc, 0);
}

#[test]
fn hirom_maps_full_banks() {
    let mut rom = vec![0; 0x10000];
    rom[0xffd5] = 0x21;
    rom[0xfffc] = 0x00;
    rom[0xfffd] = 0x80;
    rom[0x8000] = 0x42;
    let mut cart = SnesCartridge::parse(&rom).unwrap();
    assert_eq!(cart.map, SnesMap::HiRom);
    assert_eq!(cart.read(0x008000), Some(0x42));
}

#[test]
fn exhirom_detects_header_past_four_megabytes_and_maps_both_halves() {
    let mut rom = vec![0; 0x600000];
    let header = 0x40ffc0;
    rom[header + 0x15] = 0x25;
    rom[header + 0x1c..header + 0x20].copy_from_slice(&[0xff, 0xff, 0x00, 0x00]);
    rom[header + 0x3c..header + 0x3e].copy_from_slice(&[0x00, 0x80]);

    rom[0x000000] = 0x11;
    rom[0x008000] = 0x22;
    rom[0x400000] = 0x33;
    rom[0x408000] = 0x44;

    let mut cart = SnesCartridge::parse(&rom).unwrap();
    assert_eq!(cart.map, SnesMap::ExHiRom);
    assert_eq!(cart.read(0xc00000), Some(0x11));
    assert_eq!(cart.read(0x808000), Some(0x22));
    assert_eq!(cart.read(0x400000), Some(0x33));
    assert_eq!(cart.read(0x008000), Some(0x44));
}

#[test]
fn non_power_of_two_roms_follow_address_line_mirroring() {
    let mut rom = vec![0; 0x300000];
    rom[0xffd5] = 0x21;
    rom[0xffdc..0xffe0].copy_from_slice(&[0xff, 0xff, 0x00, 0x00]);
    rom[0xfffc..0xfffe].copy_from_slice(&[0x00, 0x80]);
    rom[0x000000] = 0xa5;
    rom[0x200000] = 0x5a;

    let mut cart = SnesCartridge::parse(&rom).unwrap();
    assert_eq!(cart.map, SnesMap::HiRom);
    assert_eq!(cart.read(0xf00000), Some(0x5a));
    assert_ne!(cart.read(0xf00000), Some(rom[0]));
}

#[test]
fn obc1_object_window_updates_selected_object_and_packed_attributes() {
    let mut rom = vec![0; 0x8000];
    let header = 0x7fc0;
    rom[header + 0x15] = 0x30;
    rom[header + 0x16] = 0x25;
    rom[header + 0x1c..header + 0x20].copy_from_slice(&[0xff, 0xff, 0x00, 0x00]);
    rom[0x7ffc..0x7ffe].copy_from_slice(&[0x00, 0x80]);

    let mut cart = SnesCartridge::parse(&rom).unwrap();
    assert_eq!(cart.coprocessor, SnesCoprocessor::Obc1);
    assert_eq!(cart.persistent_len(), 0x2000);

    cart.write(0x007ff5, 1);
    cart.write(0x007ff6, 5);
    cart.write(0x007ff0, 0x12);
    cart.write(0x007ff1, 0x34);
    cart.write(0x007ff2, 0x56);
    cart.write(0x007ff3, 0x78);
    cart.write(0x007ff4, 3);

    let object = 0x1800 + (5 << 2);
    assert_eq!(&cart.sram[object..object + 4], &[0x12, 0x34, 0x56, 0x78]);
    let attribute = 0x1800 + (5 >> 2) + 0x200;
    assert_eq!(cart.sram[attribute] & 0x0c, 0x0c);
    assert_eq!(cart.read(0x007ff0), Some(0x12));
    assert_eq!(cart.read(0x007ff4), Some(cart.sram[attribute]));

    cart.write(0x706000, 0xa5);
    assert_eq!(cart.read(0xf06000), Some(0xa5));
}

#[test]
fn lorom_battery_ram_writes_read_back_and_mirror() {
    let mut rom = vec![0xea; 0x8000];
    let header = 0x7fc0;
    rom[header + 0x15] = 0x20;
    rom[header + 0x16] = 0x02;
    rom[header + 0x18] = 1;
    rom[header + 0x1c..header + 0x20].copy_from_slice(&[0xff, 0xff, 0x00, 0x00]);
    let mut cart = SnesCartridge::parse(&rom).unwrap();
    assert_eq!(cart.persistent_len(), 2048);
    assert!(cart.write(0x700010, 0x5a));
    assert_eq!(cart.read(0x700010), Some(0x5a));
    assert_eq!(cart.read(0x700810), Some(0x5a));
    assert_eq!(cart.persistent()[0x10], 0x5a);
    assert!(cart.set_persistent(&[0u8; 4]).is_err());
    assert!(cart.set_persistent(&vec![7u8; 2048]).is_ok());
    assert_eq!(cart.read(0x700010), Some(7));
}

#[test]
fn dsp3_ports_cover_documented_lorom_windows() {
    let cart = SnesCartridge::parse(&synthetic_dsp3()).unwrap();
    assert_eq!(cart.coprocessor, SnesCoprocessor::Dsp3);
    assert_eq!(cart.dsp3_port(0x20_8000), Some(0x8000));
    assert_eq!(cart.dsp3_port(0x3f_bfff), Some(0xbfff));
    assert_eq!(cart.dsp3_port(0xa0_c000), Some(0xc000));
    assert_eq!(cart.dsp3_port(0xbf_ffff), Some(0xffff));
    assert_eq!(cart.dsp3_port(0x20_7fff), None);
    assert_eq!(cart.dsp3_port(0x40_8000), None);
    assert!(!cart.dsp2_port(0x20_8000));
    assert_eq!(cart.dsp1_port(0x20_8000), None);
}

#[test]
fn dsp2_port_covers_documented_lorom_windows() {
    let cart = SnesCartridge::parse(&synthetic_dsp2()).unwrap();
    assert_eq!(cart.coprocessor, SnesCoprocessor::Dsp2);
    assert!(cart.dsp2_port(0x20_6000));
    assert!(cart.dsp2_port(0x3f_6fff));
    assert!(cart.dsp2_port(0xa0_8000));
    assert!(cart.dsp2_port(0xbf_bfff));
    assert!(!cart.dsp2_port(0x20_7000));
    assert!(!cart.dsp2_port(0x20_c000));
    assert_eq!(cart.dsp3_port(0x20_8000), None);
}

#[test]
fn dsp1_data_and_status_ports_cover_all_cartridge_layouts() {
    let small = SnesCartridge::parse(&synthetic_dsp1(SnesMap::LoRom, 0x8000)).unwrap();
    assert_eq!(small.coprocessor, SnesCoprocessor::Dsp1);
    assert_eq!(small.dsp1_port(0x20_8000), Some(false));
    assert_eq!(small.dsp1_port(0x20_c000), Some(true));
    assert_eq!(small.dsp1_port(0x60_0000), None);

    let large = SnesCartridge::parse(&synthetic_dsp1(SnesMap::LoRom, 0x18_0000)).unwrap();
    assert_eq!(large.dsp1_port(0x60_0000), Some(false));
    assert_eq!(large.dsp1_port(0x60_4000), Some(true));
    assert_eq!(large.dsp1_port(0x20_8000), None);

    let hirom = SnesCartridge::parse(&synthetic_dsp1(SnesMap::HiRom, 0x1_0000)).unwrap();
    assert_eq!(hirom.dsp1_port(0x00_6000), Some(false));
    assert_eq!(hirom.dsp1_port(0x00_7000), Some(true));
    assert_eq!(hirom.dsp1_port(0x00_8000), None);
}
