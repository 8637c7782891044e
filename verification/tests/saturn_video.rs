use omnicore::bytes::{be16, put_be16, put_be32};
use omnicore::saturn_vdp1::{SaturnVdp1, Vdp1Texture};
use omnicore::saturn_vdp2::{SaturnVdp2, WIDTH};

/// Draws the command list into the drawn framebuffer and shows it. The
/// lists in these tests hold no polygon command.
fn end_frame(vdp1: &mut SaturnVdp1) {
    let mut walker = vdp1.begin_commands();
    while vdp1.run_commands(&mut walker).is_some() {}
    vdp1.finish_frame();
}

fn write16(bytes: &mut [u8], offset: usize, value: u16) {
    bytes[offset..offset + 2].copy_from_slice(&value.to_be_bytes());
}

fn write32(bytes: &mut [u8], offset: usize, value: u32) {
    bytes[offset..offset + 4].copy_from_slice(&value.to_be_bytes());
}

fn write_identity_rotation_parameter(vdp2: &mut SaturnVdp2, parameter: usize) {
    let base = 0x60000usize + parameter * 0x80;
    write16(vdp2.regs.as_mut_slice(), 0x00bc, 0x0003);
    write16(vdp2.regs.as_mut_slice(), 0x00be, 0x0000);
    write32(vdp2.vram.as_mut_slice(), base + 4 * 4, 0x0001_0000);
    write32(vdp2.vram.as_mut_slice(), base + 5 * 4, 0x0001_0000);
    write32(vdp2.vram.as_mut_slice(), base + 7 * 4, 0x0001_0000);
    write32(vdp2.vram.as_mut_slice(), base + 11 * 4, 0x0001_0000);
    write32(vdp2.vram.as_mut_slice(), base + 19 * 4, 0x0001_0000);
    write32(vdp2.vram.as_mut_slice(), base + 20 * 4, 0x0001_0000);
}

#[test]
fn vdp1_zero_ctrl_normal_sprite_reads_rgb_texture() {
    let mut vdp1 = SaturnVdp1::default();
    let source = 0x1000usize;
    write16(vdp1.vram.as_mut_slice(), 0x00, 0x0000);
    write16(vdp1.vram.as_mut_slice(), 0x04, 0x00a8);
    write16(vdp1.vram.as_mut_slice(), 0x08, (source / 8) as u16);
    write16(vdp1.vram.as_mut_slice(), 0x0a, 0x0101);
    write16(vdp1.vram.as_mut_slice(), 0x0c, 4);
    write16(vdp1.vram.as_mut_slice(), 0x0e, 5);
    write16(vdp1.vram.as_mut_slice(), 0x20, 0x8000);
    for pixel in 0..8 {
        write16(vdp1.vram.as_mut_slice(), source + pixel * 2, 0x801f);
    }

    end_frame(&mut vdp1);
    let offset = (5 * 512 + 4) * 2;
    assert_eq!(be16(vdp1.display_buffer(), offset), 0x801f);
}

#[test]
fn vdp1_local_and_user_clipping_limit_draw_commands() {
    let mut vdp1 = SaturnVdp1::default();

    write16(vdp1.vram.as_mut_slice(), 0x00, 0x000a);
    write16(vdp1.vram.as_mut_slice(), 0x0c, 10);
    write16(vdp1.vram.as_mut_slice(), 0x0e, 20);

    write16(vdp1.vram.as_mut_slice(), 0x20, 0x0008);
    write16(vdp1.vram.as_mut_slice(), 0x2c, 12);
    write16(vdp1.vram.as_mut_slice(), 0x2e, 22);
    write16(vdp1.vram.as_mut_slice(), 0x34, 13);
    write16(vdp1.vram.as_mut_slice(), 0x36, 23);

    write16(vdp1.vram.as_mut_slice(), 0x40, 0x0009);
    write16(vdp1.vram.as_mut_slice(), 0x54, 15);
    write16(vdp1.vram.as_mut_slice(), 0x56, 25);

    write16(vdp1.vram.as_mut_slice(), 0x60, 0x0006);
    write16(vdp1.vram.as_mut_slice(), 0x64, 0x0400);
    write16(vdp1.vram.as_mut_slice(), 0x66, 0x801f);
    write16(vdp1.vram.as_mut_slice(), 0x6c, 0);
    write16(vdp1.vram.as_mut_slice(), 0x6e, 0);
    write16(vdp1.vram.as_mut_slice(), 0x70, 10);
    write16(vdp1.vram.as_mut_slice(), 0x72, 10);
    write16(vdp1.vram.as_mut_slice(), 0x80, 0x8000);

    end_frame(&mut vdp1);
    assert_eq!(be16(vdp1.display_buffer(), (22 * 512 + 12) * 2), 0x801f);
    assert_eq!(be16(vdp1.display_buffer(), (23 * 512 + 13) * 2), 0x801f);
    assert_eq!(be16(vdp1.display_buffer(), (21 * 512 + 11) * 2), 0);
    assert_eq!(be16(vdp1.display_buffer(), (24 * 512 + 14) * 2), 0);
}

#[test]
fn vdp1_call_return_and_skip_traverse_command_lists() {
    let mut vdp1 = SaturnVdp1::default();

    write16(vdp1.vram.as_mut_slice(), 0x00, 0x200a);
    write16(vdp1.vram.as_mut_slice(), 0x02, 0x000c);
    write16(vdp1.vram.as_mut_slice(), 0x0c, 1);
    write16(vdp1.vram.as_mut_slice(), 0x0e, 1);

    write16(vdp1.vram.as_mut_slice(), 0x20, 0x0006);
    write16(vdp1.vram.as_mut_slice(), 0x26, 0x83e0);
    write16(vdp1.vram.as_mut_slice(), 0x2c, 1);
    write16(vdp1.vram.as_mut_slice(), 0x2e, 0);
    write16(vdp1.vram.as_mut_slice(), 0x30, 1);
    write16(vdp1.vram.as_mut_slice(), 0x32, 0);
    write16(vdp1.vram.as_mut_slice(), 0x40, 0x8000);

    write16(vdp1.vram.as_mut_slice(), 0x60, 0x0006);
    write16(vdp1.vram.as_mut_slice(), 0x66, 0x801f);
    write16(vdp1.vram.as_mut_slice(), 0x6c, 0);
    write16(vdp1.vram.as_mut_slice(), 0x6e, 0);
    write16(vdp1.vram.as_mut_slice(), 0x70, 0);
    write16(vdp1.vram.as_mut_slice(), 0x72, 0);
    write16(vdp1.vram.as_mut_slice(), 0x80, 0x7000);

    end_frame(&mut vdp1);
    assert_eq!(be16(vdp1.display_buffer(), 1026), 0x801f);
    assert_eq!(be16(vdp1.display_buffer(), 1028), 0x83e0);
}

#[test]
fn vdp2_rbg0_cell_mode_uses_parameter_specific_rotation_maps() {
    let vdp1 = SaturnVdp1::default();
    let mut vdp2 = SaturnVdp2::default();

    write16(vdp2.regs.as_mut_slice(), 0x0000, 0x8000);
    write16(vdp2.regs.as_mut_slice(), 0x0020, 0x0010);
    write16(vdp2.regs.as_mut_slice(), 0x002a, 0x0000);
    write16(vdp2.regs.as_mut_slice(), 0x0038, 0x8000);
    write16(vdp2.regs.as_mut_slice(), 0x003a, 0x0000);
    write16(vdp2.regs.as_mut_slice(), 0x003e, 0x0000);
    write16(vdp2.regs.as_mut_slice(), 0x0050, 0x0000);
    write16(vdp2.regs.as_mut_slice(), 0x0060, 0x0001);
    write16(vdp2.regs.as_mut_slice(), 0x00fc, 0x0001);
    write_identity_rotation_parameter(&mut vdp2, 0);

    write16(vdp2.vram.as_mut_slice(), 0x0000, 0x0001);
    vdp2.vram[0x0020] = 0x10;
    write16(vdp2.cram.as_mut_slice(), 0x0002, 0x001f);

    write16(vdp2.vram.as_mut_slice(), 0x2000, 0x0002);
    vdp2.vram[0x0040] = 0x20;
    write16(vdp2.cram.as_mut_slice(), 0x0004, 0x03e0);

    write16(vdp2.regs.as_mut_slice(), 0x00b0, 0x0000);
    vdp2.render(&vdp1);
    assert_eq!(&vdp2.video.pixels()[0..4], &[255, 0, 0, 255]);

    write16(vdp2.regs.as_mut_slice(), 0x00b0, 0x0001);
    vdp2.render(&vdp1);
    assert_eq!(&vdp2.video.pixels()[0..4], &[0, 255, 0, 255]);
}

#[test]
fn vdp2_rectangular_windows_gate_scroll_layers_with_area_and_logic() {
    let vdp1 = SaturnVdp1::default();
    let mut vdp2 = SaturnVdp2::default();

    write16(vdp2.regs.as_mut_slice(), 0x0000, 0x8000);
    write16(vdp2.regs.as_mut_slice(), 0x0020, 0x0001);
    write16(vdp2.regs.as_mut_slice(), 0x0028, 0x0012);
    write16(vdp2.regs.as_mut_slice(), 0x00f8, 0x0001);
    write16(vdp2.regs.as_mut_slice(), 0x00ac, 0x0001);
    write16(vdp2.regs.as_mut_slice(), 0x00ae, 0x8000);
    write16(vdp2.vram.as_mut_slice(), 0x30000, 0x7c00);
    vdp2.vram[0] = 1;
    vdp2.vram[1] = 1;
    vdp2.vram[2] = 1;
    write16(vdp2.cram.as_mut_slice(), 2, 0x001f);

    write16(vdp2.regs.as_mut_slice(), 0x00c0, 1);
    write16(vdp2.regs.as_mut_slice(), 0x00c2, 0);
    write16(vdp2.regs.as_mut_slice(), 0x00c4, 1);
    write16(vdp2.regs.as_mut_slice(), 0x00c6, 0);
    write16(vdp2.regs.as_mut_slice(), 0x00d0, 0x0002);
    vdp2.render(&vdp1);
    assert_eq!(&vdp2.video.pixels()[0..4], &[0, 0, 255, 255]);
    assert_eq!(&vdp2.video.pixels()[4..8], &[255, 0, 0, 255]);

    write16(vdp2.regs.as_mut_slice(), 0x00d0, 0x0003);
    vdp2.render(&vdp1);
    assert_eq!(&vdp2.video.pixels()[0..4], &[255, 0, 0, 255]);
    assert_eq!(&vdp2.video.pixels()[4..8], &[0, 0, 255, 255]);

    write16(vdp2.regs.as_mut_slice(), 0x00c0, 0);
    write16(vdp2.regs.as_mut_slice(), 0x00c4, 0);
    write16(vdp2.regs.as_mut_slice(), 0x00c8, 1);
    write16(vdp2.regs.as_mut_slice(), 0x00ca, 0);
    write16(vdp2.regs.as_mut_slice(), 0x00cc, 1);
    write16(vdp2.regs.as_mut_slice(), 0x00ce, 0);
    write16(vdp2.regs.as_mut_slice(), 0x00d0, 0x000a);
    vdp2.render(&vdp1);
    assert_eq!(&vdp2.video.pixels()[0..4], &[255, 0, 0, 255]);
    assert_eq!(&vdp2.video.pixels()[4..8], &[255, 0, 0, 255]);

    write16(vdp2.regs.as_mut_slice(), 0x00d0, 0x008a);
    vdp2.render(&vdp1);
    assert_eq!(&vdp2.video.pixels()[0..4], &[0, 0, 255, 255]);
    assert_eq!(&vdp2.video.pixels()[4..8], &[0, 0, 255, 255]);
}

#[test]
fn vdp2_line_window_reads_per_scanline_horizontal_ranges() {
    let vdp1 = SaturnVdp1::default();
    let mut vdp2 = SaturnVdp2::default();

    write16(vdp2.regs.as_mut_slice(), 0x0000, 0x8000);
    write16(vdp2.regs.as_mut_slice(), 0x0020, 0x0001);
    write16(vdp2.regs.as_mut_slice(), 0x0028, 0x0012);
    write16(vdp2.regs.as_mut_slice(), 0x00f8, 0x0001);
    write16(vdp2.regs.as_mut_slice(), 0x00ac, 0x0001);
    write16(vdp2.regs.as_mut_slice(), 0x00ae, 0x8000);
    write16(vdp2.vram.as_mut_slice(), 0x30000, 0x7c00);
    for offset in [0usize, 1, 512, 513] {
        vdp2.vram[offset] = 1;
    }
    write16(vdp2.cram.as_mut_slice(), 2, 0x001f);

    write16(vdp2.regs.as_mut_slice(), 0x00c0, 0);
    write16(vdp2.regs.as_mut_slice(), 0x00c2, 0);
    write16(vdp2.regs.as_mut_slice(), 0x00c4, 1);
    write16(vdp2.regs.as_mut_slice(), 0x00c6, 1);
    write16(vdp2.regs.as_mut_slice(), 0x00d0, 0x0002);
    write16(vdp2.regs.as_mut_slice(), 0x00d8, 0x8000);
    write16(vdp2.regs.as_mut_slice(), 0x00da, 0x2000);
    write16(vdp2.vram.as_mut_slice(), 0x4000, 0);
    write16(vdp2.vram.as_mut_slice(), 0x4002, 0);
    write16(vdp2.vram.as_mut_slice(), 0x4004, 1);
    write16(vdp2.vram.as_mut_slice(), 0x4006, 1);

    vdp2.render(&vdp1);
    assert_eq!(&vdp2.video.pixels()[0..4], &[255, 0, 0, 255]);
    assert_eq!(&vdp2.video.pixels()[4..8], &[0, 0, 255, 255]);
    let line1 = WIDTH * 4;
    assert_eq!(&vdp2.video.pixels()[line1..line1 + 4], &[0, 0, 255, 255]);
    assert_eq!(
        &vdp2.video.pixels()[line1 + 4..line1 + 8],
        &[255, 0, 0, 255]
    );
}

#[test]
fn vdp2_rectangular_window_gates_sprite_layer() {
    let mut vdp1 = SaturnVdp1::default();
    let mut vdp2 = SaturnVdp2::default();

    put_be16(vdp1.framebuffers[vdp1.display].as_mut_slice(), 0, 0x801f);
    put_be16(vdp1.framebuffers[vdp1.display].as_mut_slice(), 2, 0x801f);
    write16(vdp2.regs.as_mut_slice(), 0x0000, 0x8000);
    write16(vdp2.regs.as_mut_slice(), 0x00e0, 0x0020);
    write16(vdp2.regs.as_mut_slice(), 0x00f0, 0x0001);
    write16(vdp2.regs.as_mut_slice(), 0x00ac, 0x0001);
    write16(vdp2.regs.as_mut_slice(), 0x00ae, 0x8000);
    write16(vdp2.vram.as_mut_slice(), 0x30000, 0x7c00);
    write16(vdp2.regs.as_mut_slice(), 0x00c0, 1);
    write16(vdp2.regs.as_mut_slice(), 0x00c2, 0);
    write16(vdp2.regs.as_mut_slice(), 0x00c4, 1);
    write16(vdp2.regs.as_mut_slice(), 0x00c6, 0);
    write16(vdp2.regs.as_mut_slice(), 0x00d4, 0x0200);

    vdp2.render(&vdp1);
    assert_eq!(&vdp2.video.pixels()[0..4], &[0, 0, 255, 255]);
    assert_eq!(&vdp2.video.pixels()[4..8], &[255, 0, 0, 255]);
}

#[test]
fn vdp2_nbg0_line_scroll_applies_horizontal_then_vertical_entries() {
    let vdp1 = SaturnVdp1::default();
    let mut vdp2 = SaturnVdp2::default();
    let table = 0x4000usize;

    write16(vdp2.regs.as_mut_slice(), 0x0000, 0x8000);
    write16(vdp2.regs.as_mut_slice(), 0x0020, 0x0001);
    write16(vdp2.regs.as_mut_slice(), 0x0028, 0x0012);
    write16(vdp2.regs.as_mut_slice(), 0x00f8, 0x0001);
    write16(vdp2.regs.as_mut_slice(), 0x009a, 0x0006);
    write16(vdp2.regs.as_mut_slice(), 0x00a0, 0x0000);
    write16(vdp2.regs.as_mut_slice(), 0x00a2, 0x2000);
    for (index, color) in [(1u8, 0x001fu16), (2, 0x03e0), (3, 0x7c00), (4, 0x03ff)] {
        write16(vdp2.cram.as_mut_slice(), usize::from(index) * 2, color);
    }
    vdp2.vram[0] = 1;
    vdp2.vram[1] = 2;
    vdp2.vram[512] = 3;
    vdp2.vram[513] = 4;

    put_be32(vdp2.vram.as_mut_slice(), table, 0x0001_0000);
    put_be32(vdp2.vram.as_mut_slice(), table + 4, 0x0001_0000);
    put_be32(vdp2.vram.as_mut_slice(), table + 8, 0x0000_0000);
    put_be32(vdp2.vram.as_mut_slice(), table + 12, 0x0000_0000);

    vdp2.render(&vdp1);
    assert_eq!(&vdp2.video.pixels()[0..4], &[255, 255, 0, 255]);
    let line1 = WIDTH * 4;
    assert_eq!(&vdp2.video.pixels()[line1..line1 + 4], &[255, 0, 0, 255]);
}

#[test]
fn vdp2_nbg0_line_zoom_overrides_horizontal_source_increment() {
    let vdp1 = SaturnVdp1::default();
    let mut vdp2 = SaturnVdp2::default();
    let table = 0x4000usize;

    write16(vdp2.regs.as_mut_slice(), 0x0000, 0x8000);
    write16(vdp2.regs.as_mut_slice(), 0x0020, 0x0001);
    write16(vdp2.regs.as_mut_slice(), 0x0028, 0x0012);
    write16(vdp2.regs.as_mut_slice(), 0x00f8, 0x0001);
    write16(vdp2.regs.as_mut_slice(), 0x009a, 0x0008);
    write16(vdp2.regs.as_mut_slice(), 0x00a0, 0x0000);
    write16(vdp2.regs.as_mut_slice(), 0x00a2, 0x2000);
    write16(vdp2.cram.as_mut_slice(), 2, 0x001f);
    write16(vdp2.cram.as_mut_slice(), 0x0002 * 2, 0x03e0);
    vdp2.vram[0] = 1;
    vdp2.vram[1] = 2;
    vdp2.vram[512] = 1;
    vdp2.vram[513] = 2;
    put_be32(vdp2.vram.as_mut_slice(), table, 0x0000_8000);
    put_be32(vdp2.vram.as_mut_slice(), table + 4, 0x0001_0000);

    vdp2.render(&vdp1);
    assert_eq!(&vdp2.video.pixels()[4..8], &[255, 0, 0, 255]);
    assert_eq!(&vdp2.video.pixels()[8..12], &[0, 255, 0, 255]);
    let line1_x1 = (WIDTH + 1) * 4;
    assert_eq!(
        &vdp2.video.pixels()[line1_x1..line1_x1 + 4],
        &[0, 255, 0, 255]
    );
}

#[test]
fn vdp2_nbg0_zoom_uses_fixed_point_source_increment() {
    let vdp1 = SaturnVdp1::default();
    let mut vdp2 = SaturnVdp2::default();

    write16(vdp2.regs.as_mut_slice(), 0x0000, 0x8000);
    write16(vdp2.regs.as_mut_slice(), 0x0020, 0x0001);
    write16(vdp2.regs.as_mut_slice(), 0x0028, 0x0012);
    write16(vdp2.regs.as_mut_slice(), 0x00f8, 0x0001);
    write16(vdp2.cram.as_mut_slice(), 2, 0x001f);
    write16(vdp2.cram.as_mut_slice(), 0x0002 * 2, 0x03e0);
    vdp2.vram[0] = 1;
    vdp2.vram[1] = 2;

    vdp2.render(&vdp1);
    assert_eq!(&vdp2.video.pixels()[0..4], &[255, 0, 0, 255]);
    assert_eq!(&vdp2.video.pixels()[4..8], &[0, 255, 0, 255]);

    write16(vdp2.regs.as_mut_slice(), 0x0078, 0x0000);
    write16(vdp2.regs.as_mut_slice(), 0x007a, 0x8000);
    vdp2.render(&vdp1);
    assert_eq!(&vdp2.video.pixels()[0..4], &[255, 0, 0, 255]);
    assert_eq!(&vdp2.video.pixels()[4..8], &[255, 0, 0, 255]);
    assert_eq!(&vdp2.video.pixels()[8..12], &[0, 255, 0, 255]);
}

#[test]
fn vdp2_mosaic_reuses_block_origin_for_normal_background_pixels() {
    let vdp1 = SaturnVdp1::default();
    let mut vdp2 = SaturnVdp2::default();

    write16(vdp2.regs.as_mut_slice(), 0x0000, 0x8000);
    write16(vdp2.regs.as_mut_slice(), 0x0020, 0x0001);
    write16(vdp2.regs.as_mut_slice(), 0x0028, 0x0012);
    write16(vdp2.regs.as_mut_slice(), 0x00f8, 0x0001);
    write16(vdp2.cram.as_mut_slice(), 2, 0x001f);
    write16(vdp2.cram.as_mut_slice(), 0x0002 * 2, 0x03e0);
    vdp2.vram[0] = 1;
    vdp2.vram[1] = 2;
    vdp2.vram[512] = 2;
    vdp2.vram[513] = 2;

    vdp2.render(&vdp1);
    assert_eq!(&vdp2.video.pixels()[4..8], &[0, 255, 0, 255]);

    write16(vdp2.regs.as_mut_slice(), 0x0022, 0x1101);
    vdp2.render(&vdp1);
    assert_eq!(&vdp2.video.pixels()[4..8], &[255, 0, 0, 255]);
    let line1_x1 = (WIDTH + 1) * 4;
    assert_eq!(
        &vdp2.video.pixels()[line1_x1..line1_x1 + 4],
        &[255, 0, 0, 255]
    );
}

#[test]
fn vdp2_color_offset_selects_signed_a_and_b_adjustments() {
    let vdp1 = SaturnVdp1::default();
    let mut vdp2 = SaturnVdp2::default();

    write16(vdp2.regs.as_mut_slice(), 0x0000, 0x8000);
    write16(vdp2.regs.as_mut_slice(), 0x0020, 0x0001);
    write16(vdp2.regs.as_mut_slice(), 0x0028, 0x0012);
    write16(vdp2.regs.as_mut_slice(), 0x00f8, 0x0001);
    write16(vdp2.cram.as_mut_slice(), 2, 0x001f);
    vdp2.vram[0] = 1;

    write16(vdp2.regs.as_mut_slice(), 0x0110, 0x0001);
    write16(vdp2.regs.as_mut_slice(), 0x0112, 0x0000);
    write16(vdp2.regs.as_mut_slice(), 0x0114, 0x01c0);
    write16(vdp2.regs.as_mut_slice(), 0x0116, 0x0040);
    write16(vdp2.regs.as_mut_slice(), 0x0118, 0x0000);
    vdp2.render(&vdp1);
    assert_eq!(&vdp2.video.pixels()[0..4], &[191, 64, 0, 255]);

    write16(vdp2.regs.as_mut_slice(), 0x0112, 0x0001);
    write16(vdp2.regs.as_mut_slice(), 0x011a, 0x0000);
    write16(vdp2.regs.as_mut_slice(), 0x011c, 0x0000);
    write16(vdp2.regs.as_mut_slice(), 0x011e, 0x0020);
    vdp2.render(&vdp1);
    assert_eq!(&vdp2.video.pixels()[0..4], &[255, 0, 32, 255]);
}

#[test]
fn vdp2_back_screen_reads_single_and_per_line_vram_colors() {
    let vdp1 = SaturnVdp1::default();
    let mut vdp2 = SaturnVdp2::default();
    let base = 0x2000usize;

    write16(vdp2.regs.as_mut_slice(), 0x0000, 0x8000);
    write16(vdp2.regs.as_mut_slice(), 0x00ac, 0x0000);
    write16(vdp2.regs.as_mut_slice(), 0x00ae, 0x1000);
    write16(vdp2.vram.as_mut_slice(), base, 0x001f);
    vdp2.render(&vdp1);
    assert_eq!(&vdp2.video.pixels()[0..4], &[255, 0, 0, 255]);
    let line1 = WIDTH * 4;
    assert_eq!(&vdp2.video.pixels()[line1..line1 + 4], &[255, 0, 0, 255]);

    write16(vdp2.regs.as_mut_slice(), 0x00ac, 0x8000);
    write16(vdp2.vram.as_mut_slice(), base + 2, 0x03e0);
    vdp2.render(&vdp1);
    assert_eq!(&vdp2.video.pixels()[0..4], &[255, 0, 0, 255]);
    assert_eq!(&vdp2.video.pixels()[line1..line1 + 4], &[0, 255, 0, 255]);
}

#[test]
fn vdp2_nbg0_bitmap_palette_scroll_and_transparency() {
    let vdp1 = SaturnVdp1::default();
    let mut vdp2 = SaturnVdp2::default();

    write16(vdp2.regs.as_mut_slice(), 0x0000, 0x8000);
    write16(vdp2.regs.as_mut_slice(), 0x0020, 0x0001);
    write16(vdp2.regs.as_mut_slice(), 0x00f8, 0x0001);
    write16(vdp2.regs.as_mut_slice(), 0x0028, 0x0012);
    write16(vdp2.regs.as_mut_slice(), 0x002c, 0x0001);
    write16(vdp2.regs.as_mut_slice(), 0x0070, 2);
    write16(vdp2.regs.as_mut_slice(), 0x0074, 3);
    write16(vdp2.regs.as_mut_slice(), 0x00ac, 0x0001);
    write16(vdp2.regs.as_mut_slice(), 0x00ae, 0xf000);
    write16(vdp2.vram.as_mut_slice(), 0x3e000, 0x7c00);
    write16(vdp2.cram.as_mut_slice(), 0x0105 * 2, 0x03e0);
    write16(vdp2.cram.as_mut_slice(), 0x0100 * 2, 0x001f);
    vdp2.vram[3 * 512 + 2] = 5;

    vdp2.render(&vdp1);
    assert_eq!(&vdp2.video.pixels()[0..4], &[0, 255, 0, 255]);
    assert_eq!(&vdp2.video.pixels()[4..8], &[0, 0, 255, 255]);

    write16(vdp2.regs.as_mut_slice(), 0x0020, 0x0101);
    write16(vdp2.regs.as_mut_slice(), 0x00f8, 0x0001);
    vdp2.render(&vdp1);
    assert_eq!(&vdp2.video.pixels()[4..8], &[255, 0, 0, 255]);
}

#[test]
fn vdp2_nbg0_bitmap_map_offset_and_rgb_formats() {
    let vdp1 = SaturnVdp1::default();
    let mut vdp2 = SaturnVdp2::default();
    let base = 0x20000usize;

    write16(vdp2.regs.as_mut_slice(), 0x0000, 0x8000);
    write16(vdp2.regs.as_mut_slice(), 0x0020, 0x0001);
    write16(vdp2.regs.as_mut_slice(), 0x00f8, 0x0001);
    write16(vdp2.regs.as_mut_slice(), 0x003c, 0x0001);
    write16(vdp2.regs.as_mut_slice(), 0x0028, 0x0032);
    write16(vdp2.vram.as_mut_slice(), base, 0x801f);
    vdp2.render(&vdp1);
    assert_eq!(&vdp2.video.pixels()[0..4], &[255, 0, 0, 255]);

    write16(vdp2.regs.as_mut_slice(), 0x0028, 0x0042);
    vdp2.vram[base..base + 4].copy_from_slice(&[0x80, 0x12, 0x34, 0x56]);
    vdp2.render(&vdp1);
    assert_eq!(&vdp2.video.pixels()[0..4], &[0x56, 0x34, 0x12, 255]);
}

#[test]
fn vdp2_nbg2_cell_uses_chctlb_map_and_cram() {
    let vdp1 = SaturnVdp1::default();
    let mut vdp2 = SaturnVdp2::default();

    write16(vdp2.regs.as_mut_slice(), 0x0000, 0x8000);
    write16(vdp2.regs.as_mut_slice(), 0x0020, 0x0004);
    write16(vdp2.regs.as_mut_slice(), 0x00fa, 0x0001);
    write16(vdp2.regs.as_mut_slice(), 0x002a, 0x0000);
    write16(vdp2.regs.as_mut_slice(), 0x0034, 0x0000);
    write16(vdp2.regs.as_mut_slice(), 0x003a, 0x0000);
    write16(vdp2.regs.as_mut_slice(), 0x003c, 0x0000);
    write16(vdp2.regs.as_mut_slice(), 0x0048, 0x0000);
    write16(vdp2.vram.as_mut_slice(), 0x0000, 0x0001);
    write16(vdp2.vram.as_mut_slice(), 0x0002, 0x0100);
    vdp2.vram[0x2000] = 0x20;
    write16(vdp2.cram.as_mut_slice(), 0x0012 * 2, 0x001f);

    vdp2.render(&vdp1);
    assert_eq!(&vdp2.video.pixels()[0..4], &[255, 0, 0, 255]);
}

#[test]
fn vdp2_nbg3_cell_uses_256_color_mode_and_plane_a_field() {
    let vdp1 = SaturnVdp1::default();
    let mut vdp2 = SaturnVdp2::default();

    write16(vdp2.regs.as_mut_slice(), 0x0000, 0x8000);
    write16(vdp2.regs.as_mut_slice(), 0x0020, 0x0008);
    write16(vdp2.regs.as_mut_slice(), 0x00fa, 0x0100);
    write16(vdp2.regs.as_mut_slice(), 0x002a, 0x0020);
    write16(vdp2.regs.as_mut_slice(), 0x0036, 0x0000);
    write16(vdp2.regs.as_mut_slice(), 0x003a, 0x0000);
    write16(vdp2.regs.as_mut_slice(), 0x003c, 0x0000);
    write16(vdp2.regs.as_mut_slice(), 0x004c, 0x0001);
    write16(vdp2.vram.as_mut_slice(), 0x4000, 0x0001);
    write16(vdp2.vram.as_mut_slice(), 0x4002, 0x0180);
    vdp2.vram[0x3000] = 0x03;
    write16(vdp2.cram.as_mut_slice(), 0x0103 * 2, 0x03e0);

    vdp2.render(&vdp1);
    assert_eq!(&vdp2.video.pixels()[0..4], &[0, 255, 0, 255]);
}

#[test]
fn vdp2_normal_bg_priority_and_zero_transparency_follow_prin() {
    let vdp1 = SaturnVdp1::default();
    let mut vdp2 = SaturnVdp2::default();

    write16(vdp2.regs.as_mut_slice(), 0x0000, 0x8000);
    write16(vdp2.regs.as_mut_slice(), 0x0020, 0x0003);
    write16(vdp2.regs.as_mut_slice(), 0x0028, 0x1212);
    write16(vdp2.regs.as_mut_slice(), 0x003c, 0x0010);
    vdp2.vram[0x00000] = 1;
    vdp2.vram[0x20000] = 2;
    write16(vdp2.cram.as_mut_slice(), 2, 0x001f);
    write16(vdp2.cram.as_mut_slice(), 0x0002 * 2, 0x03e0);

    write16(vdp2.regs.as_mut_slice(), 0x00f8, 0x0201);
    vdp2.render(&vdp1);
    assert_eq!(&vdp2.video.pixels()[0..4], &[0, 255, 0, 255]);

    write16(vdp2.regs.as_mut_slice(), 0x00f8, 0x0102);
    vdp2.render(&vdp1);
    assert_eq!(&vdp2.video.pixels()[0..4], &[255, 0, 0, 255]);

    write16(vdp2.regs.as_mut_slice(), 0x00f8, 0x0101);
    vdp2.render(&vdp1);
    assert_eq!(&vdp2.video.pixels()[0..4], &[255, 0, 0, 255]);

    write16(vdp2.regs.as_mut_slice(), 0x00f8, 0x0100);
    vdp2.render(&vdp1);
    assert_eq!(&vdp2.video.pixels()[0..4], &[0, 255, 0, 255]);
}

#[test]
fn vdp2_nbg1_bitmap_uses_n1_registers_palette_and_scroll() {
    let vdp1 = SaturnVdp1::default();
    let mut vdp2 = SaturnVdp2::default();

    write16(vdp2.regs.as_mut_slice(), 0x0000, 0x8000);
    write16(vdp2.regs.as_mut_slice(), 0x0020, 0x0002);
    write16(vdp2.regs.as_mut_slice(), 0x00f8, 0x0100);
    write16(vdp2.regs.as_mut_slice(), 0x0028, 0x1200);
    write16(vdp2.regs.as_mut_slice(), 0x002c, 0x0100);
    write16(vdp2.regs.as_mut_slice(), 0x0080, 2);
    write16(vdp2.regs.as_mut_slice(), 0x0084, 3);
    vdp2.vram[3 * 512 + 2] = 5;
    write16(vdp2.cram.as_mut_slice(), 0x0105 * 2, 0x001f);

    vdp2.render(&vdp1);
    assert_eq!(&vdp2.video.pixels()[0..4], &[255, 0, 0, 255]);
}

#[test]
fn vdp2_nbg1_cell_scrolls_between_plane_a_and_b() {
    let vdp1 = SaturnVdp1::default();
    let mut vdp2 = SaturnVdp2::default();

    write16(vdp2.regs.as_mut_slice(), 0x0000, 0x8000);
    write16(vdp2.regs.as_mut_slice(), 0x0020, 0x0002);
    write16(vdp2.regs.as_mut_slice(), 0x00f8, 0x0100);
    write16(vdp2.regs.as_mut_slice(), 0x0028, 0x0000);
    write16(vdp2.regs.as_mut_slice(), 0x0032, 0x0000);
    write16(vdp2.regs.as_mut_slice(), 0x003a, 0x0000);
    write16(vdp2.regs.as_mut_slice(), 0x003c, 0x0000);
    write16(vdp2.regs.as_mut_slice(), 0x0044, 0x0100);

    write16(vdp2.vram.as_mut_slice(), 0x0000, 0x0001);
    write16(vdp2.vram.as_mut_slice(), 0x0002, 0x0100);
    vdp2.vram[0x2000] = 0x20;
    write16(vdp2.cram.as_mut_slice(), 0x0012 * 2, 0x001f);

    write16(vdp2.vram.as_mut_slice(), 0x4000, 0x0002);
    write16(vdp2.vram.as_mut_slice(), 0x4002, 0x0180);
    vdp2.vram[0x3000] = 0x30;
    write16(vdp2.cram.as_mut_slice(), 0x0023 * 2, 0x03e0);

    vdp2.render(&vdp1);
    assert_eq!(&vdp2.video.pixels()[0..4], &[255, 0, 0, 255]);

    write16(vdp2.regs.as_mut_slice(), 0x0080, 512);
    vdp2.render(&vdp1);
    assert_eq!(&vdp2.video.pixels()[0..4], &[0, 255, 0, 255]);
}

#[test]
fn vdp2_nbg0_cell_two_word_map_scrolls_between_planes() {
    let vdp1 = SaturnVdp1::default();
    let mut vdp2 = SaturnVdp2::default();

    write16(vdp2.regs.as_mut_slice(), 0x0000, 0x8000);
    write16(vdp2.regs.as_mut_slice(), 0x0020, 0x0001);
    write16(vdp2.regs.as_mut_slice(), 0x00f8, 0x0001);
    write16(vdp2.regs.as_mut_slice(), 0x0028, 0x0000);
    write16(vdp2.regs.as_mut_slice(), 0x0030, 0x0000);
    write16(vdp2.regs.as_mut_slice(), 0x003a, 0x0000);
    write16(vdp2.regs.as_mut_slice(), 0x003c, 0x0000);
    write16(vdp2.regs.as_mut_slice(), 0x0040, 0x0100);

    write16(vdp2.vram.as_mut_slice(), 0x0000, 0x0001);
    write16(vdp2.vram.as_mut_slice(), 0x0002, 0x0100);
    vdp2.vram[0x2000] = 0x20;
    write16(vdp2.cram.as_mut_slice(), 0x0012 * 2, 0x001f);

    write16(vdp2.vram.as_mut_slice(), 0x4000, 0x0002);
    write16(vdp2.vram.as_mut_slice(), 0x4002, 0x0180);
    vdp2.vram[0x3000] = 0x30;
    write16(vdp2.cram.as_mut_slice(), 0x0023 * 2, 0x03e0);

    vdp2.render(&vdp1);
    assert_eq!(&vdp2.video.pixels()[0..4], &[255, 0, 0, 255]);

    write16(vdp2.regs.as_mut_slice(), 0x0070, 512);
    vdp2.render(&vdp1);
    assert_eq!(&vdp2.video.pixels()[0..4], &[0, 255, 0, 255]);
}

#[test]
fn vdp2_nbg0_cell_one_word_auxiliary_flip_decodes_character_and_palette() {
    let vdp1 = SaturnVdp1::default();
    let mut vdp2 = SaturnVdp2::default();

    write16(vdp2.regs.as_mut_slice(), 0x0000, 0x8000);
    write16(vdp2.regs.as_mut_slice(), 0x0020, 0x0001);
    write16(vdp2.regs.as_mut_slice(), 0x00f8, 0x0001);
    write16(vdp2.regs.as_mut_slice(), 0x0028, 0x0000);
    write16(vdp2.regs.as_mut_slice(), 0x0030, 0x8020);
    write16(vdp2.regs.as_mut_slice(), 0x003a, 0x0000);
    write16(vdp2.regs.as_mut_slice(), 0x003c, 0x0000);
    write16(vdp2.regs.as_mut_slice(), 0x0040, 0x0000);

    write16(vdp2.vram.as_mut_slice(), 0x0000, 0x2410);
    vdp2.vram[0x0203] = 0x03;
    write16(vdp2.cram.as_mut_slice(), 0x0123 * 2, 0x7c00);

    vdp2.render(&vdp1);
    assert_eq!(&vdp2.video.pixels()[0..4], &[0, 0, 255, 255]);
}

#[test]
fn vdp2_sprite_priority_selectors_compete_with_normal_bg_priority() {
    let mut vdp1 = SaturnVdp1::default();
    let mut vdp2 = SaturnVdp2::default();

    put_be16(vdp1.framebuffers[vdp1.display].as_mut_slice(), 0, 0x4002);
    write16(vdp2.regs.as_mut_slice(), 0x0000, 0x8000);
    write16(vdp2.regs.as_mut_slice(), 0x0020, 0x0001);
    write16(vdp2.regs.as_mut_slice(), 0x0028, 0x0012);
    write16(vdp2.regs.as_mut_slice(), 0x00e0, 0x0000);
    write16(vdp2.regs.as_mut_slice(), 0x00f8, 0x0002);
    vdp2.vram[0] = 1;
    write16(vdp2.cram.as_mut_slice(), 2, 0x001f);
    write16(vdp2.cram.as_mut_slice(), 0x0002 * 2, 0x03e0);

    write16(vdp2.regs.as_mut_slice(), 0x00f0, 0x0300);
    vdp2.render(&vdp1);
    assert_eq!(&vdp2.video.pixels()[0..4], &[0, 255, 0, 255]);

    write16(vdp2.regs.as_mut_slice(), 0x00f0, 0x0100);
    vdp2.render(&vdp1);
    assert_eq!(&vdp2.video.pixels()[0..4], &[255, 0, 0, 255]);

    write16(vdp2.regs.as_mut_slice(), 0x00f0, 0x0200);
    vdp2.render(&vdp1);
    assert_eq!(&vdp2.video.pixels()[0..4], &[0, 255, 0, 255]);
}

#[test]
fn vdp1_color_bank_sprite_resolves_through_vdp2_cram() {
    let mut vdp1 = SaturnVdp1::default();
    let mut vdp2 = SaturnVdp2::default();
    let source = 0x1000usize;

    write16(vdp1.vram.as_mut_slice(), 0x00, 0x0000);
    write16(vdp1.vram.as_mut_slice(), 0x04, 0x0080);
    write16(vdp1.vram.as_mut_slice(), 0x06, 0x0020);
    write16(vdp1.vram.as_mut_slice(), 0x08, (source / 8) as u16);
    write16(vdp1.vram.as_mut_slice(), 0x0a, 0x0101);
    write16(vdp1.vram.as_mut_slice(), 0x0c, 7);
    write16(vdp1.vram.as_mut_slice(), 0x0e, 9);
    write16(vdp1.vram.as_mut_slice(), 0x20, 0x8000);
    vdp1.vram[source] = 0x10;

    write16(vdp2.regs.as_mut_slice(), 0, 0x8000);
    write16(vdp2.regs.as_mut_slice(), 0x00e0, 0x0000);
    write16(vdp2.regs.as_mut_slice(), 0x00f0, 0x0001);
    write16(vdp2.cram.as_mut_slice(), 0x21 * 2, 0x03e0);

    end_frame(&mut vdp1);
    vdp2.render(&vdp1);
    let pixel = (9 * WIDTH + 7) * 4;
    assert!(vdp2.video.pixels()[pixel] < 20);
    assert!(vdp2.video.pixels()[pixel + 1] > 200);
    assert!(vdp2.video.pixels()[pixel + 2] < 20);
}

#[test]
fn vdp1_commands_compose_through_vdp2() {
    let mut vdp1 = SaturnVdp1::default();
    let mut vdp2 = SaturnVdp2::default();
    write16(vdp1.vram.as_mut_slice(), 0, 0x0006);
    write16(vdp1.vram.as_mut_slice(), 0x20, 0x8000);
    write16(vdp1.vram.as_mut_slice(), 6, 0x801f);
    write16(vdp1.vram.as_mut_slice(), 0x0c, 10);
    write16(vdp1.vram.as_mut_slice(), 0x0e, 10);
    write16(vdp1.vram.as_mut_slice(), 0x10, 20);
    write16(vdp1.vram.as_mut_slice(), 0x12, 10);
    write16(vdp2.regs.as_mut_slice(), 0, 0x8000);
    write16(vdp2.regs.as_mut_slice(), 0x00e0, 0x0020);
    write16(vdp2.regs.as_mut_slice(), 0x00f0, 0x0001);
    end_frame(&mut vdp1);
    vdp2.render(&vdp1);
    let pixel = (10 * WIDTH + 10) * 4;
    assert!(vdp2.video.pixels()[pixel] > 200);
    assert!(vdp2.video.pixels()[pixel + 1] < 20);
}

#[test]
fn vdp_memory_byte_writes_read_back_through_mirrors() {
    let mut vdp1 = SaturnVdp1::default();
    vdp1.write8(0x05c0_1234, 0x5a);
    assert_eq!(vdp1.read8(0x05c0_1234), 0x5a);
    vdp1.write8(0x05d0_0004, 0x77);
    assert_eq!(vdp1.read8(0x05d0_0004), 0x77);
    vdp1.write8(0x05c8_0010, 0x33);
    assert_eq!(vdp1.read8(0x05c8_0010), 0x33);
    assert_eq!(vdp1.read8(0x05e0_0000), 0);

    let mut vdp2 = SaturnVdp2::default();
    vdp2.write8(0x05e0_0010, 0xab);
    assert_eq!(vdp2.read8(0x05e0_0010), 0xab);
    assert_eq!(vdp2.read8(0x05e8_0010), 0xab);
    vdp2.write8(0x05f0_1002, 0xcd);
    assert_eq!(vdp2.read8(0x05f0_0002), 0xcd);
    vdp2.write8(0x05f8_0201, 0xef);
    assert_eq!(vdp2.read8(0x05f8_0001), 0xef);
    vdp2.write8(0x0600_0000, 0x11);
    assert_eq!(vdp2.read8(0x0600_0000), 0);
}

#[test]
fn vdp1_command_walk_keeps_the_buffer_on_show_and_vram() {
    let mut vdp1 = SaturnVdp1::default();
    let source = 0x1000usize;
    write16(vdp1.vram.as_mut_slice(), 0x00, 0x0000);
    write16(vdp1.vram.as_mut_slice(), 0x04, 0x00a8);
    write16(vdp1.vram.as_mut_slice(), 0x08, (source / 8) as u16);
    write16(vdp1.vram.as_mut_slice(), 0x0a, 0x0101);
    write16(vdp1.vram.as_mut_slice(), 0x20, 0x8000);
    for pixel in 0..8 {
        write16(vdp1.vram.as_mut_slice(), source + pixel * 2, 0x801f);
    }
    for (index, byte) in vdp1.framebuffers[1].iter_mut().enumerate() {
        *byte = index as u8;
    }
    let shown = vdp1.framebuffers[1].clone();
    let vram = vdp1.vram.clone();

    let mut walker = vdp1.begin_commands();
    assert!(vdp1.run_commands(&mut walker).is_none());

    assert_eq!(vdp1.framebuffers[1], shown);
    assert_eq!(vdp1.vram, vram);
    assert_eq!(vdp1.draw, 0);
    assert_eq!(be16(&vdp1.framebuffers[0], 0), 0x801f);
    assert_eq!(be16(&vdp1.framebuffers[0], 16), 0);
}

#[test]
fn vdp1_texture_source_wraps_around_vram() {
    let mut vdp1 = SaturnVdp1::default();
    write16(vdp1.vram.as_mut_slice(), 0x1000, 0x801f);
    write16(vdp1.vram.as_mut_slice(), 0x1002, 0x0000);
    let texture = Vdp1Texture { source: 0x8_1000, width: 8, height: 1, ctrl: 0, pmod: 0x00a8, color: 0 };
    assert_eq!(vdp1.texture_pixel(texture, 0, 0), Some(0x801f));
    assert_eq!(vdp1.texture_pixel(texture, 1, 0), None);
    let flipped = Vdp1Texture { ctrl: 0x0010, ..texture };
    assert_eq!(vdp1.texture_pixel(flipped, 7, 0), Some(0x801f));
}

#[test]
fn vdp2_state_round_trips_memories_registers_and_frame() {
    let mut vdp2 = SaturnVdp2::default();
    vdp2.vram[0x1234] = 0x56;
    vdp2.cram[0x0fff] = 0x78;
    vdp2.regs[0x20] = 0x9a;
    vdp2.frame = 1234;
    let mut state = Vec::new();
    vdp2.save(&mut state);
    assert_eq!(state.len(), 4 + 0x8_0000 + 4 + 0x1000 + 4 + 0x200 + 8);

    let mut restored = SaturnVdp2::default();
    let mut pos = 0usize;
    restored.load(&state, &mut pos).unwrap();
    assert_eq!(pos, state.len());
    assert_eq!(restored.vram, vdp2.vram);
    assert_eq!(restored.cram, vdp2.cram);
    assert_eq!(restored.regs, vdp2.regs);
    assert_eq!(restored.frame, 1234);

    let mut fresh = SaturnVdp2::default();
    let mut pos = 0usize;
    assert_eq!(
        fresh.load(&state[..state.len() - 1], &mut pos),
        Err("Saturn VDP2 state is truncated".to_string())
    );
    assert_eq!(pos, 0);
    assert_eq!(fresh.frame, 0);
}
