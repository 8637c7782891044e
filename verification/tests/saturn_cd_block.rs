use omnicore::saturn_cd_block::{
    CdDisc, CdTrack, CddaStep, DataStep, SaturnCdBlock, AUDIO_RATE, SECTORS_PER_SECOND, SH2_HZ,
};

/// A disc as the disc image serves it: raw sectors (None while a sector is
/// still being fetched) and whether each lies in an audio track.
struct TestDisc {
    sectors: Vec<Option<Box<[u8; 2352]>>>,
    audio: Vec<bool>,
}

impl TestDisc {
    fn audio_at(&self, lba: u32) -> bool {
        self.audio.get(lba as usize).copied().unwrap_or(false)
    }

    fn read(&self, lba: u32) -> Option<Box<[u8; 2352]>> {
        self.sectors.get(lba as usize).cloned().flatten()
    }
}

fn mode1_sector(user: &[u8]) -> Box<[u8; 2352]> {
    let mut raw = Box::new([0u8; 2352]);
    raw[1..11].fill(0xff);
    raw[15] = 1;
    raw[16..16 + user.len()].copy_from_slice(user);
    raw
}

/// A single-track data disc made of 2048-byte sectors.
fn iso_disc(image: &[u8]) -> (CdDisc, TestDisc) {
    let count = image.len() / 2048;
    let mut track_starts = vec![None; 256];
    track_starts[1] = Some(0);
    let disc = CdDisc {
        sectors: count as u32,
        first_track: 1,
        last_track: 1,
        track_starts,
        tracks: vec![CdTrack { number: 1, start_lba: 0, data: true }],
    };
    let sectors = image.chunks(2048).map(|user| Some(mode1_sector(user))).collect();
    (disc, TestDisc { sectors, audio: vec![false; count] })
}

/// One data track of `data_sectors` 2048-byte sectors, then one audio track.
fn data_then_audio(data_sectors: usize, audio: Vec<u8>) -> (CdDisc, TestDisc) {
    let audio_sectors = audio.len() / 2352;
    let mut track_starts = vec![None; 256];
    track_starts[1] = Some(0);
    track_starts[2] = Some(data_sectors as u32);
    let disc = CdDisc {
        sectors: (data_sectors + audio_sectors) as u32,
        first_track: 1,
        last_track: 2,
        track_starts,
        tracks: vec![
            CdTrack { number: 1, start_lba: 0, data: true },
            CdTrack { number: 2, start_lba: data_sectors as u32, data: false },
        ],
    };
    let mut sectors: Vec<Option<Box<[u8; 2352]>>> = (0..data_sectors).map(|_| Some(mode1_sector(&[0u8; 2048]))).collect();
    for chunk in audio.chunks(2352) {
        let mut raw = Box::new([0u8; 2352]);
        raw.copy_from_slice(chunk);
        sectors.push(Some(raw));
    }
    let mut flags = vec![false; data_sectors];
    flags.extend(vec![true; audio_sectors]);
    (disc, TestDisc { sectors, audio: flags })
}

/// The drive's time passing: the audio path while playing audio, else the
/// data path, each reading sectors from the disc as they fall due.
fn tick(cd: &mut SaturnCdBlock, sh_cycles: u32, disc: &TestDisc) {
    if cd.audio_path_active(disc.audio_at(cd.current_lba)) {
        cd.accrue_audio_time(sh_cycles);
        loop {
            match cd.next_audio_step(disc.audio_at(cd.current_lba)) {
                CddaStep::Done | CddaStep::Stopped => break,
                CddaStep::Sample => {}
                CddaStep::NeedSector(lba) => match disc.read(lba) {
                    Some(raw) => cd.deliver_audio_sector(raw),
                    None => {
                        cd.audio_read_failed(true);
                        break;
                    }
                },
            }
        }
        return;
    }
    if !cd.reading {
        return;
    }
    cd.accrue_data_time(sh_cycles);
    while let DataStep::NeedSector(lba) = cd.next_data_read() {
        match disc.read(lba) {
            Some(raw) => cd.deliver_data_sector(raw),
            None => break,
        }
    }
}

#[test]
fn cd_information_commands_return_hardware_toc_and_session_data() {
    let (disc, _) = iso_disc(&vec![0u8; 4 * 2048]);
    let mut cd = SaturnCdBlock::new(Some(disc));

    cd.cr[0] = 0x0100;
    cd.issue_command();
    assert_eq!(cd.cr, [0x0100, 0x0201, 0x0000, 0x0400]);
    assert_ne!(cd.hirq & 0x0001, 0);

    cd.hirq = 0;
    cd.cr[0] = 0x0200;
    cd.issue_command();
    assert_eq!(cd.cr, [0x4100, 204, 0, 0]);
    assert_eq!(cd.data.len(), 408);
    assert_eq!(cd.hirq & 0x0003, 0x0003);
    assert_eq!(cd.data.iter().take(4).copied().collect::<Vec<_>>(), vec![0x41, 0x00, 0x00, 150]);
    let toc = cd.data.iter().copied().collect::<Vec<_>>();
    assert_eq!(&toc[404..408], &[0x41, 0x00, 0x00, 154]);

    for _ in 0..204 {
        let _ = cd.read16(0x0581_8000);
    }
    assert!(cd.data.is_empty());
    assert_eq!(cd.hirq & 0x0002, 0);
    assert_eq!(cd.cr[0] & 0x4000, 0);

    cd.cr[0] = 0x0300;
    cd.issue_command();
    assert_eq!(cd.cr[2], 0x0100);
    assert_eq!(cd.cr[3], 154);

    cd.cr[0] = 0x0301;
    cd.issue_command();
    assert_eq!(cd.cr[2], 0x0100);
    assert_eq!(cd.cr[3], 0);
}

#[test]
fn cd_multitrack_cue_populates_toc_and_track_addressing() {
    let (disc, _) = data_then_audio(2, vec![0u8; 2352]);
    let mut cd = SaturnCdBlock::new(Some(disc));

    assert_eq!(cd.disc.as_ref().unwrap().tracks.len(), 2);
    assert!(!cd.disc.as_ref().unwrap().tracks[1].data);

    cd.cr[0] = 0x0200;
    cd.issue_command();
    let toc = cd.data.iter().copied().collect::<Vec<_>>();
    assert_eq!(&toc[0..4], &[0x41, 0x00, 0x00, 150]);
    assert_eq!(&toc[4..8], &[0x01, 0x00, 0x00, 152]);
    assert_eq!(toc[397], 1);
    assert_eq!(toc[401], 2);
    assert_eq!(&toc[404..408], &[0x41, 0x00, 0x00, 153]);

    cd.cr = [0x1000, 0x0200, 0, 0];
    cd.issue_command();
    assert_eq!(cd.current_lba, 2);
    assert!(cd.reading);

    cd.cr = [0x1100, 0x0200, 0, 0];
    cd.issue_command();
    assert_eq!(cd.current_lba, 2);
    assert!(!cd.reading);
}

#[test]
fn cd_multitrack_cue_streams_cdda_at_scsp_rate() {
    let mut audio = vec![0u8; 2352];
    for frame in audio.chunks_mut(4) {
        frame[..2].copy_from_slice(&0x2345i16.to_le_bytes());
        frame[2..].copy_from_slice(&(-0x1234i16).to_le_bytes());
    }
    let (disc, served) = data_then_audio(1, audio);
    let mut cd = SaturnCdBlock::new(Some(disc));

    cd.cr = [0x1000, 0x0200, 0, 0];
    cd.issue_command();
    assert_eq!(cd.current_lba, 1);
    assert!(cd.audio_path_active(served.audio_at(cd.current_lba)));

    tick(&mut cd, (SH2_HZ / AUDIO_RATE + 1) as u32, &served);

    assert_eq!(cd.cdda_samples.front(), Some(&[0x2345, -0x1234]));
    assert_eq!(cd.current_lba, 2);
    assert_eq!(cd.cdda_sample_index, 1);
}

#[test]
fn cd_play_and_seek_use_fad_addresses_with_150_sector_origin() {
    let (disc, _) = iso_disc(&vec![0u8; 8 * 2048]);
    let mut cd = SaturnCdBlock::new(Some(disc));

    cd.cr = [0x1080, 151, 0x0080, 2];
    cd.issue_command();
    assert_eq!(cd.current_lba, 1);
    assert_eq!(cd.target_lba, 3);
    assert!(cd.reading);
    assert_eq!(cd.cr[0] & 0x0f00, 0x0300);

    cd.cr = [0x1180, 152, 0, 0];
    cd.issue_command();
    assert_eq!(cd.current_lba, 2);
    assert!(!cd.reading);
    assert_eq!(cd.cr[0] & 0x0f00, 0x0100);

    cd.cr = [0x11ff, 0xffff, 0, 0];
    cd.issue_command();
    assert_eq!(cd.current_lba, 2);
    assert_eq!(cd.cr[0] & 0x0f00, 0x0100);
}

#[test]
fn cd_device_connection_command_preserves_drive_position() {
    let (disc, _) = iso_disc(&vec![0u8; 8 * 2048]);
    let mut cd = SaturnCdBlock::new(Some(disc));
    cd.current_lba = 3;
    cd.target_lba = 3;
    cd.cr = [0x3000, 0, 0x0200, 0];
    cd.issue_command();
    assert_eq!(cd.current_lba, 3);
    assert_eq!(cd.target_lba, 3);
    assert_eq!(cd.cd_device_connection, 2);
    assert_eq!(cd.hirq & 0x0041, 0x0041);

    cd.cr = [0x3100, 0, 0, 0];
    cd.issue_command();
    assert_eq!(cd.cr[2], 0x0200);
}

#[test]
fn cd_buffered_read_protocol_matches_standard_host_flow() {
    let mut image = vec![0u8; 4 * 2048];
    image[..2048].fill(0x11);
    image[2048..4096].fill(0x22);
    image[4096..6144].fill(0x33);
    image[6144..].fill(0x44);
    let (disc, served) = iso_disc(&image);
    let mut cd = SaturnCdBlock::new(Some(disc));

    cd.cr = [0x4800, 0, 0, 0];
    cd.issue_command();
    cd.cr = [0x3000, 0, 0, 0];
    cd.issue_command();
    cd.cr = [0x1080, 150, 0x0080, 2];
    cd.issue_command();
    let two_sector_cycles = (SH2_HZ * 2).div_ceil(SECTORS_PER_SECOND) as u32;
    tick(&mut cd, two_sector_cycles, &served);
    tick(&mut cd, (SH2_HZ / SECTORS_PER_SECOND + 1) as u32, &served);

    assert_eq!(cd.partitions[0].len(), 2);
    assert!(!cd.reading);
    assert_eq!(cd.current_lba, 2);
    assert_eq!(cd.target_lba, 2);
    assert_eq!(cd.data.len(), 0);
    assert_eq!(cd.hirq & 0x0004, 0x0004);

    cd.cr = [0x5000, 0, 0, 0];
    cd.issue_command();
    assert_eq!(cd.cr[1], 198);
    assert_eq!(cd.cr[2], 0x1800);
    assert_eq!(cd.cr[3], 200);

    cd.cr = [0x5100, 0, 0, 0];
    cd.issue_command();
    assert_eq!(cd.cr[3], 2);

    cd.cr = [0x5200, 0, 0, 1];
    cd.issue_command();
    assert_eq!(cd.actual_size_words, 1024);
    cd.cr = [0x5300, 0, 0, 0];
    cd.issue_command();
    assert_eq!(cd.cr[0] & 0x00ff, 0);
    assert_eq!(cd.cr[1], 1024);

    cd.cr = [0x5400, 0, 0, 0];
    cd.issue_command();
    assert_eq!(cd.cr[0] & 0x00ff, 0);
    assert_eq!(cd.cr[1], 150);

    cd.cr = [0x6300, 0, 0, 1];
    cd.issue_command();
    assert_eq!(cd.partitions[0].len(), 1);
    assert_eq!(cd.data.len(), 2048);
    assert_eq!(cd.hirq & 0x0002, 0x0002);
    assert_eq!(cd.read16(0x0581_8000), 0x1111);
    assert_eq!(cd.transfer_bytes_read, 2);

    cd.cr = [0x0600, 0, 0, 0];
    cd.issue_command();
    assert!(cd.data.is_empty());
    assert_eq!(cd.cr[1], 1);
    assert_eq!(cd.hirq & 0x0080, 0x0080);
    assert_eq!(cd.hirq & 0x0002, 0);
}

#[test]
fn cd_filter_range_and_false_chain_route_sectors() {
    let mut image = vec![0u8; 2 * 2048];
    image[..2048].fill(0x11);
    image[2048..].fill(0x22);
    let (disc, served) = iso_disc(&image);
    let mut cd = SaturnCdBlock::new(Some(disc));

    cd.cr = [0x48fc, 0, 0, 0];
    cd.issue_command();
    cd.cr = [0x4603, 0x0201, 0x0000, 0];
    cd.issue_command();
    cd.cr = [0x4601, 0x0300, 0x0100, 0];
    cd.issue_command();
    cd.cr = [0x4000, 151, 0x0000, 1];
    cd.issue_command();
    cd.cr = [0x4440, 0, 0x0000, 0];
    cd.issue_command();

    cd.cr = [0x4100, 0, 0x0000, 0];
    cd.issue_command();
    assert_eq!(cd.cr[1], 151);
    assert_eq!(cd.cr[3], 1);
    cd.cr = [0x4700, 0, 0x0000, 0];
    cd.issue_command();
    assert_eq!(cd.cr[1], 0x0201);

    cd.cr = [0x3000, 0, 0x0000, 0];
    cd.issue_command();
    cd.cr = [0x1080, 150, 0x0080, 2];
    cd.issue_command();
    tick(&mut cd, (SH2_HZ * 2).div_ceil(SECTORS_PER_SECOND) as u32, &served);

    assert_eq!(cd.partitions[2].len(), 1);
    assert_eq!(cd.partitions[2][0].fad, 151);
    assert_eq!(cd.partitions[3].len(), 1);
    assert_eq!(cd.partitions[3][0].fad, 150);
    assert_eq!(cd.last_buffer_destination, 0);

    cd.cr = [0x3200, 0, 0, 0];
    cd.issue_command();
    assert_eq!(cd.cr[2], 0x0000);
}

#[test]
fn cd_fad_search_and_copy_move_follow_partition_protocol() {
    let mut image = vec![0u8; 3 * 2048];
    image[..2048].fill(0x11);
    image[2048..4096].fill(0x22);
    image[4096..].fill(0x33);
    let (disc, served) = iso_disc(&image);
    let mut cd = SaturnCdBlock::new(Some(disc));

    cd.cr = [0x3000, 0, 0, 0];
    cd.issue_command();
    cd.cr = [0x1080, 150, 0x0080, 3];
    cd.issue_command();
    tick(&mut cd, (SH2_HZ * 3).div_ceil(SECTORS_PER_SECOND) as u32, &served);
    assert_eq!(cd.partitions[0].len(), 3);

    cd.cr = [0x5500, 0, 0x0000, 151];
    cd.issue_command();
    assert_eq!(cd.fad_search_pos, 1);
    assert_eq!(cd.fad_search_fad, 151);
    assert_eq!(cd.fad_search_partition, 0);

    cd.cr = [0x5600, 0, 0, 0];
    cd.issue_command();
    assert_eq!(cd.cr[1], 1);
    assert_eq!(cd.cr[2], 0);
    assert_eq!(cd.cr[3], 151);

    cd.cr = [0x6501, 0, 0x0000, 1];
    cd.issue_command();
    assert_eq!(cd.partitions[0].len(), 3);
    assert_eq!(cd.partitions[1].len(), 1);
    assert_eq!(cd.partitions[1][0].fad, 150);
    assert_eq!(cd.hirq & 0x0100, 0x0100);

    cd.cr = [0x6601, 1, 0x0000, 1];
    cd.issue_command();
    assert_eq!(cd.partitions[0].len(), 2);
    assert_eq!(cd.partitions[0][0].fad, 150);
    assert_eq!(cd.partitions[0][1].fad, 152);
    assert_eq!(cd.partitions[1].len(), 2);
    assert_eq!(cd.partitions[1][1].fad, 151);

    cd.cr = [0x6700, 0, 0, 0];
    cd.issue_command();
    assert_eq!(cd.cr[1..], [0, 0, 0]);
}

#[test]
fn cd_sector_length_controls_host_transfer_view() {
    let mut raw = vec![0u8; 2352];
    raw[0] = 0;
    raw[1..11].fill(0xff);
    raw[11] = 0;
    raw[15] = 1;
    for (index, byte) in raw.iter_mut().enumerate().skip(16) {
        *byte = index as u8;
    }
    let mut sector = Box::new([0u8; 2352]);
    sector.copy_from_slice(&raw);
    let mut track_starts = vec![None; 256];
    track_starts[1] = Some(0);
    let disc = CdDisc {
        sectors: 1,
        first_track: 1,
        last_track: 1,
        track_starts,
        tracks: vec![CdTrack { number: 1, start_lba: 0, data: true }],
    };
    let served = TestDisc { sectors: vec![Some(sector)], audio: vec![false] };
    let mut cd = SaturnCdBlock::new(Some(disc));
    cd.cr = [0x3000, 0, 0, 0];
    cd.issue_command();
    cd.cr = [0x1080, 150, 0x0080, 1];
    cd.issue_command();
    tick(&mut cd, SH2_HZ.div_ceil(SECTORS_PER_SECOND) as u32, &served);
    assert_eq!(cd.partitions[0].len(), 1);

    for (format, expected_len, expected_first) in [
        (0u8, 2048usize, raw[16]),
        (1, 2336, raw[16]),
        (2, 2340, raw[12]),
        (3, 2352, raw[0]),
    ] {
        cd.cr = [0x6000 | u16::from(format), 0xff00, 0, 0];
        cd.issue_command();
        cd.cr = [0x6100, 0, 0, 1];
        cd.issue_command();
        assert_eq!(cd.data.len(), expected_len);
        assert_eq!(cd.data.front(), Some(&expected_first));
        assert_eq!(cd.partitions[0].len(), 1);
        cd.cr = [0x0600, 0, 0, 0];
        cd.issue_command();
    }
}

#[test]
fn streaming_cd_requests_missing_sector_and_hydrates() {
    let (disc, mut served) = iso_disc(&vec![0u8; 4 * 2048]);
    served.sectors[1] = None;
    let mut cd = SaturnCdBlock::new(Some(disc));
    cd.cr = [0x3000, 0, 0, 0];
    cd.issue_command();
    cd.cr = [0x1080, 151, 0x0080, 1];
    cd.issue_command();
    tick(&mut cd, (SH2_HZ / SECTORS_PER_SECOND + 1) as u32, &served);
    assert_eq!(cd.partitions[0].len(), 0);
    assert!(cd.reading);
    served.sectors[1] = Some(mode1_sector(&[0x5a; 2048]));
    tick(&mut cd, (SH2_HZ / SECTORS_PER_SECOND + 1) as u32, &served);
    assert_eq!(cd.partitions[0].len(), 1);
    assert!(cd.data.is_empty());

    cd.cr = [0x6300, 0, 0, 1];
    cd.issue_command();
    assert_eq!(cd.partitions[0].len(), 0);
    assert_eq!(cd.data.len(), 2048);
    assert_eq!(cd.data.front(), Some(&0x5a));
    assert_eq!(cd.read8(0x0581_8000), 0x5a);
    assert_eq!(cd.data.len(), 2047);
    assert_eq!(cd.read16(0x0581_8000), 0x5a5a);
    assert_eq!(cd.data.len(), 2045);
}

#[test]
fn cd_rejects_unknown_commands_and_bad_selectors() {
    let mut cd = SaturnCdBlock::new(None);
    cd.cr = [0x0000, 0, 0, 0];
    cd.issue_command();
    assert_eq!(cd.cr, [0x0700, 0xffff, 0xffff, 0xffff]);
    cd.cr = [0x7f00, 0, 0, 0];
    cd.issue_command();
    assert_eq!(cd.cr, [0xff00, 0, 0, 0]);
    cd.cr = [0x4000, 0, 0x1800, 0];
    cd.issue_command();
    assert_eq!(cd.cr, [0xff00, 0, 0, 0]);
    cd.cr = [0x3000, 0, 0x1800, 0];
    cd.issue_command();
    assert_eq!(cd.cr[0], 0xff00);
    cd.cr = [0x6100, 0, 0, 1];
    cd.issue_command();
    assert_eq!(cd.cr[0], 0x0500);
    cd.cr = [0x1000, 0, 0, 0];
    cd.issue_command();
    assert!(!cd.reading);
    assert_eq!(cd.cr[0], 0x0700);
}

#[test]
fn cd_registers_read_and_write_through_the_host_window() {
    let mut cd = SaturnCdBlock::new(None);
    cd.write16(0x0589_000c, 0x0041);
    assert_eq!(cd.read16(0x0589_000c), 0x0041);
    cd.hirq = 0x00ff;
    cd.write16(0x0589_0008, 0x0003);
    assert_eq!(cd.hirq, 0x00fc);
    assert!(cd.irq_pending());
    cd.write8(0x0589_0018, 0x01);
    cd.write8(0x0589_0019, 0x00);
    assert_eq!(cd.read8(0x0589_0018), 0x01);
    cd.write16(0x0589_0024, 0x0000);
    assert_eq!(cd.cr, [0x0700, 0x0201, 0x0000, 0x0400]);
    assert_eq!(cd.read16(0x0589_0028), 0);
}

#[test]
fn cd_cdda_state_round_trip_preserves_playback_position_and_queue() {
    let mut audio = vec![0u8; 2 * 2352];
    for (index, frame) in audio.chunks_mut(4).enumerate() {
        let left = (index as i16).wrapping_mul(3);
        let right = left.wrapping_neg();
        frame[..2].copy_from_slice(&left.to_le_bytes());
        frame[2..].copy_from_slice(&right.to_le_bytes());
    }
    let (disc, served) = data_then_audio(1, audio.clone());
    let mut cd = SaturnCdBlock::new(Some(disc));
    cd.cr = [0x1000, 0x0200, 0, 0];
    cd.issue_command();
    tick(&mut cd, (SH2_HZ / AUDIO_RATE * 37 + 1) as u32, &served);

    let expected_lba = cd.current_lba;
    let expected_index = cd.cdda_sample_index;
    let expected_phase = cd.cdda_phase;
    let expected_sector = cd.cdda_sector.clone();
    let expected_samples = cd.cdda_samples.clone();

    let mut state = Vec::new();
    cd.save(&mut state);

    let (disc, _) = data_then_audio(1, audio);
    let mut restored = SaturnCdBlock::new(Some(disc));
    let mut pos = 0usize;
    restored.load(&state, &mut pos).unwrap();
    assert_eq!(pos, state.len());

    assert_eq!(restored.current_lba, expected_lba);
    assert_eq!(restored.cdda_sample_index, expected_index);
    assert_eq!(restored.cdda_phase, expected_phase);
    assert_eq!(restored.cdda_sector.as_slice(), expected_sector.as_slice());
    assert_eq!(restored.cdda_samples, expected_samples);

    tick(&mut cd, (SH2_HZ / AUDIO_RATE * 11 + 1) as u32, &served);
    tick(&mut restored, (SH2_HZ / AUDIO_RATE * 11 + 1) as u32, &served);
    assert_eq!(restored.current_lba, cd.current_lba);
    assert_eq!(restored.cdda_sample_index, cd.cdda_sample_index);
    assert_eq!(restored.cdda_samples, cd.cdda_samples);
}

#[test]
fn cd_buffer_state_round_trip_preserves_partitions_and_transfer() {
    let image = vec![0x6du8; 2 * 2048];
    let (disc, served) = iso_disc(&image);
    let mut cd = SaturnCdBlock::new(Some(disc));
    cd.cr = [0x3000, 0, 0, 0];
    cd.issue_command();
    cd.cr = [0x1080, 150, 0x0080, 2];
    cd.issue_command();
    tick(&mut cd, (SH2_HZ * 2).div_ceil(SECTORS_PER_SECOND) as u32, &served);
    cd.cr = [0x6100, 0, 0, 1];
    cd.issue_command();
    let _ = cd.read16(0x0581_8000);
    cd.filters[3].mode = 0x47;
    cd.filters[3].true_conn = 5;
    cd.filters[3].false_conn = 7;
    cd.filters[3].fad = 150;
    cd.filters[3].range = 2;
    cd.filters[3].channel = 4;
    cd.filters[3].file = 6;
    cd.filters[3].submode = 0x20;
    cd.filters[3].submode_mask = 0x3f;
    cd.filters[3].coding_info = 0x11;
    cd.filters[3].coding_info_mask = 0x1f;
    cd.cr = [0x5500, 0, 0x0000, 151];
    cd.issue_command();

    let mut state = Vec::new();
    cd.save(&mut state);
    let (disc, _) = iso_disc(&image);
    let mut restored = SaturnCdBlock::new(Some(disc));
    let mut pos = 0usize;
    restored.load(&state, &mut pos).unwrap();
    assert_eq!(pos, state.len());

    assert_eq!(restored.cd_device_connection, cd.cd_device_connection);
    assert_eq!(restored.partitions[0].len(), cd.partitions[0].len());
    assert_eq!(restored.partitions[0][0].fad, cd.partitions[0][0].fad);
    assert_eq!(restored.partitions[0][0].raw.as_slice(), cd.partitions[0][0].raw.as_slice());
    assert_eq!(restored.data, cd.data);
    assert_eq!(restored.transfer_bytes_read, cd.transfer_bytes_read);
    assert_eq!(restored.fad_search_fad, cd.fad_search_fad);
    assert_eq!(restored.fad_search_pos, cd.fad_search_pos);
    assert_eq!(restored.fad_search_partition, cd.fad_search_partition);
    assert_eq!(restored.filters[3].mode, cd.filters[3].mode);
    assert_eq!(restored.filters[3].true_conn, cd.filters[3].true_conn);
    assert_eq!(restored.filters[3].false_conn, cd.filters[3].false_conn);
    assert_eq!(restored.filters[3].fad, cd.filters[3].fad);
    assert_eq!(restored.filters[3].range, cd.filters[3].range);
    assert_eq!(restored.filters[3].channel, cd.filters[3].channel);
    assert_eq!(restored.filters[3].file, cd.filters[3].file);
    assert_eq!(restored.filters[3].submode, cd.filters[3].submode);
    assert_eq!(restored.filters[3].submode_mask, cd.filters[3].submode_mask);
    assert_eq!(restored.filters[3].coding_info, cd.filters[3].coding_info);
    assert_eq!(restored.filters[3].coding_info_mask, cd.filters[3].coding_info_mask);
}

#[test]
fn cd_state_reads_back_between_other_bytes() {
    let (disc, _) = iso_disc(&[0x42u8; 2048]);
    let mut cd = SaturnCdBlock::new(Some(disc));
    cd.hirq = 0x0bc1;
    cd.cr = [0x1234, 0x5678, 0x9abc, 0xdef0];
    cd.phase = 12345;
    cd.cdda_phase = 777;
    cd.cdda_sample_index = 588;
    cd.cdda_samples.push_back([-1, 0x7fff]);

    let mut state = vec![0xaa, 0xbb, 0xcc];
    cd.save(&mut state);
    let end = state.len();
    state.extend_from_slice(&[1, 2, 3, 4]);

    let (disc, _) = iso_disc(&[0u8; 2048]);
    let mut restored = SaturnCdBlock::new(Some(disc));
    let mut pos = 3usize;
    restored.load(&state, &mut pos).unwrap();
    assert_eq!(pos, end);
    assert_eq!(restored.hirq, 0x0bc1);
    assert_eq!(restored.cr, [0x1234, 0x5678, 0x9abc, 0xdef0]);
    assert_eq!(restored.phase, 12345);
    assert_eq!(restored.cdda_phase, 777);
    assert_eq!(restored.cdda_sample_index, 588);
    assert_eq!(restored.cdda_samples.len(), 1);
    assert_eq!(restored.cdda_samples[0], [-1, 0x7fff]);
}

#[test]
fn cd_state_refuses_truncated_or_invalid_states_and_changes_nothing() {
    let (disc, _) = iso_disc(&[0u8; 2048]);
    let cd = SaturnCdBlock::new(Some(disc));
    let mut state = Vec::new();
    cd.save(&mut state);

    let (disc, _) = iso_disc(&[0u8; 2048]);
    let mut restored = SaturnCdBlock::new(Some(disc));
    restored.hirq = 0x0001;
    let mut pos = 0usize;
    assert!(restored.load(&state[..state.len() - 1], &mut pos).is_err());
    assert_eq!(pos, 0);
    assert_eq!(restored.hirq, 0x0001);

    // The head is 29 bytes and the host data is empty, so the device
    // connection byte follows the 4-byte data length.
    let mut bad = state.clone();
    bad[33] = 30;
    assert_eq!(
        restored.load(&bad, &mut pos),
        Err("Saturn CD device connection is invalid".to_string())
    );
    assert_eq!(pos, 0);
    assert_eq!(restored.hirq, 0x0001);

    let mut phased = state.clone();
    phased[21..29].copy_from_slice(&(SH2_HZ + 5).to_le_bytes());
    restored.load(&phased, &mut pos).unwrap();
    assert_eq!(restored.phase, 5);
}

#[test]
fn cd_data_tick_only_appends_sectors_read_at_the_drive_position() {
    let (disc, served) = iso_disc(&vec![0x11u8; 4 * 2048]);
    let mut cd = SaturnCdBlock::new(Some(disc));
    cd.cr = [0x3000, 0, 0, 0];
    cd.issue_command();
    cd.cr = [0x1080, 150, 0x0080, 4];
    cd.issue_command();
    let start_lba = cd.current_lba;
    let target = cd.target_lba;
    let cr = cd.cr;
    let held = cd.partitions[0].len();

    tick(&mut cd, (SH2_HZ * 2).div_ceil(SECTORS_PER_SECOND) as u32, &served);

    assert_eq!(cd.target_lba, target);
    assert_eq!(cd.cr, cr);
    assert!(cd.data.is_empty());
    assert_eq!(cd.current_lba, start_lba + 2);
    assert_eq!(cd.partitions[0].len(), held + 2);
    for sector in &cd.partitions[0][held..] {
        assert!(sector.fad >= start_lba + 150);
        assert!(sector.fad < cd.current_lba + 150);
    }
}
