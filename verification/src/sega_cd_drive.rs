//! Sega CD drive position and status, and the CD-drive (CDD) command
//! protocol the sub CPU speaks through the register chip: BCD digit
//! nibbles in, a nine-byte status block and its checksum nibble out.
use vstd::prelude::*;
use crate::saturn_cd_block::CdTrack;
use crate::sega_cd_gate::{SegaCdGate, byte_of, byte_write_read_back};
use vstd::arithmetic::div_mod::lemma_add_mod_noop;

verus! {

pub const CDD_STOP: u8 = 0x00;
pub const CDD_PLAY: u8 = 0x01;
pub const CDD_PAUSE: u8 = 0x04;
pub const CDD_OPEN: u8 = 0x05;
pub const CDD_TOC: u8 = 0x09;
pub const CDD_END: u8 = 0x0c;
pub const CDDA_FRAMES_PER_SECTOR: usize = 588;
pub const SECTOR_PERIOD: u64 = 12_500_000 / 75;

/// The drive: the disc's length and tracks, the read position, and where
/// reading and CD-DA playback stand.
pub struct SegaCdDrive {
    pub sectors: u32,
    pub tracks: Vec<CdTrack>,
    pub current_lba: u32,
    pub data_pos: usize,
    pub data_len: usize,
    pub reading: bool,
    pub sector_phase: u64,
    pub sector_ready: bool,
    pub end_of_disc: bool,
    pub status: u8,
    pub cdda_sample_index: usize,
    pub cdda_source_phase: u32,
    pub cdda_current: [i16; 2],
}

/// The last track starting at or before `lba`.
pub open spec fn track_for(tracks: Seq<CdTrack>, lba: u32) -> Option<CdTrack>
    decreases tracks.len(),
{
    if tracks.len() == 0 {
        None
    } else if tracks.last().start_lba <= lba {
        Some(tracks.last())
    } else {
        track_for(tracks.drop_last(), lba)
    }
}

/// The first track numbered `number`.
pub open spec fn track_numbered(tracks: Seq<CdTrack>, number: u8) -> Option<CdTrack>
    decreases tracks.len(),
{
    if tracks.len() == 0 {
        None
    } else if tracks[0].number == number {
        Some(tracks[0])
    } else {
        track_numbered(tracks.drop_first(), number)
    }
}

pub open spec fn sat_sub32(a: u32, b: u32) -> u32 {
    if a >= b { (a - b) as u32 } else { 0 }
}

/// Two BCD digits of `v`, capped at 99.
pub open spec fn pair(v: int) -> Seq<u8> {
    let c = if v > 99 { 99 } else { v };
    seq![(c / 10) as u8, (c % 10) as u8]
}

/// Minutes, seconds and frames of a frame count, as three digit pairs.
pub open spec fn time_digits(frames: int) -> Seq<u8> {
    pair(frames / 75 / 60) + pair(frames / 75 % 60) + pair(frames % 75)
}

/// The absolute time of `lba` (150 frames past it) as digit pairs.
pub open spec fn msf_digits(lba: u32) -> Seq<u8> {
    time_digits(if lba as int + 150 > u32::MAX { u32::MAX as int } else { lba as int + 150 })
}

/// The checksum nibble of a status block: the complement of its byte sum.
pub open spec fn checksum_nibble(block: Seq<u8>) -> u8 {
    ((255 - block_sum(block, block.len() as int) % 256) % 16) as u8
}

pub open spec fn block_sum(block: Seq<u8>, n: int) -> int
    decreases n,
{
    if n <= 0 {
        0
    } else {
        block_sum(block, n - 1) + block[n - 1]
    }
}

/// The status block of the register chip: bytes $38-$40.
pub open spec fn status_block(regs: [u16; 0x100]) -> Seq<u8> {
    Seq::new(9, |k: int| byte_of(regs, (0x38 + k) as u16))
}

impl SegaCdDrive {
    pub open spec fn wf(&self) -> bool {
        self.tracks@.len() < 0x1_0000
    }

    pub open spec fn cdda_reset(self) -> SegaCdDrive {
        SegaCdDrive { cdda_sample_index: CDDA_FRAMES_PER_SECTOR, cdda_source_phase: 0, cdda_current: [0, 0], ..self }
    }

    /// Reading started at `lba`: playing when it lies on the disc, else at
    /// the end.
    pub open spec fn started(self, lba: u32) -> SegaCdDrive {
        let reading = lba < self.sectors;
        SegaCdDrive {
            current_lba: lba,
            data_pos: 0,
            data_len: 0,
            reading,
            sector_phase: if reading { SECTOR_PERIOD } else { 0 },
            sector_ready: false,
            end_of_disc: !reading,
            status: if reading { CDD_PLAY } else { CDD_END },
            ..self.cdda_reset()
        }
    }

    /// Moved to `lba` (at most the disc's end) and paused there, or at the
    /// end when `lba` is past the disc.
    pub open spec fn sought(self, lba: u32) -> SegaCdDrive {
        let end = lba >= self.sectors;
        SegaCdDrive {
            current_lba: if lba < self.sectors { lba } else { self.sectors },
            data_pos: 0,
            data_len: 0,
            reading: false,
            sector_phase: 0,
            sector_ready: false,
            end_of_disc: end,
            status: if end { CDD_END } else { CDD_PAUSE },
            ..self.cdda_reset()
        }
    }

    pub open spec fn paused(self) -> SegaCdDrive {
        if self.status == CDD_PLAY {
            SegaCdDrive { reading: false, status: CDD_PAUSE, ..self }
        } else {
            self
        }
    }

    pub open spec fn resumed(self) -> SegaCdDrive {
        if self.status == CDD_PAUSE && (self.cdda_sample_index < CDDA_FRAMES_PER_SECTOR || self.current_lba
            < self.sectors) {
            SegaCdDrive { reading: true, status: CDD_PLAY, ..self }
        } else {
            self
        }
    }

    pub open spec fn stopped(self) -> SegaCdDrive {
        SegaCdDrive {
            current_lba: 0,
            reading: false,
            data_pos: 0,
            data_len: 0,
            sector_phase: 0,
            sector_ready: false,
            end_of_disc: false,
            status: CDD_TOC,
            ..self.cdda_reset()
        }
    }

    /// The position the drive reports: the sector just read while its data
    /// or samples are still being used.
    pub open spec fn position(self) -> u32 {
        if self.sector_ready || self.cdda_sample_index < CDDA_FRAMES_PER_SECTOR {
            sat_sub32(self.current_lba, 1)
        } else {
            self.current_lba
        }
    }

    /// The track at `lba`, clamped to the disc's last sector.
    pub open spec fn track_at(self, lba: u32) -> Option<CdTrack> {
        let last = sat_sub32(self.sectors, 1);
        track_for(self.tracks@, if lba < last { lba } else { last })
    }

    pub open spec fn track_flags(self, lba: u32) -> u8 {
        match self.track_at(lba) {
            Some(t) => if t.data { 0x04 } else { 0 },
            None => 0,
        }
    }

    /// The position report: absolute time, or time within the track.
    pub open spec fn position_block(self, request: u8, relative: bool) -> Seq<u8> {
        let p = self.position();
        let time = if relative {
            match self.track_at(p) {
                Some(t) => time_digits(sat_sub32(p, t.start_lba) as int),
                None => time_digits(p as int),
            }
        } else {
            msf_digits(p)
        };
        seq![self.status, request] + time + seq![self.track_flags(p)]
    }

    /// The table-of-contents report for `request`; `b46` and `b47` are the
    /// track digits a track-start request carries.
    pub open spec fn toc_block(self, request: u8, b46: u8, b47: u8) -> Seq<u8> {
        let zeros = seq![0u8, 0u8, 0u8, 0u8, 0u8, 0u8, 0u8];
        if request == 0 {
            self.position_block(0, false)
        } else if request == 1 {
            self.position_block(1, true)
        } else if request == 2 {
            match self.track_at(self.position()) {
                Some(t) if t.number != 0xaa => seq![self.status, 2u8] + pair(t.number as int) + seq![0u8, 0u8, 0u8, 0u8, 0u8],
                _ => seq![self.status, 2u8, 0x0au8, 0x0au8, 0u8, 0u8, 0u8, 0u8, 0u8],
            }
        } else if request == 3 {
            seq![self.status, 3u8] + msf_digits(self.sectors) + seq![0u8]
        } else if request == 4 {
            let first: u8 = if self.tracks@.len() > 0 { self.tracks@[0].number } else { 1 };
            let last: u8 = if self.tracks@.len() > 0 { self.tracks@.last().number } else { first };
            seq![self.status, 4u8] + pair(first as int) + pair(last as int) + seq![0u8, 0u8, 0u8]
        } else if request == 5 {
            let n = (if b46 < 9 { b46 } else { 9 }) * 10 + (if b47 < 9 { b47 } else { 9 });
            match track_numbered(self.tracks@, n as u8) {
                Some(t) => {
                    let time = msf_digits(t.start_lba);
                    let time = if t.data { time.update(4, time[4] | 0x08) } else { time };
                    seq![self.status, 5u8] + time + seq![t.number % 10]
                },
                None => seq![self.status, 5u8] + zeros,
            }
        } else {
            seq![self.status, request] + zeros
        }
    }
}

/// The frame address the command digits at $44-$49 give (minutes,
/// seconds, frames, each two BCD nibbles), less the 150-frame lead-in, or
/// None when a nibble is not a digit or the time is out of range.
pub open spec fn command_lba(regs: [u16; 0x100]) -> Option<u32> {
    let d = |k: int| (byte_of(regs, (0x44 + k) as u16) % 16) as int;
    if d(0) > 9 || d(1) > 9 || d(2) > 9 || d(3) > 9 || d(4) > 9 || d(5) > 9 {
        None
    } else {
        let minute = d(0) * 10 + d(1);
        let second = d(2) * 10 + d(3);
        let frame = d(4) * 10 + d(5);
        if second >= 60 || frame >= 75 {
            None
        } else {
            let total = minute * 60 * 75 + second * 75 + frame;
            Some(if total >= 150 { (total - 150) as u32 } else { 0 })
        }
    }
}

/// A CDD command carried out: the drive afterwards and the status block
/// it answers with (bytes $38-$40; `old` is the block before).
pub open spec fn cdd_command(drive: SegaCdDrive, regs: [u16; 0x100]) -> (SegaCdDrive, Seq<u8>) {
    let command = byte_of(regs, 0x42) % 16;
    let old = status_block(regs);
    let stop_block = seq![CDD_STOP, 0x0fu8, 0u8, 0u8, 0u8, 0u8, 0u8, 0u8, 0u8];
    if command == 0x00 {
        (drive, drive.position_block(0, false))
    } else if command == 0x01 || command == 0x0c {
        (drive.stopped(), stop_block)
    } else if command == 0x02 {
        (drive, drive.toc_block(byte_of(regs, 0x45) % 16, byte_of(regs, 0x46), byte_of(regs, 0x47)))
    } else if command == 0x03 || command == 0x04 {
        let moved = match command_lba(regs) {
            Some(lba) => if command == 0x03 { drive.started(lba) } else { drive.sought(lba) },
            None => drive,
        };
        (moved, moved.position_block(0, false))
    } else if command == 0x06 {
        (drive.paused(), old.update(0, drive.paused().status))
    } else if command == 0x07 {
        (drive.resumed(), old.update(0, drive.resumed().status))
    } else if command == 0x0d {
        (SegaCdDrive { status: CDD_OPEN, ..drive.stopped() }, stop_block.update(0, CDD_OPEN))
    } else {
        (drive, old.update(0, drive.status))
    }
}

fn pair_exec(v: u32) -> (r: (u8, u8))
    ensures
        seq![r.0, r.1] == pair(v as int),
{
    let c = if v > 99 { 99 } else { v };
    ((c / 10) as u8, (c % 10) as u8)
}

fn time_exec(frames: u32) -> (r: [u8; 6])
    ensures
        r@ == time_digits(frames as int),
{
    let m = pair_exec(frames / 75 / 60);
    let s = pair_exec(frames / 75 % 60);
    let f = pair_exec(frames % 75);
    let r = [m.0, m.1, s.0, s.1, f.0, f.1];
    assert(r@ =~= time_digits(frames as int));
    r
}

fn msf_exec(lba: u32) -> (r: [u8; 6])
    ensures
        r@ == msf_digits(lba),
{
    time_exec(lba.saturating_add(150))
}

fn block_of(a: u8, b: u8, time: [u8; 6], last: u8) -> (r: [u8; 9])
    ensures
        r@ == seq![a, b] + time@ + seq![last],
{
    let r = [a, b, time[0], time[1], time[2], time[3], time[4], time[5], last];
    assert(r@ =~= seq![a, b] + time@ + seq![last]);
    r
}

impl SegaCdDrive {
    fn reset_cdda_position(&mut self)
        ensures
            *final(self) == old(self).cdda_reset(),
    {
        self.cdda_sample_index = CDDA_FRAMES_PER_SECTOR;
        self.cdda_source_phase = 0;
        self.cdda_current = [0, 0];
    }

    /// Starts reading at `lba`.
    pub fn start_read(&mut self, lba: u32)
        ensures
            *final(self) == old(self).started(lba),
    {
        self.current_lba = lba;
        self.data_pos = 0;
        self.data_len = 0;
        self.reading = lba < self.sectors;
        self.sector_phase = if self.reading { SECTOR_PERIOD } else { 0 };
        self.sector_ready = false;
        self.end_of_disc = !self.reading;
        self.status = if self.reading { CDD_PLAY } else { CDD_END };
        self.reset_cdda_position();
    }

    /// Moves to `lba` and pauses there.
    pub fn seek(&mut self, lba: u32)
        ensures
            *final(self) == old(self).sought(lba),
    {
        self.current_lba = if lba < self.sectors { lba } else { self.sectors };
        self.data_pos = 0;
        self.data_len = 0;
        self.reading = false;
        self.sector_phase = 0;
        self.sector_ready = false;
        self.end_of_disc = lba >= self.sectors;
        self.status = if self.end_of_disc { CDD_END } else { CDD_PAUSE };
        self.reset_cdda_position();
    }

    pub fn pause(&mut self)
        ensures
            *final(self) == old(self).paused(),
    {
        if self.status == CDD_PLAY {
            self.reading = false;
            self.status = CDD_PAUSE;
        }
    }

    pub fn resume(&mut self)
        ensures
            *final(self) == old(self).resumed(),
    {
        if self.status == CDD_PAUSE && (self.cdda_sample_index < CDDA_FRAMES_PER_SECTOR || self.current_lba
            < self.sectors) {
            self.reading = true;
            self.status = CDD_PLAY;
        }
    }

    pub fn stop(&mut self)
        ensures
            *final(self) == old(self).stopped(),
    {
        self.current_lba = 0;
        self.reading = false;
        self.data_pos = 0;
        self.data_len = 0;
        self.sector_phase = 0;
        self.sector_ready = false;
        self.end_of_disc = false;
        self.status = CDD_TOC;
        self.reset_cdda_position();
    }

    /// The position the drive reports.
    pub fn position_lba(&self) -> (r: u32)
        ensures
            r == self.position(),
    {
        if self.sector_ready || self.cdda_sample_index < CDDA_FRAMES_PER_SECTOR {
            self.current_lba.saturating_sub(1)
        } else {
            self.current_lba
        }
    }

    fn find_track(&self, lba: u32) -> (r: Option<CdTrack>)
        ensures
            r == track_for(self.tracks@, lba),
    {
        let mut i = self.tracks.len();
        assert(self.tracks@.subrange(0, i as int) =~= self.tracks@);
        while i > 0
            invariant
                i <= self.tracks@.len(),
                track_for(self.tracks@.subrange(0, i as int), lba) == track_for(self.tracks@, lba),
            decreases i,
        {
            let t = self.tracks[i - 1];
            assert(self.tracks@.subrange(0, i as int).last() == t);
            if t.start_lba <= lba {
                return Some(t);
            }
            assert(self.tracks@.subrange(0, i as int).drop_last() =~= self.tracks@.subrange(0, i - 1));
            i = i - 1;
        }
        None
    }

    fn find_numbered(&self, number: u8) -> (r: Option<CdTrack>)
        ensures
            r == track_numbered(self.tracks@, number),
    {
        let n = self.tracks.len();
        let mut i: usize = 0;
        assert(self.tracks@.subrange(0, n as int) =~= self.tracks@);
        while i < n
            invariant
                i <= n,
                n == self.tracks@.len(),
                track_numbered(self.tracks@.subrange(i as int, n as int), number) == track_numbered(self.tracks@, number),
            decreases n - i,
        {
            let t = self.tracks[i];
            assert(self.tracks@.subrange(i as int, n as int)[0] == t);
            if t.number == number {
                return Some(t);
            }
            assert(self.tracks@.subrange(i as int, n as int).drop_first() =~= self.tracks@.subrange(i + 1, n as int));
            i = i + 1;
        }
        None
    }

    /// The track at `lba`, clamped to the disc's last sector.
    pub fn track_at_lba(&self, lba: u32) -> (r: Option<CdTrack>)
        ensures
            r == self.track_at(lba),
    {
        let last = self.sectors.saturating_sub(1);
        self.find_track(if lba < last { lba } else { last })
    }

    fn flags_at(&self, lba: u32) -> (r: u8)
        ensures
            r == self.track_flags(lba),
    {
        match self.track_at_lba(lba) {
            Some(t) => if t.data { 0x04 } else { 0 },
            None => 0,
        }
    }

    fn position_report(&self, request: u8, relative: bool) -> (r: [u8; 9])
        ensures
            r@ == self.position_block(request, relative),
    {
        let p = self.position_lba();
        let time = if relative {
            match self.track_at_lba(p) {
                Some(t) => time_exec(p.saturating_sub(t.start_lba)),
                None => time_exec(p),
            }
        } else {
            msf_exec(p)
        };
        block_of(self.status, request, time, self.flags_at(p))
    }

    fn toc_report(&self, request: u8, b46: u8, b47: u8) -> (r: [u8; 9])
        requires
            self.wf(),
        ensures
            r@ == self.toc_block(request, b46, b47),
    {
        let st = self.status;
        let r = if request == 0 {
            self.position_report(0, false)
        } else if request == 1 {
            self.position_report(1, true)
        } else if request == 2 {
            match self.track_at_lba(self.position_lba()) {
                Some(t) if t.number != 0xaa => {
                    let (a, b) = pair_exec(t.number as u32);
                    [st, 2, a, b, 0, 0, 0, 0, 0]
                },
                _ => [st, 2, 0x0a, 0x0a, 0, 0, 0, 0, 0],
            }
        } else if request == 3 {
            block_of(st, 3, msf_exec(self.sectors), 0)
        } else if request == 4 {
            let first: u8 = if self.tracks.len() > 0 { self.tracks[0].number } else { 1 };
            let last: u8 = if self.tracks.len() > 0 { self.tracks[self.tracks.len() - 1].number } else { first };
            let (f0, f1) = pair_exec(first as u32);
            let (l0, l1) = pair_exec(last as u32);
            [st, 4, f0, f1, l0, l1, 0, 0, 0]
        } else if request == 5 {
            let n = (if b46 < 9 { b46 } else { 9 }) * 10 + (if b47 < 9 { b47 } else { 9 });
            match self.find_numbered(n) {
                Some(t) => {
                    let mut time = msf_exec(t.start_lba);
                    if t.data {
                        time[4] = time[4] | 0x08;
                    }
                    block_of(st, 5, time, t.number % 10)
                },
                None => [st, 5, 0, 0, 0, 0, 0, 0, 0],
            }
        } else {
            [st, request, 0, 0, 0, 0, 0, 0, 0]
        };
        assert(r@ =~= self.toc_block(request, b46, b47));
        r
    }
}

/// The frame address the command digits give (see `command_lba`).
pub fn cdd_command_lba(gate: &SegaCdGate) -> (r: Option<u32>)
    ensures
        r == command_lba(gate.regs),
{
    let d0 = gate.byte(0x44) % 16;
    let d1 = gate.byte(0x45) % 16;
    let d2 = gate.byte(0x46) % 16;
    let d3 = gate.byte(0x47) % 16;
    let d4 = gate.byte(0x48) % 16;
    let d5 = gate.byte(0x49) % 16;
    if d0 > 9 || d1 > 9 || d2 > 9 || d3 > 9 || d4 > 9 || d5 > 9 {
        return None;
    }
    let minute = d0 as u32 * 10 + d1 as u32;
    let second = d2 as u32 * 10 + d3 as u32;
    let frame = d4 as u32 * 10 + d5 as u32;
    if second >= 60 || frame >= 75 {
        return None;
    }
    Some((minute * 60 * 75 + second * 75 + frame).saturating_sub(150))
}

fn read_status(gate: &SegaCdGate) -> (r: [u8; 9])
    ensures
        r@ == status_block(gate.regs),
{
    let r = [
        gate.byte(0x38),
        gate.byte(0x39),
        gate.byte(0x3a),
        gate.byte(0x3b),
        gate.byte(0x3c),
        gate.byte(0x3d),
        gate.byte(0x3e),
        gate.byte(0x3f),
        gate.byte(0x40),
    ];
    assert(r@ =~= status_block(gate.regs));
    r
}

/// Writes the status block to $38-$40 and its checksum nibble to $41.
fn write_status(gate: &mut SegaCdGate, block: [u8; 9])
    ensures
        status_block(final(gate).regs) == block@,
        byte_of(final(gate).regs, 0x41) == checksum_nibble(block@),
        forall|o: u16| !(0x38 <= o % 0x200 <= 0x41) ==> byte_of(final(gate).regs, o) == byte_of(old(gate).regs, o),
        final(gate).pending == old(gate).pending,
        final(gate).timer_remaining == old(gate).timer_remaining,
        final(gate).sub_reset_pulse == old(gate).sub_reset_pulse,
{
    let mut k: u16 = 0;
    let mut sum: u8 = 0;
    while k < 9
        invariant
            k <= 9,
            sum as int == block_sum(block@, k as int) % 256,
            forall|j: int| 0 <= j < k ==> byte_of(gate.regs, (0x38 + j) as u16) == block@[j],
            forall|o: u16| !(0x38 <= o % 0x200 < 0x38 + k) ==> byte_of(gate.regs, o) == byte_of(old(gate).regs, o),
            gate.pending == old(gate).pending,
            gate.timer_remaining == old(gate).timer_remaining,
            gate.sub_reset_pulse == old(gate).sub_reset_pulse,
        decreases 9 - k,
    {
        let ghost before = gate.regs;
        let v = block[k as usize];
        gate.set_byte(0x38 + k, v);
        proof {
            assert forall|o: u16| true implies byte_of(gate.regs, o) == (if o % 0x200 == (0x38 + k) % 0x200 {
                v
            } else {
                byte_of(before, o)
            }) by {
                byte_write_read_back(before, (0x38 + k) as u16, v, o);
            }
            lemma_add_mod_noop(block_sum(block@, k as int), v as int, 256);
        }
        sum = sum.wrapping_add(v);
        k = k + 1;
    }
    proof {
        assert(block@.len() == 9);
    }
    let ghost before = gate.regs;
    let nibble = (!sum) & 0x0f;
    assert((!sum) & 0x0f == ((255 - sum) % 16) as u8) by (bit_vector);
    gate.set_byte(0x41, nibble);
    proof {
        assert forall|o: u16| true implies byte_of(gate.regs, o) == (if o % 0x200 == 0x41 {
            nibble
        } else {
            byte_of(before, o)
        }) by {
            byte_write_read_back(before, 0x41, nibble, o);
        }
        assert forall|j: int| 0 <= j < 9 implies byte_of(gate.regs, (0x38 + j) as u16) == block@[j] by {
            assert(((0x38 + j) as u16) % 0x200 != 0x41);
        }
        assert(status_block(gate.regs) =~= block@);
    }
}

/// Carries out the CDD command in register byte $42 (low nibble): the
/// drive moves as `cdd_command` says, the status block and its checksum
/// are written, and the sub CPU's CDD interrupt (level 4) is raised when
/// enabled in byte $37.
pub fn process_cdd_command(gate: &mut SegaCdGate, drive: &mut SegaCdDrive)
    requires
        old(drive).wf(),
    ensures
        final(drive).wf(),
        (*final(drive), status_block(final(gate).regs)) == cdd_command(*old(drive), old(gate).regs),
        byte_of(final(gate).regs, 0x41) == checksum_nibble(cdd_command(*old(drive), old(gate).regs).1),
        forall|o: u16| !(0x38 <= o % 0x200 <= 0x41) ==> byte_of(final(gate).regs, o) == byte_of(old(gate).regs, o),
        final(gate).pending == (if byte_of(old(gate).regs, 0x37) & 0x04 != 0 {
            old(gate).pending | 0x10
        } else {
            old(gate).pending
        }),
        final(gate).timer_remaining == old(gate).timer_remaining,
        final(gate).sub_reset_pulse == old(gate).sub_reset_pulse,
{
    let command = gate.byte(0x42) % 16;
    let old_block = read_status(gate);
    let block = if command == 0x00 {
        drive.position_report(0, false)
    } else if command == 0x01 || command == 0x0c {
        drive.stop();
        [CDD_STOP, 0x0f, 0, 0, 0, 0, 0, 0, 0]
    } else if command == 0x02 {
        drive.toc_report(gate.byte(0x45) % 16, gate.byte(0x46), gate.byte(0x47))
    } else if command == 0x03 || command == 0x04 {
        match cdd_command_lba(gate) {
            Some(lba) => {
                if command == 0x03 {
                    drive.start_read(lba);
                } else {
                    drive.seek(lba);
                }
            },
            None => {},
        }
        drive.position_report(0, false)
    } else if command == 0x06 {
        drive.pause();
        let mut b = old_block;
        b[0] = drive.status;
        b
    } else if command == 0x07 {
        drive.resume();
        let mut b = old_block;
        b[0] = drive.status;
        b
    } else if command == 0x0d {
        drive.stop();
        drive.status = CDD_OPEN;
        [CDD_OPEN, 0x0f, 0, 0, 0, 0, 0, 0, 0]
    } else {
        let mut b = old_block;
        b[0] = drive.status;
        b
    };
    assert(block@ =~= cdd_command(*old(drive), old(gate).regs).1);
    let interrupt = gate.byte(0x37) & 0x04 != 0;
    write_status(gate, block);
    if interrupt {
        gate.pending = gate.pending | 0x10;
    }
}

impl SegaCdDrive {
    /// A drive with `disc`'s sectors and tracks loaded: stopped at the
    /// start, reporting the table of contents, no sample pending.
    pub fn new(sectors: u32, tracks: Vec<CdTrack>) -> (d: Self)
        ensures
            d.sectors == sectors,
            d.tracks@ == tracks@,
            d.current_lba == 0,
            d.data_pos == 0 && d.data_len == 0,
            !d.reading && !d.sector_ready && !d.end_of_disc,
            d.sector_phase == 0,
            d.status == CDD_TOC,
            d.cdda_sample_index == CDDA_FRAMES_PER_SECTOR,
            d.cdda_source_phase == 0,
            d.cdda_current == [0i16, 0i16],
    {
        SegaCdDrive {
            sectors,
            tracks,
            current_lba: 0,
            data_pos: 0,
            data_len: 0,
            reading: false,
            sector_phase: 0,
            sector_ready: false,
            end_of_disc: false,
            status: CDD_TOC,
            cdda_sample_index: CDDA_FRAMES_PER_SECTOR,
            cdda_source_phase: 0,
            cdda_current: [0, 0],
        }
    }
}

proof fn lemma_block_sum_bound(block: Seq<u8>, n: int)
    requires
        0 <= n <= block.len(),
    ensures
        0 <= block_sum(block, n) <= 255 * n,
    decreases n,
{
    if n > 0 {
        lemma_block_sum_bound(block, n - 1);
    }
}

/// The checksum nibble balances its status block: the nine bytes and the
/// nibble sum to 15 modulo 16, as the host checks.
pub proof fn cdd_checksum_balances(block: Seq<u8>)
    requires
        block.len() == 9,
    ensures
        (block_sum(block, 9) + checksum_nibble(block)) % 16 == 15,
{
    lemma_block_sum_bound(block, 9);
    let s = block_sum(block, 9) as u16;
    assert(((s as int) + ((255 - (s % 256)) % 16)) % 16 == 15) by (bit_vector);
}

} // verus!
