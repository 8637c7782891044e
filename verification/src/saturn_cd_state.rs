//! The CD block's save state: a byte layout of its own (little-endian
//! integers, length-prefixed byte runs), written by `save` and checked and
//! read back by `load`.
use vstd::prelude::*;
use crate::state_bytes::{
    le16_bytes, le32_bytes, le64_bytes, le16_at, le32_at, le64_at, push_le16, push_le32, push_le64, push_bytes,
    read_le16, read_le32, read_le64, lemma_le16_in, lemma_le32_in, lemma_le64_in, lemma_byte_in, lemma_split,
};
use crate::saturn_cd::{SaturnCdBufferedSector, SaturnCdFilter};
use crate::saturn_cd_block::{
    SaturnCdBlock,
    CdModel,
    CD_PARTITION_COUNT,
    CD_BUFFER_COUNT,
    CDDA_FRAMES_PER_SECTOR,
    SH2_HZ,
    buffered_in,
};

verus! {

/// The most host-transfer bytes a state may hold.
pub const CD_DATA_LIMIT: usize = 200 * 2352 + 4096;
/// The most queued CD-DA samples a state restores.
pub const CD_SAMPLE_LIMIT: u32 = 4096;
/// Bytes of a raw sector.
pub const RAW_SECTOR: usize = 2352;

/// The fixed registers at the head of the state.
#[derive(Clone, Copy)]
pub struct CdHead {
    pub hirq: u16,
    pub hirq_mask: u16,
    pub cr: [u16; 4],
    pub target_lba: u32,
    pub current_lba: u32,
    pub reading: bool,
    pub phase: u64,
}

/// The transfer and search registers after the filters.
#[derive(Clone, Copy)]
pub struct CdTail {
    pub get_sector_length: u8,
    pub put_sector_length: u8,
    pub actual_size_words: u32,
    pub fad_search_fad: u32,
    pub fad_search_pos: u16,
    pub fad_search_partition: u8,
    pub transfer_bytes_read: u32,
}

/// The audio playback state.
pub struct CdCdda {
    pub sector: Seq<u8>,
    pub sample_index: u16,
    pub phase: u64,
    pub samples: Seq<[i16; 2]>,
}

/// What a save state holds: every part of the block but the disc, each
/// buffered sector as its frame address and raw bytes.
pub struct CdStore {
    pub head: CdHead,
    pub data: Seq<u8>,
    pub cd_device_connection: u8,
    pub last_buffer_destination: u8,
    pub filters: Seq<SaturnCdFilter>,
    pub tail: CdTail,
    pub partitions: Seq<Seq<(u32, Seq<u8>)>>,
    pub cdda: CdCdda,
}

impl CdModel {
    /// Whether a save state carries this state over whole: phases below the
    /// CPU clock, the host data and the audio queue within what a state
    /// restores, every partition link and sector-length setting in range.
    pub open spec fn savable(self) -> bool {
        &&& self.phase < SH2_HZ
        &&& self.cdda_phase < SH2_HZ
        &&& self.data.len() <= CD_DATA_LIMIT
        &&& self.cdda_samples.len() <= CD_SAMPLE_LIMIT
        &&& self.cdda_sample_index <= CDDA_FRAMES_PER_SECTOR
        &&& link_ok(self.cd_device_connection)
        &&& link_ok(self.last_buffer_destination)
        &&& forall|i: int|
            0 <= i < self.filters.len() ==> link_ok((#[trigger] self.filters[i]).true_conn) && link_ok(
                self.filters[i].false_conn,
            )
        &&& self.get_sector_length <= 3
        &&& self.put_sector_length <= 3
        &&& self.fad_search_partition < CD_PARTITION_COUNT
    }

    /// The block's state as a save state holds it.
    pub open spec fn stored(self) -> CdStore {
        CdStore {
            head: CdHead {
                hirq: self.hirq,
                hirq_mask: self.hirq_mask,
                cr: self.cr,
                target_lba: self.target_lba,
                current_lba: self.current_lba,
                reading: self.reading,
                phase: self.phase,
            },
            data: self.data,
            cd_device_connection: self.cd_device_connection,
            last_buffer_destination: self.last_buffer_destination,
            filters: self.filters,
            tail: CdTail {
                get_sector_length: self.get_sector_length,
                put_sector_length: self.put_sector_length,
                actual_size_words: self.actual_size_words,
                fad_search_fad: self.fad_search_fad,
                fad_search_pos: self.fad_search_pos,
                fad_search_partition: self.fad_search_partition,
                transfer_bytes_read: self.transfer_bytes_read,
            },
            partitions: Seq::new(
                self.partitions.len(),
                |i: int| Seq::new(self.partitions[i].len(), |j: int| (self.partitions[i][j].fad, self.partitions[i][j].raw@)),
            ),
            cdda: CdCdda {
                sector: self.cdda_sector,
                sample_index: self.cdda_sample_index as u16,
                phase: self.cdda_phase,
                samples: self.cdda_samples,
            },
        }
    }
}

// ---- encoding ----

pub open spec fn head_bytes(h: CdHead) -> Seq<u8> {
    le16_bytes(h.hirq) + le16_bytes(h.hirq_mask) + le16_bytes(h.cr[0]) + le16_bytes(h.cr[1]) + le16_bytes(h.cr[2])
        + le16_bytes(h.cr[3]) + le32_bytes(h.target_lba) + le32_bytes(h.current_lba) + seq![
        if h.reading { 1u8 } else { 0u8 },
    ] + le64_bytes(h.phase)
}

pub open spec fn filter_bytes(f: SaturnCdFilter) -> Seq<u8> {
    seq![f.mode, f.true_conn, f.false_conn] + le32_bytes(f.fad) + le32_bytes(f.range) + seq![
        f.channel,
        f.file,
        f.submode,
        f.submode_mask,
        f.coding_info,
        f.coding_info_mask,
    ]
}

pub open spec fn filters_bytes(fs: Seq<SaturnCdFilter>, n: nat) -> Seq<u8>
    decreases n,
{
    if n == 0 {
        Seq::empty()
    } else {
        filters_bytes(fs, (n - 1) as nat) + filter_bytes(fs[n - 1])
    }
}

pub open spec fn tail_bytes(t: CdTail) -> Seq<u8> {
    seq![t.get_sector_length, t.put_sector_length] + le32_bytes(t.actual_size_words) + le32_bytes(t.fad_search_fad)
        + le16_bytes(t.fad_search_pos) + seq![t.fad_search_partition] + le32_bytes(t.transfer_bytes_read)
}

pub open spec fn sector_bytes(sector: (u32, Seq<u8>)) -> Seq<u8> {
    le32_bytes(sector.0) + le32_bytes(sector.1.len() as u32) + sector.1
}

pub open spec fn sectors_bytes(secs: Seq<(u32, Seq<u8>)>, n: nat) -> Seq<u8>
    decreases n,
{
    if n == 0 {
        Seq::empty()
    } else {
        sectors_bytes(secs, (n - 1) as nat) + sector_bytes(secs[n - 1])
    }
}

pub open spec fn partitions_bytes(ps: Seq<Seq<(u32, Seq<u8>)>>, n: nat) -> Seq<u8>
    decreases n,
{
    if n == 0 {
        Seq::empty()
    } else {
        partitions_bytes(ps, (n - 1) as nat) + le16_bytes(ps[n - 1].len() as u16) + sectors_bytes(
            ps[n - 1],
            ps[n - 1].len(),
        )
    }
}

pub open spec fn sample_bytes(sample: [i16; 2]) -> Seq<u8> {
    le16_bytes(sample[0] as u16) + le16_bytes(sample[1] as u16)
}

pub open spec fn samples_bytes(ss: Seq<[i16; 2]>, n: nat) -> Seq<u8>
    decreases n,
{
    if n == 0 {
        Seq::empty()
    } else {
        samples_bytes(ss, (n - 1) as nat) + sample_bytes(ss[n - 1])
    }
}

pub open spec fn cdda_bytes(c: CdCdda) -> Seq<u8> {
    le32_bytes(c.sector.len() as u32) + c.sector + le16_bytes(c.sample_index) + le64_bytes(c.phase) + le32_bytes(
        c.samples.len() as u32,
    ) + samples_bytes(c.samples, c.samples.len())
}

/// The save state's bytes for a block in state `st`.
pub open spec fn cd_state_bytes(st: CdStore) -> Seq<u8> {
    head_bytes(st.head) + le32_bytes(st.data.len() as u32) + st.data + seq![
        st.cd_device_connection,
        st.last_buffer_destination,
    ] + filters_bytes(st.filters, 24) + tail_bytes(st.tail) + partitions_bytes(st.partitions, 24) + cdda_bytes(st.cdda)
}

// ---- decoding ----

/// A partition link as a state may hold it: none ($FF) or a partition.
pub open spec fn link_ok(v: u8) -> bool {
    v == 0xff || v < CD_PARTITION_COUNT
}

pub open spec fn dec_head(s: Seq<u8>, p: int) -> Option<(CdHead, int)> {
    if p < 0 || p + 29 > s.len() {
        None
    } else {
        Some(
            (
                CdHead {
                    hirq: le16_at(s, p),
                    hirq_mask: le16_at(s, p + 2),
                    cr: [le16_at(s, p + 4), le16_at(s, p + 6), le16_at(s, p + 8), le16_at(s, p + 10)],
                    target_lba: le32_at(s, p + 12),
                    current_lba: le32_at(s, p + 16),
                    reading: s[p + 20] != 0,
                    phase: (le64_at(s, p + 21) % SH2_HZ) as u64,
                },
                p + 29,
            ),
        )
    }
}

pub open spec fn dec_data(s: Seq<u8>, p: int) -> Option<(Seq<u8>, int)> {
    if p < 0 || p + 4 > s.len() {
        None
    } else {
        let len = le32_at(s, p) as int;
        if len > CD_DATA_LIMIT || p + 4 + len > s.len() {
            None
        } else {
            Some((s.subrange(p + 4, p + 4 + len), p + 4 + len))
        }
    }
}

pub open spec fn dec_filter(s: Seq<u8>, p: int) -> Option<(SaturnCdFilter, int)> {
    if p < 0 || p + 17 > s.len() || !link_ok(s[p + 1]) || !link_ok(s[p + 2]) {
        None
    } else {
        Some(
            (
                SaturnCdFilter {
                    mode: s[p],
                    true_conn: s[p + 1],
                    false_conn: s[p + 2],
                    fad: le32_at(s, p + 3),
                    range: le32_at(s, p + 7),
                    channel: s[p + 11],
                    file: s[p + 12],
                    submode: s[p + 13],
                    submode_mask: s[p + 14],
                    coding_info: s[p + 15],
                    coding_info_mask: s[p + 16],
                },
                p + 17,
            ),
        )
    }
}

pub open spec fn dec_filters(s: Seq<u8>, p: int, n: nat) -> Option<(Seq<SaturnCdFilter>, int)>
    decreases n,
{
    if n == 0 {
        Some((Seq::empty(), p))
    } else {
        match dec_filters(s, p, (n - 1) as nat) {
            None => None,
            Some((fs, q)) => match dec_filter(s, q) {
                None => None,
                Some((f, r)) => Some((fs.push(f), r)),
            },
        }
    }
}

pub open spec fn dec_tail(s: Seq<u8>, p: int) -> Option<(CdTail, int)> {
    if p < 0 || p + 17 > s.len() || s[p] > 3 || s[p + 1] > 3 || s[p + 12] >= CD_PARTITION_COUNT {
        None
    } else {
        Some(
            (
                CdTail {
                    get_sector_length: s[p],
                    put_sector_length: s[p + 1],
                    actual_size_words: le32_at(s, p + 2),
                    fad_search_fad: le32_at(s, p + 6),
                    fad_search_pos: le16_at(s, p + 10),
                    fad_search_partition: s[p + 12],
                    transfer_bytes_read: le32_at(s, p + 13),
                },
                p + 17,
            ),
        )
    }
}

pub open spec fn dec_sector(s: Seq<u8>, p: int) -> Option<((u32, Seq<u8>), int)> {
    if p < 0 || p + 8 > s.len() || le32_at(s, p + 4) != RAW_SECTOR || p + 8 + RAW_SECTOR > s.len() {
        None
    } else {
        Some(((le32_at(s, p), s.subrange(p + 8, p + 8 + RAW_SECTOR)), p + 8 + RAW_SECTOR))
    }
}

pub open spec fn dec_sectors(s: Seq<u8>, p: int, n: nat) -> Option<(Seq<(u32, Seq<u8>)>, int)>
    decreases n,
{
    if n == 0 {
        Some((Seq::empty(), p))
    } else {
        match dec_sectors(s, p, (n - 1) as nat) {
            None => None,
            Some((xs, q)) => match dec_sector(s, q) {
                None => None,
                Some((x, r)) => Some((xs.push(x), r)),
            },
        }
    }
}

/// Sectors held across the partitions of `ps`.
pub open spec fn stored_count(ps: Seq<Seq<(u32, Seq<u8>)>>, n: int) -> int
    decreases n,
{
    if n <= 0 {
        0
    } else {
        stored_count(ps, n - 1) + ps[n - 1].len()
    }
}

pub open spec fn dec_partitions(s: Seq<u8>, p: int, n: nat) -> Option<(Seq<Seq<(u32, Seq<u8>)>>, int)>
    decreases n,
{
    if n == 0 {
        Some((Seq::empty(), p))
    } else {
        match dec_partitions(s, p, (n - 1) as nat) {
            None => None,
            Some((ps, q)) => if q < 0 || q + 2 > s.len() || stored_count(ps, ps.len() as int) + le16_at(s, q)
                > CD_BUFFER_COUNT {
                None
            } else {
                match dec_sectors(s, q + 2, le16_at(s, q) as nat) {
                    None => None,
                    Some((xs, r)) => Some((ps.push(xs), r)),
                }
            },
        }
    }
}

pub open spec fn dec_samples(s: Seq<u8>, p: int, n: nat) -> Option<(Seq<[i16; 2]>, int)>
    decreases n,
{
    if n == 0 {
        Some((Seq::empty(), p))
    } else {
        match dec_samples(s, p, (n - 1) as nat) {
            None => None,
            Some((xs, q)) => if q < 0 || q + 4 > s.len() {
                None
            } else {
                Some((xs.push([le16_at(s, q) as i16, le16_at(s, q + 2) as i16]), q + 4))
            },
        }
    }
}

pub open spec fn dec_cdda(s: Seq<u8>, p: int) -> Option<(CdCdda, int)> {
    if p < 0 || p + 4 > s.len() || le32_at(s, p) != RAW_SECTOR || p + 4 + RAW_SECTOR + 14 > s.len() {
        None
    } else {
        let q = p + 4 + RAW_SECTOR;
        let index = le16_at(s, q);
        let count = if le32_at(s, q + 10) > CD_SAMPLE_LIMIT { CD_SAMPLE_LIMIT } else { le32_at(s, q + 10) };
        if index > CDDA_FRAMES_PER_SECTOR {
            None
        } else {
            match dec_samples(s, q + 14, count as nat) {
                None => None,
                Some((samples, r)) => Some(
                    (
                        CdCdda {
                            sector: s.subrange(p + 4, q),
                            sample_index: index,
                            phase: (le64_at(s, q + 2) % SH2_HZ) as u64,
                            samples,
                        },
                        r,
                    ),
                ),
            }
        }
    }
}

/// The state at `pos` of `s`, and where it ends, when it is whole and
/// valid: the host data within its limit, every partition link and
/// sector-length setting in range, at most 200 sectors of 2352 bytes,
/// the audio sector whole and its sample index in range. Phases read
/// modulo the CPU clock; at most 4096 samples are read.
pub open spec fn cd_state_decode(s: Seq<u8>, pos: int) -> Option<(CdStore, int)> {
    match dec_head(s, pos) {
        None => None,
        Some((head, p1)) => match dec_data(s, p1) {
            None => None,
            Some((data, p2)) => if p2 + 2 > s.len() || !link_ok(s[p2]) || !link_ok(s[p2 + 1]) {
                None
            } else {
                match dec_filters(s, p2 + 2, 24) {
                    None => None,
                    Some((filters, p3)) => match dec_tail(s, p3) {
                        None => None,
                        Some((tail, p4)) => match dec_partitions(s, p4, 24) {
                            None => None,
                            Some((partitions, p5)) => match dec_cdda(s, p5) {
                                None => None,
                                Some((cdda, p6)) => Some(
                                    (
                                        CdStore {
                                            head,
                                            data,
                                            cd_device_connection: s[p2],
                                            last_buffer_destination: s[p2 + 1],
                                            filters,
                                            tail,
                                            partitions,
                                            cdda,
                                        },
                                        p6,
                                    ),
                                ),
                            },
                        },
                    },
                }
            },
        },
    }
}

/// Whether `s` holds a whole and valid state at `pos`.
pub open spec fn cd_state_valid(s: Seq<u8>, pos: int) -> bool {
    cd_state_decode(s, pos) is Some
}

fn push_filter(out: &mut Vec<u8>, f: &SaturnCdFilter)
    ensures
        final(out)@ == old(out)@ + filter_bytes(*f),
{
    out.push(f.mode);
    out.push(f.true_conn);
    out.push(f.false_conn);
    push_le32(out, f.fad);
    push_le32(out, f.range);
    out.push(f.channel);
    out.push(f.file);
    out.push(f.submode);
    out.push(f.submode_mask);
    out.push(f.coding_info);
    out.push(f.coding_info_mask);
    assert(out@ =~= old(out)@ + filter_bytes(*f));
}

fn push_sectors(out: &mut Vec<u8>, secs: &Vec<SaturnCdBufferedSector>)
    ensures
        final(out)@ == old(out)@ + sectors_bytes(
            Seq::new(secs@.len(), |j: int| (secs@[j].fad, secs@[j].raw@)),
            secs@.len(),
        ),
{
    let ghost view = Seq::new(secs@.len(), |j: int| (secs@[j].fad, secs@[j].raw@));
    let mut j: usize = 0;
    while j < secs.len()
        invariant
            j <= secs@.len(),
            view == Seq::new(secs@.len(), |k: int| (secs@[k].fad, secs@[k].raw@)),
            out@ == old(out)@ + sectors_bytes(view, j as nat),
        decreases secs@.len() - j,
    {
        let ghost before = out@;
        push_le32(out, secs[j].fad);
        push_le32(out, 2352);
        push_bytes(out, secs[j].raw.as_slice());
        assert(view[j as int].1.len() == 2352);
        assert(out@ =~= before + sector_bytes(view[j as int]));
        j = j + 1;
        assert(out@ =~= old(out)@ + sectors_bytes(view, j as nat));
    }
}

fn read_head(s: &[u8], p: usize) -> (r: Option<(CdHead, usize)>)
    ensures
        r is Some <==> dec_head(s@, p as int) is Some,
        r matches Some((h, q)) ==> dec_head(s@, p as int) == Some((h, q as int)),
{
    if p > s.len() || s.len() - p < 29 {
        return None;
    }
    let hirq = read_le16(s, p).unwrap();
    let hirq_mask = read_le16(s, p + 2).unwrap();
    let c0 = read_le16(s, p + 4).unwrap();
    let c1 = read_le16(s, p + 6).unwrap();
    let c2 = read_le16(s, p + 8).unwrap();
    let c3 = read_le16(s, p + 10).unwrap();
    let target_lba = read_le32(s, p + 12).unwrap();
    let current_lba = read_le32(s, p + 16).unwrap();
    let phase = read_le64(s, p + 21).unwrap() % SH2_HZ;
    let h = CdHead {
        hirq,
        hirq_mask,
        cr: [c0, c1, c2, c3],
        target_lba,
        current_lba,
        reading: s[p + 20] != 0,
        phase,
    };
    assert(h.cr =~= [le16_at(s@, p + 4), le16_at(s@, p + 6), le16_at(s@, p + 8), le16_at(s@, p + 10)]);
    Some((h, p + 29))
}

fn read_data(s: &[u8], p: usize) -> (r: Option<(std::collections::VecDeque<u8>, usize)>)
    ensures
        r is Some <==> dec_data(s@, p as int) is Some,
        r matches Some((d, q)) ==> dec_data(s@, p as int) == Some((d@, q as int)),
{
    let n = s.len();
    let len = match read_le32(s, p) {
        Some(v) => v as usize,
        None => return None,
    };
    if len > CD_DATA_LIMIT || s.len() - (p + 4) < len {
        return None;
    }
    let mut data: std::collections::VecDeque<u8> = std::collections::VecDeque::new();
    let mut i: usize = 0;
    while i < len
        invariant
            i <= len,
            p + 4 + len <= s@.len(),
            s@.len() <= usize::MAX,
            data@ == s@.subrange(p + 4, p + 4 + i),
        decreases len - i,
    {
        data.push_back(s[p + 4 + i]);
        i = i + 1;
        assert(data@ =~= s@.subrange(p + 4, p + 4 + i));
    }
    Some((data, p + 4 + len))
}

fn link_ok_exec(v: u8) -> (r: bool)
    ensures
        r == link_ok(v),
{
    v == 0xff || (v as usize) < CD_PARTITION_COUNT
}

fn read_filter(s: &[u8], p: usize) -> (r: Option<(SaturnCdFilter, usize)>)
    ensures
        r is Some <==> dec_filter(s@, p as int) is Some,
        r matches Some((f, q)) ==> dec_filter(s@, p as int) == Some((f, q as int)),
{
    if p > s.len() || s.len() - p < 17 || !link_ok_exec(s[p + 1]) || !link_ok_exec(s[p + 2]) {
        return None;
    }
    let f = SaturnCdFilter {
        mode: s[p],
        true_conn: s[p + 1],
        false_conn: s[p + 2],
        fad: read_le32(s, p + 3).unwrap(),
        range: read_le32(s, p + 7).unwrap(),
        channel: s[p + 11],
        file: s[p + 12],
        submode: s[p + 13],
        submode_mask: s[p + 14],
        coding_info: s[p + 15],
        coding_info_mask: s[p + 16],
    };
    Some((f, p + 17))
}

fn read_tail(s: &[u8], p: usize) -> (r: Option<(CdTail, usize)>)
    ensures
        r is Some <==> dec_tail(s@, p as int) is Some,
        r matches Some((t, q)) ==> dec_tail(s@, p as int) == Some((t, q as int)),
{
    if p > s.len() || s.len() - p < 17 || s[p] > 3 || s[p + 1] > 3 || (s[p + 12] as usize) >= CD_PARTITION_COUNT {
        return None;
    }
    let t = CdTail {
        get_sector_length: s[p],
        put_sector_length: s[p + 1],
        actual_size_words: read_le32(s, p + 2).unwrap(),
        fad_search_fad: read_le32(s, p + 6).unwrap(),
        fad_search_pos: read_le16(s, p + 10).unwrap(),
        fad_search_partition: s[p + 12],
        transfer_bytes_read: read_le32(s, p + 13).unwrap(),
    };
    Some((t, p + 17))
}

fn raw_at(s: &[u8], p: usize) -> (r: [u8; 2352])
    requires
        p + RAW_SECTOR <= s@.len(),
    ensures
        r@ == s@.subrange(p as int, p + RAW_SECTOR),
{
    let n = s.len();
    let mut raw = [0u8; 2352];
    let mut k: usize = 0;
    while k < 2352
        invariant
            k <= 2352,
            n == s@.len(),
            p + 2352 <= n,
            forall|j: int| 0 <= j < k ==> raw@[j] == s@[p + j],
        decreases 2352 - k,
    {
        raw[k] = s[p + k];
        k = k + 1;
    }
    assert(raw@ =~= s@.subrange(p as int, p + RAW_SECTOR));
    raw
}

fn read_sector(s: &[u8], p: usize) -> (r: Option<(SaturnCdBufferedSector, usize)>)
    ensures
        r is Some <==> dec_sector(s@, p as int) is Some,
        r matches Some((x, q)) ==> dec_sector(s@, p as int) == Some(((x.fad, x.raw@), q as int)),
{
    let n = s.len();
    let fad = match read_le32(s, p) {
        Some(v) => v,
        None => return None,
    };
    let len = match read_le32(s, p + 4) {
        Some(v) => v,
        None => return None,
    };
    if len != 2352 || n - (p + 8) < 2352 {
        return None;
    }
    let raw = raw_at(s, p + 8);
    Some((SaturnCdBufferedSector { fad, raw: Box::new(raw) }, p + 8 + 2352))
}

/// The sectors of `v` as frame addresses and raw bytes.
pub open spec fn sector_views(v: Seq<SaturnCdBufferedSector>) -> Seq<(u32, Seq<u8>)> {
    Seq::new(v.len(), |j: int| (v[j].fad, v[j].raw@))
}

fn read_sectors(s: &[u8], p: usize, n: usize) -> (r: Option<(Vec<SaturnCdBufferedSector>, usize)>)
    ensures
        r is Some <==> dec_sectors(s@, p as int, n as nat) is Some,
        r matches Some((xs, q)) ==> dec_sectors(s@, p as int, n as nat) == Some((sector_views(xs@), q as int)),
{
    let mut xs: Vec<SaturnCdBufferedSector> = Vec::new();
    let mut q = p;
    let mut k: usize = 0;
    while k < n
        invariant
            k <= n,
            dec_sectors(s@, p as int, k as nat) == Some((sector_views(xs@), q as int)),
        decreases n - k,
    {
        match read_sector(s, q) {
            Some((x, r)) => {
                let ghost before = xs@;
                xs.push(x);
                assert(sector_views(xs@) =~= sector_views(before).push((x.fad, x.raw@)));
                q = r;
            },
            None => {
                proof {
                    lemma_dec_sectors_fails(s@, p as int, k as nat, n as nat);
                }
                return None;
            },
        }
        k = k + 1;
    }
    Some((xs, q))
}

proof fn lemma_dec_sectors_fails(s: Seq<u8>, p: int, k: nat, n: nat)
    requires
        k < n,
        dec_sectors(s, p, k) is Some,
        dec_sector(s, dec_sectors(s, p, k).unwrap().1) is None,
    ensures
        dec_sectors(s, p, n) is None,
    decreases n - k,
{
    if k + 1 < n {
        lemma_dec_sectors_none_on(s, p, (k + 1) as nat, n);
    }
}

proof fn lemma_dec_sectors_none_on(s: Seq<u8>, p: int, k: nat, n: nat)
    requires
        k <= n,
        dec_sectors(s, p, k) is None,
    ensures
        dec_sectors(s, p, n) is None,
    decreases n - k,
{
    if k < n {
        lemma_dec_sectors_none_on(s, p, (k + 1) as nat, n);
    }
}

proof fn lemma_dec_filters_none_on(s: Seq<u8>, p: int, k: nat, n: nat)
    requires
        k <= n,
        dec_filters(s, p, k) is None,
    ensures
        dec_filters(s, p, n) is None,
    decreases n - k,
{
    if k < n {
        lemma_dec_filters_none_on(s, p, (k + 1) as nat, n);
    }
}

proof fn lemma_dec_partitions_none_on(s: Seq<u8>, p: int, k: nat, n: nat)
    requires
        k <= n,
        dec_partitions(s, p, k) is None,
    ensures
        dec_partitions(s, p, n) is None,
    decreases n - k,
{
    if k < n {
        lemma_dec_partitions_none_on(s, p, (k + 1) as nat, n);
    }
}

proof fn lemma_dec_samples_none_on(s: Seq<u8>, p: int, k: nat, n: nat)
    requires
        k <= n,
        dec_samples(s, p, k) is None,
    ensures
        dec_samples(s, p, n) is None,
    decreases n - k,
{
    if k < n {
        lemma_dec_samples_none_on(s, p, (k + 1) as nat, n);
    }
}

fn read_filters(s: &[u8], p: usize) -> (r: Option<([SaturnCdFilter; 24], usize)>)
    ensures
        r is Some <==> dec_filters(s@, p as int, 24) is Some,
        r matches Some((fs, q)) ==> dec_filters(s@, p as int, 24) == Some((fs@, q as int)),
{
    let blank = SaturnCdFilter {
        mode: 0,
        true_conn: 0,
        false_conn: 0,
        fad: 0,
        range: 0,
        channel: 0,
        file: 0,
        submode: 0,
        submode_mask: 0,
        coding_info: 0,
        coding_info_mask: 0,
    };
    let mut fs = [blank; 24];
    let mut q = p;
    let mut k: usize = 0;
    while k < 24
        invariant
            k <= 24,
            dec_filters(s@, p as int, k as nat) == Some((fs@.subrange(0, k as int), q as int)),
        decreases 24 - k,
    {
        match read_filter(s, q) {
            Some((f, r)) => {
                let ghost before = fs@.subrange(0, k as int);
                fs[k] = f;
                assert(fs@.subrange(0, k + 1) =~= before.push(f));
                q = r;
            },
            None => {
                proof {
                    lemma_dec_filters_none_on(s@, p as int, (k + 1) as nat, 24);
                }
                return None;
            },
        }
        k = k + 1;
    }
    assert(fs@.subrange(0, 24) =~= fs@);
    Some((fs, q))
}

/// The buffered sectors of a partition list, as a save state holds them.
pub open spec fn partition_views(v: Seq<Vec<SaturnCdBufferedSector>>) -> Seq<Seq<(u32, Seq<u8>)>> {
    Seq::new(v.len(), |i: int| sector_views(v[i]@))
}

fn read_partitions(s: &[u8], p: usize) -> (r: Option<(Vec<Vec<SaturnCdBufferedSector>>, usize)>)
    ensures
        r is Some <==> dec_partitions(s@, p as int, 24) is Some,
        r matches Some((ps, q)) ==> dec_partitions(s@, p as int, 24) == Some((partition_views(ps@), q as int)),
        r matches Some((ps, q)) ==> ps@.len() == 24 && stored_count(partition_views(ps@), 24) <= CD_BUFFER_COUNT,
{
    let n = s.len();
    let mut ps: Vec<Vec<SaturnCdBufferedSector>> = Vec::new();
    let mut q = p;
    let mut total: usize = 0;
    let mut k: usize = 0;
    while k < 24
        invariant
            k <= 24,
            n == s@.len(),
            ps@.len() == k,
            total == stored_count(partition_views(ps@), k as int),
            total <= CD_BUFFER_COUNT,
            dec_partitions(s@, p as int, k as nat) == Some((partition_views(ps@), q as int)),
        decreases 24 - k,
    {
        let count = match read_le16(s, q) {
            Some(v) => v,
            None => {
                proof {
                    lemma_dec_partitions_none_on(s@, p as int, (k + 1) as nat, 24);
                }
                return None;
            },
        };
        if total + count as usize > CD_BUFFER_COUNT {
            proof {
                lemma_dec_partitions_none_on(s@, p as int, (k + 1) as nat, 24);
            }
            return None;
        }
        match read_sectors(s, q + 2, count as usize) {
            Some((xs, r)) => {
                let ghost before = ps@;
                ps.push(xs);
                assert(partition_views(ps@) =~= partition_views(before).push(sector_views(xs@)));
                assert(partition_views(ps@).subrange(0, k as int) =~= partition_views(before));
                proof {
                    lemma_stored_count_prefix(partition_views(ps@), partition_views(before), k as int);
                    lemma_dec_sectors_len(s@, q + 2, count as nat);
                    assert(partition_views(ps@)[k as int].len() == count);
                }
                total = total + count as usize;
                q = r;
            },
            None => {
                proof {
                    lemma_dec_partitions_none_on(s@, p as int, (k + 1) as nat, 24);
                }
                return None;
            },
        }
        k = k + 1;
    }
    Some((ps, q))
}

proof fn lemma_dec_sectors_len(s: Seq<u8>, p: int, n: nat)
    requires
        dec_sectors(s, p, n) is Some,
    ensures
        dec_sectors(s, p, n).unwrap().0.len() == n,
    decreases n,
{
    if n > 0 {
        lemma_dec_sectors_len(s, p, (n - 1) as nat);
    }
}

proof fn lemma_stored_count_prefix(a: Seq<Seq<(u32, Seq<u8>)>>, b: Seq<Seq<(u32, Seq<u8>)>>, n: int)
    requires
        0 <= n <= b.len(),
        n <= a.len(),
        forall|i: int| 0 <= i < n ==> a[i] == b[i],
    ensures
        stored_count(a, n) == stored_count(b, n),
    decreases n,
{
    if n > 0 {
        lemma_stored_count_prefix(a, b, n - 1);
    }
}

fn read_samples(s: &[u8], p: usize, n: usize) -> (r: Option<(std::collections::VecDeque<[i16; 2]>, usize)>)
    ensures
        r is Some <==> dec_samples(s@, p as int, n as nat) is Some,
        r matches Some((xs, q)) ==> dec_samples(s@, p as int, n as nat) == Some((xs@, q as int)),
{
    let len = s.len();
    let mut xs: std::collections::VecDeque<[i16; 2]> = std::collections::VecDeque::new();
    let mut q = p;
    let mut k: usize = 0;
    while k < n
        invariant
            k <= n,
            len == s@.len(),
            dec_samples(s@, p as int, k as nat) == Some((xs@, q as int)),
        decreases n - k,
    {
        let left = read_le16(s, q);
        let right = if q <= usize::MAX - 2 { read_le16(s, q + 2) } else { None };
        match (left, right) {
            (Some(a), Some(b)) => {
                let sample = [a as i16, b as i16];
                let ghost before = xs@;
                xs.push_back(sample);
                assert(sample =~= [le16_at(s@, q as int) as i16, le16_at(s@, q + 2) as i16]);
                q = q + 4;
            },
            _ => {
                proof {
                    assert(dec_samples(s@, p as int, (k + 1) as nat) is None);
                    lemma_dec_samples_none_on(s@, p as int, (k + 1) as nat, n as nat);
                }
                return None;
            },
        }
        k = k + 1;
    }
    Some((xs, q))
}

fn read_cdda(s: &[u8], p: usize) -> (r: Option<(Box<[u8; 2352]>, u16, u64, std::collections::VecDeque<[i16; 2]>, usize)>)
    ensures
        r is Some <==> dec_cdda(s@, p as int) is Some,
        r matches Some((sector, index, phase, samples, q)) ==> dec_cdda(s@, p as int) == Some(
            (CdCdda { sector: sector@, sample_index: index, phase, samples: samples@ }, q as int),
        ),
{
    let n = s.len();
    let len = match read_le32(s, p) {
        Some(v) => v,
        None => return None,
    };
    if len != 2352 || n - (p + 4) < 2352 + 14 {
        return None;
    }
    let sector = raw_at(s, p + 4);
    let q = p + 4 + 2352;
    let index = read_le16(s, q).unwrap();
    let phase = read_le64(s, q + 2).unwrap() % SH2_HZ;
    let stated = read_le32(s, q + 10).unwrap();
    let count = if stated > CD_SAMPLE_LIMIT { CD_SAMPLE_LIMIT } else { stated };
    if index as usize > CDDA_FRAMES_PER_SECTOR {
        return None;
    }
    match read_samples(s, q + 14, count as usize) {
        Some((samples, r)) => Some((Box::new(sector), index, phase, samples, r)),
        None => None,
    }
}

/// Sectors held across the first `n` partitions agree with the count over
/// the same partitions as a save state holds them.
proof fn lemma_buffered_is_stored_count(
    parts: Seq<Seq<SaturnCdBufferedSector>>,
    views: Seq<Seq<(u32, Seq<u8>)>>,
    n: int,
)
    requires
        0 <= n <= parts.len(),
        n <= views.len(),
        forall|i: int| 0 <= i < n ==> (#[trigger] parts[i]).len() == views[i].len(),
    ensures
        buffered_in(parts, n) == stored_count(views, n),
    decreases n,
{
    if n > 0 {
        lemma_buffered_is_stored_count(parts, views, n - 1);
    }
}

/// `after` is `before` with the save state at `pos` of `s` restored: every
/// stored part as the state holds it, the disc kept, the state read up to
/// `end`.
pub open spec fn restores(before: CdModel, after: CdModel, s: Seq<u8>, pos: int, end: int) -> bool {
    match cd_state_decode(s, pos) {
        None => false,
        Some((st, e)) => {
            &&& after.stored() == st
            &&& after.cdda_sample_index == st.cdda.sample_index
            &&& after.disc == before.disc
            &&& end == e
        },
    }
}

proof fn lemma_read_head(s: Seq<u8>, p: int, h: CdHead)
    requires
        0 <= p,
        p + 29 <= s.len(),
        s.subrange(p, p + 29) == head_bytes(h),
        h.phase < SH2_HZ,
    ensures
        dec_head(s, p) == Some((h, p + 29)),
{
    let e = head_bytes(h);
    lemma_le16_in(s, p, e, 0, h.hirq);
    lemma_le16_in(s, p, e, 2, h.hirq_mask);
    lemma_le16_in(s, p, e, 4, h.cr[0]);
    lemma_le16_in(s, p, e, 6, h.cr[1]);
    lemma_le16_in(s, p, e, 8, h.cr[2]);
    lemma_le16_in(s, p, e, 10, h.cr[3]);
    lemma_le32_in(s, p, e, 12, h.target_lba);
    lemma_le32_in(s, p, e, 16, h.current_lba);
    lemma_byte_in(s, p, e, 20);
    lemma_le64_in(s, p, e, 21, h.phase);
    assert(dec_head(s, p).unwrap().0.cr =~= h.cr);
}

proof fn lemma_read_tail(s: Seq<u8>, p: int, t: CdTail)
    requires
        0 <= p,
        p + 17 <= s.len(),
        s.subrange(p, p + 17) == tail_bytes(t),
        t.get_sector_length <= 3,
        t.put_sector_length <= 3,
        t.fad_search_partition < CD_PARTITION_COUNT,
    ensures
        dec_tail(s, p) == Some((t, p + 17)),
{
    let e = tail_bytes(t);
    lemma_byte_in(s, p, e, 0);
    lemma_byte_in(s, p, e, 1);
    lemma_le32_in(s, p, e, 2, t.actual_size_words);
    lemma_le32_in(s, p, e, 6, t.fad_search_fad);
    lemma_le16_in(s, p, e, 10, t.fad_search_pos);
    lemma_byte_in(s, p, e, 12);
    lemma_le32_in(s, p, e, 13, t.transfer_bytes_read);
}

proof fn lemma_read_filter(s: Seq<u8>, p: int, f: SaturnCdFilter)
    requires
        0 <= p,
        p + 17 <= s.len(),
        s.subrange(p, p + 17) == filter_bytes(f),
        link_ok(f.true_conn),
        link_ok(f.false_conn),
    ensures
        dec_filter(s, p) == Some((f, p + 17)),
{
    let e = filter_bytes(f);
    lemma_byte_in(s, p, e, 0);
    lemma_byte_in(s, p, e, 1);
    lemma_byte_in(s, p, e, 2);
    lemma_le32_in(s, p, e, 3, f.fad);
    lemma_le32_in(s, p, e, 7, f.range);
    lemma_byte_in(s, p, e, 11);
    lemma_byte_in(s, p, e, 12);
    lemma_byte_in(s, p, e, 13);
    lemma_byte_in(s, p, e, 14);
    lemma_byte_in(s, p, e, 15);
    lemma_byte_in(s, p, e, 16);
}

proof fn lemma_read_filters(s: Seq<u8>, p: int, fs: Seq<SaturnCdFilter>, n: nat)
    requires
        n <= fs.len(),
        forall|i: int| 0 <= i < n ==> link_ok((#[trigger] fs[i]).true_conn) && link_ok(fs[i].false_conn),
        0 <= p,
        p + filters_bytes(fs, n).len() <= s.len(),
        s.subrange(p, p + filters_bytes(fs, n).len()) == filters_bytes(fs, n),
    ensures
        dec_filters(s, p, n) == Some((fs.subrange(0, n as int), p + filters_bytes(fs, n).len())),
    decreases n,
{
    if n == 0 {
        assert(fs.subrange(0, 0) =~= Seq::<SaturnCdFilter>::empty());
    } else {
        let a = filters_bytes(fs, (n - 1) as nat);
        let b = filter_bytes(fs[n - 1]);
        lemma_split(s, p, a, b);
        lemma_read_filters(s, p, fs, (n - 1) as nat);
        lemma_read_filter(s, p + a.len(), fs[n - 1]);
        assert(fs.subrange(0, n - 1).push(fs[n - 1]) =~= fs.subrange(0, n as int));
    }
}

proof fn lemma_read_data(s: Seq<u8>, p: int, d: Seq<u8>)
    requires
        d.len() <= CD_DATA_LIMIT,
        0 <= p,
        p + 4 + d.len() <= s.len(),
        s.subrange(p, p + 4) == le32_bytes(d.len() as u32),
        s.subrange(p + 4, p + 4 + d.len()) == d,
    ensures
        dec_data(s, p) == Some((d, p + 4 + d.len())),
{
    lemma_le32_in(s, p, le32_bytes(d.len() as u32), 0, d.len() as u32);
}

proof fn lemma_read_sector(s: Seq<u8>, p: int, x: (u32, Seq<u8>))
    requires
        x.1.len() == RAW_SECTOR,
        0 <= p,
        p + 8 + RAW_SECTOR <= s.len(),
        s.subrange(p, p + 8 + RAW_SECTOR) == sector_bytes(x),
    ensures
        dec_sector(s, p) == Some((x, p + 8 + RAW_SECTOR)),
{
    let a = le32_bytes(x.0) + le32_bytes(x.1.len() as u32);
    lemma_split(s, p, a, x.1);
    lemma_le32_in(s, p, a, 0, x.0);
    lemma_le32_in(s, p, a, 4, x.1.len() as u32);
}

proof fn lemma_read_sectors(s: Seq<u8>, p: int, xs: Seq<(u32, Seq<u8>)>, n: nat)
    requires
        n <= xs.len(),
        forall|i: int| 0 <= i < n ==> (#[trigger] xs[i]).1.len() == RAW_SECTOR,
        0 <= p,
        p + sectors_bytes(xs, n).len() <= s.len(),
        s.subrange(p, p + sectors_bytes(xs, n).len()) == sectors_bytes(xs, n),
    ensures
        dec_sectors(s, p, n) == Some((xs.subrange(0, n as int), p + sectors_bytes(xs, n).len())),
    decreases n,
{
    if n == 0 {
        assert(xs.subrange(0, 0) =~= Seq::<(u32, Seq<u8>)>::empty());
    } else {
        let a = sectors_bytes(xs, (n - 1) as nat);
        let b = sector_bytes(xs[n - 1]);
        lemma_split(s, p, a, b);
        lemma_read_sectors(s, p, xs, (n - 1) as nat);
        lemma_read_sector(s, p + a.len(), xs[n - 1]);
        assert(xs.subrange(0, n - 1).push(xs[n - 1]) =~= xs.subrange(0, n as int));
    }
}

proof fn lemma_read_partitions(s: Seq<u8>, p: int, ps: Seq<Seq<(u32, Seq<u8>)>>, n: nat)
    requires
        n <= ps.len(),
        forall|i: int| 0 <= i < n ==> (#[trigger] ps[i]).len() <= CD_BUFFER_COUNT,
        forall|i: int, j: int| 0 <= i < n && 0 <= j < ps[i].len() ==> (#[trigger] ps[i][j]).1.len() == RAW_SECTOR,
        stored_count(ps, n as int) <= CD_BUFFER_COUNT,
        0 <= p,
        p + partitions_bytes(ps, n).len() <= s.len(),
        s.subrange(p, p + partitions_bytes(ps, n).len()) == partitions_bytes(ps, n),
    ensures
        dec_partitions(s, p, n) == Some((ps.subrange(0, n as int), p + partitions_bytes(ps, n).len())),
    decreases n,
{
    if n == 0 {
        assert(ps.subrange(0, 0) =~= Seq::<Seq<(u32, Seq<u8>)>>::empty());
    } else {
        let x = ps[n - 1];
        let a = partitions_bytes(ps, (n - 1) as nat);
        let b1 = le16_bytes(x.len() as u16);
        let b2 = sectors_bytes(x, x.len());
        assert(partitions_bytes(ps, n) == a + b1 + b2);
        lemma_split(s, p, a + b1, b2);
        lemma_split(s, p, a, b1);
        lemma_read_partitions(s, p, ps, (n - 1) as nat);
        let q = p + a.len();
        lemma_le16_in(s, q, b1, 0, x.len() as u16);
        lemma_stored_count_prefix(ps.subrange(0, n - 1), ps, n - 1);
        assert forall|j: int| 0 <= j < x.len() implies (#[trigger] x[j]).1.len() == RAW_SECTOR by {
            assert(ps[n - 1][j].1.len() == RAW_SECTOR);
        }
        lemma_read_sectors(s, q + 2, x, x.len());
        assert(x.subrange(0, x.len() as int) =~= x);
        assert(ps.subrange(0, n - 1).push(x) =~= ps.subrange(0, n as int));
    }
}

proof fn lemma_read_samples(s: Seq<u8>, p: int, xs: Seq<[i16; 2]>, n: nat)
    requires
        n <= xs.len(),
        0 <= p,
        p + samples_bytes(xs, n).len() <= s.len(),
        s.subrange(p, p + samples_bytes(xs, n).len()) == samples_bytes(xs, n),
    ensures
        dec_samples(s, p, n) == Some((xs.subrange(0, n as int), p + samples_bytes(xs, n).len())),
    decreases n,
{
    if n == 0 {
        assert(xs.subrange(0, 0) =~= Seq::<[i16; 2]>::empty());
    } else {
        let x = xs[n - 1];
        let a = samples_bytes(xs, (n - 1) as nat);
        let b = sample_bytes(x);
        lemma_split(s, p, a, b);
        lemma_read_samples(s, p, xs, (n - 1) as nat);
        let q = p + a.len();
        lemma_le16_in(s, q, b, 0, x[0] as u16);
        lemma_le16_in(s, q, b, 2, x[1] as u16);
        let l = x[0];
        let r = x[1];
        assert((l as u16) as i16 == l && (r as u16) as i16 == r) by (bit_vector);
        assert([le16_at(s, q) as i16, le16_at(s, q + 2) as i16] =~= x);
        assert(xs.subrange(0, n - 1).push(x) =~= xs.subrange(0, n as int));
    }
}

proof fn lemma_read_cdda(s: Seq<u8>, p: int, c: CdCdda)
    requires
        c.sector.len() == RAW_SECTOR,
        c.sample_index <= CDDA_FRAMES_PER_SECTOR,
        c.phase < SH2_HZ,
        c.samples.len() <= CD_SAMPLE_LIMIT,
        0 <= p,
        p + cdda_bytes(c).len() <= s.len(),
        s.subrange(p, p + cdda_bytes(c).len()) == cdda_bytes(c),
    ensures
        dec_cdda(s, p) == Some((c, p + cdda_bytes(c).len())),
{
    let e0 = le32_bytes(c.sector.len() as u32);
    let e1 = e0 + c.sector;
    let e2 = e1 + le16_bytes(c.sample_index);
    let e3 = e2 + le64_bytes(c.phase);
    let e4 = e3 + le32_bytes(c.samples.len() as u32);
    let ss = samples_bytes(c.samples, c.samples.len());
    lemma_split(s, p, e4, ss);
    lemma_split(s, p, e3, le32_bytes(c.samples.len() as u32));
    lemma_split(s, p, e2, le64_bytes(c.phase));
    lemma_split(s, p, e1, le16_bytes(c.sample_index));
    lemma_split(s, p, e0, c.sector);
    let q = p + 4 + RAW_SECTOR;
    lemma_le32_in(s, p, e0, 0, c.sector.len() as u32);
    lemma_le16_in(s, q, le16_bytes(c.sample_index), 0, c.sample_index);
    lemma_le64_in(s, q + 2, le64_bytes(c.phase), 0, c.phase);
    lemma_le32_in(s, q + 10, le32_bytes(c.samples.len() as u32), 0, c.samples.len() as u32);
    lemma_read_samples(s, q + 14, c.samples, c.samples.len());
    assert(c.samples.subrange(0, c.samples.len() as int) =~= c.samples);
}

/// A save state read back where it was written, whatever comes before or
/// after it, gives the state that was saved and ends where the state ends.
pub proof fn save_state_reads_back(m: CdModel, s: Seq<u8>, p: int)
    requires
        m.wf(),
        m.savable(),
        0 <= p,
        p + cd_state_bytes(m.stored()).len() <= s.len(),
        s.subrange(p, p + cd_state_bytes(m.stored()).len()) == cd_state_bytes(m.stored()),
    ensures
        cd_state_decode(s, p) == Some((m.stored(), p + cd_state_bytes(m.stored()).len())),
{
    let st = m.stored();
    let h = head_bytes(st.head);
    let l = le32_bytes(st.data.len() as u32);
    let links = seq![st.cd_device_connection, st.last_buffer_destination];
    let f = filters_bytes(st.filters, 24);
    let t = tail_bytes(st.tail);
    let pb = partitions_bytes(st.partitions, 24);
    let c = cdda_bytes(st.cdda);
    let x1 = h + l;
    let x2 = x1 + st.data;
    let x3 = x2 + links;
    let x4 = x3 + f;
    let x5 = x4 + t;
    let x6 = x5 + pb;
    lemma_split(s, p, x6, c);
    lemma_split(s, p, x5, pb);
    lemma_split(s, p, x4, t);
    lemma_split(s, p, x3, f);
    lemma_split(s, p, x2, links);
    lemma_split(s, p, x1, st.data);
    lemma_split(s, p, h, l);
    lemma_read_head(s, p, st.head);
    lemma_read_data(s, p + 29, st.data);
    let p2 = p + x2.len();
    lemma_byte_in(s, p2, links, 0);
    lemma_byte_in(s, p2, links, 1);
    lemma_read_filters(s, p2 + 2, st.filters, 24);
    assert(st.filters.subrange(0, 24) =~= st.filters);
    lemma_read_tail(s, p + x4.len(), st.tail);
    assert forall|i: int| 0 <= i < 24 implies (#[trigger] st.partitions[i]).len() <= CD_BUFFER_COUNT by {
        crate::saturn_cd_block::lemma_partition_len_bound(m, i);
    }
    lemma_buffered_is_stored_count(m.partitions, st.partitions, 24);
    lemma_read_partitions(s, p + x5.len(), st.partitions, 24);
    assert(st.partitions.subrange(0, 24) =~= st.partitions);
    lemma_read_cdda(s, p + x6.len(), st.cdda);
}

/// Loading a save state that `save` wrote restores every saved part of the
/// block that wrote it, whatever block loads it, and ends just past it.
pub proof fn load_restores_saved_state(saved: CdModel, before: CdModel, after: CdModel, s: Seq<u8>, p: int, end: int)
    requires
        saved.wf(),
        saved.savable(),
        0 <= p,
        p + cd_state_bytes(saved.stored()).len() <= s.len(),
        s.subrange(p, p + cd_state_bytes(saved.stored()).len()) == cd_state_bytes(saved.stored()),
        restores(before, after, s, p, end),
    ensures
        cd_state_valid(s, p),
        after.stored() == saved.stored(),
        after.cdda_sample_index == saved.cdda_sample_index,
        after.disc == before.disc,
        end == p + cd_state_bytes(saved.stored()).len(),
{
    save_state_reads_back(saved, s, p);
}

impl SaturnCdBlock {
    fn save_head(&self, out: &mut Vec<u8>)
        ensures
            final(out)@ == old(out)@ + head_bytes(self@.stored().head),
    {
        push_le16(out, self.hirq);
        push_le16(out, self.hirq_mask);
        push_le16(out, self.cr[0]);
        push_le16(out, self.cr[1]);
        push_le16(out, self.cr[2]);
        push_le16(out, self.cr[3]);
        push_le32(out, self.target_lba);
        push_le32(out, self.current_lba);
        out.push(if self.reading { 1u8 } else { 0u8 });
        push_le64(out, self.phase);
        assert(out@ =~= old(out)@ + head_bytes(self@.stored().head));
    }

    fn save_data(&self, out: &mut Vec<u8>)
        ensures
            final(out)@ == old(out)@ + le32_bytes(self@.data.len() as u32) + self@.data,
    {
        let len = self.data.len();
        push_le32(out, len as u32);
        let ghost start = out@;
        let mut i: usize = 0;
        while i < len
            invariant
                len == self.data@.len(),
                i <= len,
                out@ == start + self.data@.subrange(0, i as int),
            decreases len - i,
        {
            out.push(self.data[i]);
            i = i + 1;
            assert(out@ =~= start + self.data@.subrange(0, i as int));
        }
        assert(self.data@.subrange(0, len as int) =~= self.data@);
    }

    fn save_filters(&self, out: &mut Vec<u8>)
        requires
            self.wf(),
        ensures
            final(out)@ == old(out)@ + filters_bytes(self@.filters, 24),
    {
        let mut f: usize = 0;
        while f < 24
            invariant
                f <= 24,
                self.wf(),
                out@ == old(out)@ + filters_bytes(self@.filters, f as nat),
            decreases 24 - f,
        {
            push_filter(out, &self.filters[f]);
            f = f + 1;
            assert(out@ =~= old(out)@ + filters_bytes(self@.filters, f as nat));
        }
    }

    fn save_tail(&self, out: &mut Vec<u8>)
        ensures
            final(out)@ == old(out)@ + tail_bytes(self@.stored().tail),
    {
        out.push(self.get_sector_length);
        out.push(self.put_sector_length);
        push_le32(out, self.actual_size_words);
        push_le32(out, self.fad_search_fad);
        push_le16(out, self.fad_search_pos);
        out.push(self.fad_search_partition);
        push_le32(out, self.transfer_bytes_read);
        assert(out@ =~= old(out)@ + tail_bytes(self@.stored().tail));
    }

    fn save_partitions(&self, out: &mut Vec<u8>)
        requires
            self.wf(),
        ensures
            final(out)@ == old(out)@ + partitions_bytes(self@.stored().partitions, 24),
    {
        let ghost parts = self@.stored().partitions;
        let mut q: usize = 0;
        while q < 24
            invariant
                q <= 24,
                self.wf(),
                parts == self@.stored().partitions,
                out@ == old(out)@ + partitions_bytes(parts, q as nat),
            decreases 24 - q,
        {
            let ghost before = out@;
            proof {
                crate::saturn_cd_block::lemma_partition_len_bound(self@, q as int);
            }
            push_le16(out, self.partitions[q].len() as u16);
            push_sectors(out, &self.partitions[q]);
            assert(parts[q as int] =~= Seq::new(
                self.partitions@[q as int]@.len(),
                |j: int| (self.partitions@[q as int]@[j].fad, self.partitions@[q as int]@[j].raw@),
            ));
            q = q + 1;
            assert(out@ =~= old(out)@ + partitions_bytes(parts, q as nat));
        }
    }

    fn save_cdda(&self, out: &mut Vec<u8>)
        requires
            self.wf(),
        ensures
            final(out)@ == old(out)@ + cdda_bytes(self@.stored().cdda),
    {
        push_le32(out, 2352);
        push_bytes(out, self.cdda_sector.as_slice());
        push_le16(out, self.cdda_sample_index as u16);
        push_le64(out, self.cdda_phase);
        let count = self.cdda_samples.len();
        push_le32(out, count as u32);
        let ghost before_samples = out@;
        let mut k: usize = 0;
        while k < count
            invariant
                count == self.cdda_samples@.len(),
                k <= count,
                out@ == before_samples + samples_bytes(self.cdda_samples@, k as nat),
            decreases count - k,
        {
            let sample = self.cdda_samples[k];
            push_le16(out, sample[0] as u16);
            push_le16(out, sample[1] as u16);
            k = k + 1;
            assert(out@ =~= before_samples + samples_bytes(self.cdda_samples@, k as nat));
        }
        assert(out@ =~= old(out)@ + cdda_bytes(self@.stored().cdda));
    }

    /// Restores the block from the save state at `*pos` of `input` and
    /// leaves `*pos` just past it. A truncated or invalid state is refused
    /// before anything is written, so the block and `*pos` stay as they were.
    pub fn load(&mut self, input: &[u8], pos: &mut usize) -> (r: Result<(), String>)
        requires
            old(self).wf(),
        ensures
            final(self).wf(),
            r is Ok <==> cd_state_valid(input@, *old(pos) as int),
            r is Ok ==> restores(old(self)@, final(self)@, input@, *old(pos) as int, *final(pos) as int),
            r is Err ==> final(self)@ == old(self)@ && *final(pos) == *old(pos),
    {
        let n = input.len();
        let (head, p1) = match read_head(input, *pos) {
            Some(x) => x,
            None => return Err("Saturn CD state is truncated".to_string()),
        };
        let (data, p2) = match read_data(input, p1) {
            Some(x) => x,
            None => return Err("Saturn CD host-transfer state is too large or truncated".to_string()),
        };
        if n - p2 < 2 {
            return Err("Saturn CD state is truncated".to_string());
        }
        let connection = input[p2];
        let destination = input[p2 + 1];
        if !link_ok_exec(connection) {
            return Err("Saturn CD device connection is invalid".to_string());
        }
        if !link_ok_exec(destination) {
            return Err("Saturn CD last buffer destination is invalid".to_string());
        }
        let (filters, p3) = match read_filters(input, p2 + 2) {
            Some(x) => x,
            None => return Err("Saturn CD filter state is invalid".to_string()),
        };
        let (tail, p4) = match read_tail(input, p3) {
            Some(x) => x,
            None => return Err("Saturn CD sector-length or FAD-search state is invalid".to_string()),
        };
        let (partitions, p5) = match read_partitions(input, p4) {
            Some(x) => x,
            None => return Err("Saturn CD buffer state is invalid".to_string()),
        };
        let (sector, index, phase, samples, p6) = match read_cdda(input, p5) {
            Some(x) => x,
            None => return Err("Saturn CDDA state is invalid".to_string()),
        };
        let ghost pv = partition_views(partitions@);
        self.hirq = head.hirq;
        self.hirq_mask = head.hirq_mask;
        self.cr = head.cr;
        self.target_lba = head.target_lba;
        self.current_lba = head.current_lba;
        self.reading = head.reading;
        self.phase = head.phase;
        self.data = data;
        self.cd_device_connection = connection;
        self.last_buffer_destination = destination;
        self.filters = filters;
        self.get_sector_length = tail.get_sector_length;
        self.put_sector_length = tail.put_sector_length;
        self.actual_size_words = tail.actual_size_words;
        self.fad_search_fad = tail.fad_search_fad;
        self.fad_search_pos = tail.fad_search_pos;
        self.fad_search_partition = tail.fad_search_partition;
        self.transfer_bytes_read = tail.transfer_bytes_read;
        self.partitions = partitions;
        self.cdda_sector = sector;
        self.cdda_sample_index = index as usize;
        self.cdda_phase = phase;
        self.cdda_samples = samples;
        *pos = p6;
        proof {
            lemma_buffered_is_stored_count(self@.partitions, pv, 24);
            assert(self@.stored().partitions =~~= pv);
            assert(self@.stored().head == head);
            assert(self@.stored().tail == tail);
        }
        Ok(())
    }

    /// Appends the block's save state to `out`.
    pub fn save(&self, out: &mut Vec<u8>)
        requires
            self.wf(),
        ensures
            final(out)@ == old(out)@ + cd_state_bytes(self@.stored()),
    {
        let ghost st = self@.stored();
        let ghost o0 = out@;
        self.save_head(out);
        let ghost o1 = out@;
        self.save_data(out);
        let ghost o2 = out@;
        out.push(self.cd_device_connection);
        out.push(self.last_buffer_destination);
        let ghost o3 = out@;
        self.save_filters(out);
        let ghost o4 = out@;
        self.save_tail(out);
        let ghost o5 = out@;
        self.save_partitions(out);
        let ghost o6 = out@;
        self.save_cdda(out);
        proof {
            assert(o3 =~= o2 + seq![st.cd_device_connection, st.last_buffer_destination]);
            assert(out@ =~= o0 + cd_state_bytes(st));
        }
    }
}

} // verus!
