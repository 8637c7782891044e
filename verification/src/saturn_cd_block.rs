//! Saturn CD block: the host command interface, the sector buffer with its
//! 24 partitions and selector filters, and the drive position. What the
//! block knows of the disc comes from the disc image as plain values.
use vstd::prelude::*;
use crate::saturn_cd::{SaturnCdBufferedSector, SaturnCdFilter, transfer_range};

verus! {

pub const CD_PARTITION_COUNT: usize = 24;
pub const CD_BUFFER_COUNT: usize = 200;
pub const CDDA_FRAMES_PER_SECTOR: usize = 588;
pub const SECTORS_PER_SECOND: u64 = 150;
pub const SH2_HZ: u64 = 28_636_360;
pub const AUDIO_RATE: u64 = 44_100;

/// A track as the disc image lists it.
#[derive(Debug, Clone, Copy)]
pub struct CdTrack {
    pub number: u8,
    pub start_lba: u32,
    pub data: bool,
}

/// What the CD block reads of a disc, as the disc image reports it: its
/// length in sectors, its first and last track numbers, the start the
/// image gives for each track number (indexed by number), and its tracks.
pub struct CdDisc {
    pub sectors: u32,
    pub first_track: u8,
    pub last_track: u8,
    pub track_starts: Vec<Option<u32>>,
    pub tracks: Vec<CdTrack>,
}

pub struct CdDiscModel {
    pub sectors: u32,
    pub first_track: u8,
    pub last_track: u8,
    pub track_starts: Seq<Option<u32>>,
    pub tracks: Seq<CdTrack>,
}

impl View for CdDisc {
    type V = CdDiscModel;

    open spec fn view(&self) -> CdDiscModel {
        CdDiscModel {
            sectors: self.sectors,
            first_track: self.first_track,
            last_track: self.last_track,
            track_starts: self.track_starts@,
            tracks: self.tracks@,
        }
    }
}

impl CdDiscModel {
    /// The start the disc image gives for track `number`.
    pub open spec fn track_start(self, number: u8) -> Option<u32> {
        if (number as int) < self.track_starts.len() {
            self.track_starts[number as int]
        } else {
            None
        }
    }
}

pub struct SaturnCdBlock {
    pub disc: Option<CdDisc>,
    pub hirq: u16,
    pub hirq_mask: u16,
    pub cr: [u16; 4],
    pub target_lba: u32,
    pub current_lba: u32,
    pub reading: bool,
    pub data: std::collections::VecDeque<u8>,
    pub partitions: Vec<Vec<SaturnCdBufferedSector>>,
    pub filters: [SaturnCdFilter; 24],
    pub cd_device_connection: u8,
    pub last_buffer_destination: u8,
    pub get_sector_length: u8,
    pub put_sector_length: u8,
    pub actual_size_words: u32,
    pub fad_search_fad: u32,
    pub fad_search_pos: u16,
    pub fad_search_partition: u8,
    pub transfer_bytes_read: u32,
    pub phase: u64,
    pub cdda_sector: Box<[u8; 2352]>,
    pub cdda_sample_index: usize,
    pub cdda_phase: u64,
    pub cdda_samples: std::collections::VecDeque<[i16; 2]>,
}

/// The CD block's state as values.
pub struct CdModel {
    pub disc: Option<CdDiscModel>,
    pub hirq: u16,
    pub hirq_mask: u16,
    pub cr: [u16; 4],
    pub target_lba: u32,
    pub current_lba: u32,
    pub reading: bool,
    pub data: Seq<u8>,
    pub partitions: Seq<Seq<SaturnCdBufferedSector>>,
    pub filters: Seq<SaturnCdFilter>,
    pub cd_device_connection: u8,
    pub last_buffer_destination: u8,
    pub get_sector_length: u8,
    pub put_sector_length: u8,
    pub actual_size_words: u32,
    pub fad_search_fad: u32,
    pub fad_search_pos: u16,
    pub fad_search_partition: u8,
    pub transfer_bytes_read: u32,
    pub phase: u64,
    pub cdda_sector: Seq<u8>,
    pub cdda_sample_index: usize,
    pub cdda_phase: u64,
    pub cdda_samples: Seq<[i16; 2]>,
}

impl View for SaturnCdBlock {
    type V = CdModel;

    open spec fn view(&self) -> CdModel {
        CdModel {
            disc: match self.disc {
                Some(d) => Some(d@),
                None => None,
            },
            hirq: self.hirq,
            hirq_mask: self.hirq_mask,
            cr: self.cr,
            target_lba: self.target_lba,
            current_lba: self.current_lba,
            reading: self.reading,
            data: self.data@,
            partitions: Seq::new(self.partitions@.len(), |i: int| self.partitions@[i]@),
            filters: self.filters@,
            cd_device_connection: self.cd_device_connection,
            last_buffer_destination: self.last_buffer_destination,
            get_sector_length: self.get_sector_length,
            put_sector_length: self.put_sector_length,
            actual_size_words: self.actual_size_words,
            fad_search_fad: self.fad_search_fad,
            fad_search_pos: self.fad_search_pos,
            fad_search_partition: self.fad_search_partition,
            transfer_bytes_read: self.transfer_bytes_read,
            phase: self.phase,
            cdda_sector: self.cdda_sector@,
            cdda_sample_index: self.cdda_sample_index,
            cdda_phase: self.cdda_phase,
            cdda_samples: self.cdda_samples@,
        }
    }
}

/// `a + b` capped at `u32::MAX`.
pub open spec fn sat_add32(a: int, b: int) -> u32 {
    if a + b > u32::MAX {
        u32::MAX
    } else {
        (a + b) as u32
    }
}

/// `a - b` floored at 0.
pub open spec fn sat_sub32(a: int, b: int) -> u32 {
    if a - b < 0 {
        0
    } else {
        (a - b) as u32
    }
}

/// Each partition of a well-formed block holds at most 200 sectors.
pub proof fn lemma_partition_len_bound(m: CdModel, q: int)
    requires
        m.wf(),
        0 <= q < CD_PARTITION_COUNT,
    ensures
        m.partitions[q].len() <= CD_BUFFER_COUNT,
{
    lemma_buffered_monotone(m.partitions, q + 1, CD_PARTITION_COUNT as int);
    assert(buffered_in(m.partitions, q + 1) == buffered_in(m.partitions, q) + m.partitions[q].len());
    lemma_buffered_monotone(m.partitions, 0, q);
}

/// Sectors held across the first `n` partitions.
pub open spec fn buffered_in(parts: Seq<Seq<SaturnCdBufferedSector>>, n: int) -> int
    decreases n,
{
    if n <= 0 {
        0
    } else {
        buffered_in(parts, n - 1) + parts[n - 1].len()
    }
}

/// The sectors a host selection of `count` sectors from `offset` covers in
/// a partition of `len` sectors: offset $FFFF is the last sector, count
/// $FFFF runs to the end; empty or out-of-range selections give none.
pub open spec fn selection(len: int, offset: u16, count: u16) -> Option<(int, int)> {
    if len == 0 {
        None
    } else {
        let start: int = if offset == 0xffff { len - 1 } else { offset as int };
        if count == 0xffff && start > len {
            None
        } else {
            let n: int = if count == 0xffff { len - start } else { count as int };
            if n != 0 && start < len && start + n <= len {
                Some((start, start + n))
            } else {
                None
            }
        }
    }
}

/// The filter chain from filter `current`, at most `steps` filters deep:
/// the first filter a sector passes sends it to its true connection (when
/// that is a partition); a failing filter hands it to its false connection,
/// and $FF there ends the chain.
pub open spec fn route_from(filters: Seq<SaturnCdFilter>, current: u8, sector: SaturnCdBufferedSector, steps: nat) -> Option<(u8, int)>
    decreases steps,
{
    if steps == 0 || current as int >= filters.len() {
        None
    } else {
        let filter = filters[current as int];
        if filter.passes(sector.fad, sector.raw@) {
            if (filter.true_conn as int) < CD_PARTITION_COUNT {
                Some((current, filter.true_conn as int))
            } else {
                None
            }
        } else if filter.false_conn == 0xff {
            None
        } else {
            route_from(filters, filter.false_conn, sector, (steps - 1) as nat)
        }
    }
}

/// The power-on filter set: filter `i` passing everything to partition `i`.
pub open spec fn initial_filters() -> Seq<SaturnCdFilter> {
    Seq::new(
        24,
        |i: int|
            SaturnCdFilter {
                mode: 0,
                true_conn: i as u8,
                false_conn: 0xff,
                fad: 0,
                range: 0,
                channel: 0,
                file: 0,
                submode: 0,
                submode_mask: 0,
                coding_info: 0,
                coding_info_mask: 0,
            },
    )
}

pub open spec fn empty_partitions() -> Seq<Seq<SaturnCdBufferedSector>> {
    Seq::new(24, |i: int| Seq::<SaturnCdBufferedSector>::empty())
}

impl CdModel {
    pub open spec fn wf(self) -> bool {
        &&& self.partitions.len() == CD_PARTITION_COUNT
        &&& self.filters.len() == CD_PARTITION_COUNT
        &&& self.cdda_sector.len() == 2352
        &&& self.buffered() <= CD_BUFFER_COUNT
    }

    /// Sectors held in all partitions.
    pub open spec fn buffered(self) -> int {
        buffered_in(self.partitions, CD_PARTITION_COUNT as int)
    }

    pub open spec fn drive_status(self) -> u16 {
        if self.disc.is_none() {
            0x0700
        } else if self.reading {
            0x0300
        } else {
            0x0100
        }
    }

    /// The frame address of the drive position: 150 frames past the LBA.
    pub open spec fn current_fad(self) -> u32 {
        sat_add32(self.current_lba as int, 150)
    }

    /// The standard four-word report: status, then with a disc the control
    /// byte, track and index, and the position's frame address.
    pub open spec fn standard_cr(self, status: u16) -> [u16; 4] {
        let fad = self.current_fad();
        if self.disc.is_some() {
            [status, 0x4101, 0x0100 | ((fad >> 16u32) as u16 & 0x00ff), fad as u16]
        } else {
            [status, 0xffff, 0xffff, 0xffff]
        }
    }

    pub open spec fn with_return(self, status: u16) -> CdModel {
        CdModel { cr: self.standard_cr(status), ..self }
    }

    /// The answer to a rejected command.
    pub open spec fn rejected(self) -> CdModel {
        CdModel { cr: [0xff00, 0, 0, 0], hirq: self.hirq | 0x0001, ..self }
    }

    /// The buffer and selector state cleared to power-on.
    pub open spec fn buffers_reset(self) -> CdModel {
        CdModel {
            partitions: empty_partitions(),
            filters: initial_filters(),
            cd_device_connection: 0xff,
            last_buffer_destination: 0xff,
            get_sector_length: 0,
            put_sector_length: 0,
            actual_size_words: 0,
            fad_search_fad: 0,
            fad_search_pos: 0xffff,
            fad_search_partition: 0,
            transfer_bytes_read: 0,
            ..self
        }
    }

    /// The audio path rewound: no sector loaded.
    pub open spec fn cdda_rewound(self) -> CdModel {
        CdModel {
            cdda_sector: Seq::new(2352, |i: int| 0u8),
            cdda_sample_index: CDDA_FRAMES_PER_SECTOR,
            cdda_phase: 0,
            cdda_samples: Seq::empty(),
            ..self
        }
    }

    /// Where the filter chain from `start` sends `sector`.
    pub open spec fn route(self, start: u8, sector: SaturnCdBufferedSector) -> Option<(u8, int)> {
        route_from(self.filters, start, sector, CD_PARTITION_COUNT as nat)
    }

    /// The buffer after `sector` enters the filter chain at `start`.
    pub open spec fn delivered(self, start: u8, sector: SaturnCdBufferedSector) -> CdModel {
        match self.route(start, sector) {
            Some((filter, partition)) => CdModel {
                partitions: self.partitions.update(partition, self.partitions[partition].push(sector)),
                last_buffer_destination: filter,
                ..self
            },
            None => CdModel { last_buffer_destination: 0xff, ..self },
        }
    }
}

impl SaturnCdBlock {
    pub open spec fn wf(&self) -> bool {
        self@.wf()
    }

    fn empty_partitions_vec() -> (r: Vec<Vec<SaturnCdBufferedSector>>)
        ensures
            r@.len() == 24,
            Seq::new(r@.len(), |i: int| r@[i]@) == empty_partitions(),
    {
        let mut parts: Vec<Vec<SaturnCdBufferedSector>> = Vec::new();
        let mut i: usize = 0;
        while i < 24
            invariant
                i <= 24,
                parts@.len() == i,
                forall|j: int| 0 <= j < i ==> (#[trigger] parts@[j])@ == Seq::<SaturnCdBufferedSector>::empty(),
            decreases 24 - i,
        {
            parts.push(Vec::new());
            i = i + 1;
        }
        assert(Seq::new(parts@.len(), |i: int| parts@[i]@) =~= empty_partitions());
        parts
    }

    fn initial_filter_array() -> (r: [SaturnCdFilter; 24])
        ensures
            r@ == initial_filters(),
    {
        let mut filters = [SaturnCdFilter::new(0); 24];
        let mut i: usize = 0;
        while i < 24
            invariant
                i <= 24,
                filters@.len() == 24,
                forall|j: int| 0 <= j < i ==> #[trigger] filters@[j] == initial_filters()[j],
            decreases 24 - i,
        {
            filters[i] = SaturnCdFilter::new(i);
            i = i + 1;
        }
        assert(filters@ =~= initial_filters());
        filters
    }

    /// A CD block with `disc` (or an empty tray): idle, buffers empty,
    /// every filter passing to its own partition.
    pub fn new(disc: Option<CdDisc>) -> (b: Self)
        ensures
            b.wf(),
            b@ == (CdModel {
                disc: b@.disc,
                hirq: 0x0001,
                hirq_mask: 0,
                cr: [0u16, 0, 0, 0],
                target_lba: 0,
                current_lba: 0,
                reading: false,
                data: Seq::empty(),
                ..b@
            }).buffers_reset().cdda_rewound(),
            b@.disc == (match disc {
                Some(d) => Some(d@),
                None => None::<CdDiscModel>,
            }),
    {
        let b = SaturnCdBlock {
            disc,
            hirq: 0x0001,
            hirq_mask: 0,
            cr: [0; 4],
            target_lba: 0,
            current_lba: 0,
            reading: false,
            data: std::collections::VecDeque::new(),
            partitions: Self::empty_partitions_vec(),
            filters: Self::initial_filter_array(),
            cd_device_connection: 0xff,
            last_buffer_destination: 0xff,
            get_sector_length: 0,
            put_sector_length: 0,
            actual_size_words: 0,
            fad_search_fad: 0,
            fad_search_pos: 0xffff,
            fad_search_partition: 0,
            transfer_bytes_read: 0,
            phase: 0,
            cdda_sector: Box::new([0; 2352]),
            cdda_sample_index: CDDA_FRAMES_PER_SECTOR,
            cdda_phase: 0,
            cdda_samples: std::collections::VecDeque::new(),
        };
        assert(b@.cdda_sector =~= Seq::new(2352, |i: int| 0u8));
        assert(b@.cr =~= [0u16, 0, 0, 0]);
        proof {
            lemma_buffered_empty(CD_PARTITION_COUNT as int);
        }
        b
    }

    /// Clears every partition and resets the selectors and transfer state.
    pub fn reset_buffers_and_selectors(&mut self)
        requires
            old(self).wf(),
        ensures
            final(self).wf(),
            final(self)@ == old(self)@.buffers_reset(),
    {
        self.partitions = Self::empty_partitions_vec();
        self.filters = Self::initial_filter_array();
        proof {
            lemma_buffered_empty(CD_PARTITION_COUNT as int);
        }
        self.cd_device_connection = 0xff;
        self.last_buffer_destination = 0xff;
        self.get_sector_length = 0;
        self.put_sector_length = 0;
        self.actual_size_words = 0;
        self.fad_search_fad = 0;
        self.fad_search_pos = 0xffff;
        self.fad_search_partition = 0;
        self.transfer_bytes_read = 0;
    }

    /// Rewinds the audio path: no sector loaded, no queued samples.
    pub fn reset_cdda_position(&mut self)
        requires
            old(self).wf(),
        ensures
            final(self).wf(),
            final(self)@ == old(self)@.cdda_rewound(),
    {
        self.cdda_sector = Box::new([0; 2352]);
        self.cdda_sample_index = CDDA_FRAMES_PER_SECTOR;
        self.cdda_phase = 0;
        self.cdda_samples = std::collections::VecDeque::new();
        assert(self@.cdda_sector =~= Seq::new(2352, |i: int| 0u8));
    }

    /// Back to power-on, keeping the disc.
    pub fn reset(&mut self)
        requires
            old(self).wf(),
        ensures
            final(self).wf(),
            final(self)@ == (CdModel {
                hirq: 0x0001,
                hirq_mask: 0,
                cr: [0u16, 0, 0, 0],
                target_lba: 0,
                current_lba: 0,
                reading: false,
                data: Seq::empty(),
                phase: 0,
                ..old(self)@
            }).buffers_reset().cdda_rewound(),
    {
        self.hirq = 0x0001;
        self.hirq_mask = 0;
        self.cr = [0; 4];
        self.target_lba = 0;
        self.current_lba = 0;
        self.reading = false;
        self.data = std::collections::VecDeque::new();
        self.reset_buffers_and_selectors();
        self.phase = 0;
        self.reset_cdda_position();
        assert(self@.cr =~= [0u16, 0, 0, 0]);
    }

    /// Sectors held in all partitions.
    pub fn total_buffered_sectors(&self) -> (r: usize)
        requires
            self.wf(),
        ensures
            r == self@.buffered(),
    {
        let mut total: usize = 0;
        let mut i: usize = 0;
        while i < CD_PARTITION_COUNT
            invariant
                i <= CD_PARTITION_COUNT,
                self.wf(),
                total == buffered_in(self@.partitions, i as int),
            decreases CD_PARTITION_COUNT - i,
        {
            proof {
                lemma_buffered_monotone(self@.partitions, i as int + 1, CD_PARTITION_COUNT as int);
            }
            total = total + self.partitions[i].len();
            i = i + 1;
        }
        total
    }

    /// The sector range a host selection covers in a partition of `len`.
    pub fn selection_range(len: usize, offset: u16, count: u16) -> (r: Option<core::ops::Range<usize>>)
        ensures
            r is None <==> selection(len as int, offset, count) is None,
            r matches Some(range) ==> selection(len as int, offset, count) == Some(
                (range.start as int, range.end as int),
            ),
    {
        if len == 0 {
            return None;
        }
        let start = if offset == 0xffff { len - 1 } else { offset as usize };
        let count = if count == 0xffff {
            if start > len {
                return None;
            }
            len - start
        } else {
            count as usize
        };
        if count != 0 && start < len && count <= len - start {
            Some(start..start + count)
        } else {
            None
        }
    }

    /// Where the filter chain from `start_filter` sends `sector`: the filter
    /// that passed it and its partition.
    pub fn route_sector(&self, start_filter: u8, sector: &SaturnCdBufferedSector) -> (r: Option<(u8, usize)>)
        requires
            self.wf(),
        ensures
            r is None <==> self@.route(start_filter, *sector) is None,
            r matches Some((f, p)) ==> self@.route(start_filter, *sector) == Some((f, p as int)),
    {
        let mut current = start_filter;
        let mut step: usize = 0;
        while step < CD_PARTITION_COUNT
            invariant
                step <= CD_PARTITION_COUNT,
                self.wf(),
                route_from(self@.filters, current, *sector, (CD_PARTITION_COUNT - step) as nat)
                    == self@.route(start_filter, *sector),
            decreases CD_PARTITION_COUNT - step,
        {
            if current as usize >= CD_PARTITION_COUNT {
                return None;
            }
            let filter = self.filters[current as usize];
            if filter.matches(sector) {
                let destination = filter.true_conn as usize;
                if destination < CD_PARTITION_COUNT {
                    return Some((current, destination));
                } else {
                    return None;
                }
            }
            current = filter.false_conn;
            if current == 0xff {
                return None;
            }
            step = step + 1;
        }
        None
    }

    pub fn irq_pending(&self) -> (r: bool)
        ensures
            r == (self.hirq & self.hirq_mask != 0),
    {
        self.hirq & self.hirq_mask != 0
    }

    pub fn drive_status(&self) -> (r: u16)
        ensures
            r == self@.drive_status(),
    {
        if self.disc.is_none() {
            0x0700
        } else if self.reading {
            0x0300
        } else {
            0x0100
        }
    }

    pub fn current_fad(&self) -> (r: u32)
        ensures
            r == self@.current_fad(),
    {
        self.current_lba.saturating_add(150)
    }

    /// Sets the command registers to the standard report with `status`.
    pub fn standard_return(&mut self, status: u16)
        ensures
            final(self)@ == old(self)@.with_return(status),
    {
        let fad = self.current_fad();
        if self.disc.is_some() {
            self.cr = [status, 0x4101, 0x0100 | ((fad >> 16u32) as u16 & 0x00ff), #[verifier::truncate] (fad as u16)];
        } else {
            self.cr = [status, 0xffff, 0xffff, 0xffff];
        }
        assert(self@.cr =~= old(self)@.standard_cr(status));
    }

    /// Routes `sector` from filter `start` into its partition, recording
    /// where it went.
    pub fn deliver(&mut self, start: u8, sector: SaturnCdBufferedSector)
        requires
            old(self).wf(),
            old(self)@.buffered() < CD_BUFFER_COUNT,
        ensures
            final(self).wf(),
            final(self)@ == old(self)@.delivered(start, sector),
            final(self)@.buffered() <= old(self)@.buffered() + 1,
    {
        proof {
            lemma_route_bound(self@.filters, start, sector, CD_PARTITION_COUNT as nat);
        }
        match self.route_sector(start, &sector) {
            Some((filter, partition)) => {
                let ghost parts0 = self@.partitions;
                self.partitions[partition].push(sector);
                self.last_buffer_destination = filter;
                assert(self@.partitions =~= parts0.update(partition as int, parts0[partition as int].push(sector)));
                proof {
                    lemma_buffered_update(parts0, partition as int, parts0[partition as int].push(sector), CD_PARTITION_COUNT as int);
                }
            },
            None => {
                self.last_buffer_destination = 0xff;
            },
        }
    }
}

proof fn lemma_route_bound(filters: Seq<SaturnCdFilter>, current: u8, sector: SaturnCdBufferedSector, steps: nat)
    ensures
        route_from(filters, current, sector, steps) matches Some((f, p)) ==> 0 <= p < CD_PARTITION_COUNT
            && (f as int) < filters.len(),
    decreases steps,
{
    if steps > 0 && (current as int) < filters.len() {
        let filter = filters[current as int];
        if !filter.passes(sector.fad, sector.raw@) && filter.false_conn != 0xff {
            lemma_route_bound(filters, filter.false_conn, sector, (steps - 1) as nat);
        }
    }
}

proof fn lemma_buffered_empty(n: int)
    requires
        n <= CD_PARTITION_COUNT,
    ensures
        buffered_in(empty_partitions(), n) == 0,
    decreases n,
{
    if n > 0 {
        lemma_buffered_empty(n - 1);
    }
}

proof fn lemma_buffered_update(parts: Seq<Seq<SaturnCdBufferedSector>>, p: int, newp: Seq<SaturnCdBufferedSector>, n: int)
    requires
        0 <= p < parts.len(),
        n <= parts.len(),
    ensures
        buffered_in(parts.update(p, newp), n) == buffered_in(parts, n) + (if p < n {
            newp.len() - parts[p].len()
        } else {
            0
        }),
    decreases n,
{
    if n > 0 {
        lemma_buffered_update(parts, p, newp, n - 1);
    }
}

proof fn lemma_part_within_total(parts: Seq<Seq<SaturnCdBufferedSector>>, p: int, n: int)
    requires
        0 <= p < n,
    ensures
        parts[p].len() <= buffered_in(parts, n),
    decreases n,
{
    if n - 1 > p {
        lemma_part_within_total(parts, p, n - 1);
    }
    lemma_buffered_monotone(parts, p, n - 1);
    lemma_buffered_monotone(parts, 0, p);
}

proof fn lemma_buffered_monotone(parts: Seq<Seq<SaturnCdBufferedSector>>, m: int, n: int)
    requires
        0 <= m <= n,
    ensures
        buffered_in(parts, m) <= buffered_in(parts, n),
    decreases n - m,
{
    if m < n {
        lemma_buffered_monotone(parts, m, n - 1);
    }
}

/// The table of contents with track entries `0..n` of `tracks` written:
/// four bytes per track number (control byte, then the start's frame
/// address), for track numbers 1 to 99.
pub open spec fn toc_with_tracks(toc: Seq<u8>, tracks: Seq<CdTrack>, n: nat) -> Seq<u8>
    decreases n,
{
    if n == 0 {
        toc
    } else {
        let t = toc_with_tracks(toc, tracks, (n - 1) as nat);
        let track = tracks[n - 1];
        let offset = sat_sub32(track.number as int, 1) as int * 4;
        if offset + 3 >= 99 * 4 {
            t
        } else {
            let fad = sat_add32(track.start_lba as int, 150);
            t.update(offset, if track.data { 0x41u8 } else { 0x01u8 }).update(offset + 1, (fad >> 16u32) as u8).update(
                offset + 2,
                (fad >> 8u32) as u8,
            ).update(offset + 3, fad as u8)
        }
    }
}

/// The 408-byte table of contents the host reads: 99 track entries, then
/// the first track, last track and lead-out entries; all $FF without a disc.
pub open spec fn toc_bytes(disc: Option<CdDiscModel>) -> Seq<u8> {
    let blank = Seq::new(408, |i: int| 0xffu8);
    match disc {
        None => blank,
        Some(d) => {
            let t = toc_with_tracks(blank, d.tracks, d.tracks.len());
            let leadout = sat_add32(d.sectors as int, 150);
            t.update(396, 0x41).update(397, d.first_track).update(398, 0).update(399, 0).update(400, 0x41).update(
                401,
                d.last_track,
            ).update(402, 0).update(403, 0).update(404, 0x41).update(405, (leadout >> 16u32) as u8).update(
                406,
                (leadout >> 8u32) as u8,
            ).update(407, leadout as u8)
        },
    }
}

/// The bytes the host reads from `sectors` at sector length `format`.
pub open spec fn transfer_bytes(sectors: Seq<SaturnCdBufferedSector>, format: u8) -> Seq<u8>
    decreases sectors.len(),
{
    if sectors.len() == 0 {
        Seq::empty()
    } else {
        let last = sectors.last();
        let r = transfer_range(last.raw@, format);
        transfer_bytes(sectors.drop_last(), format) + last.raw@.subrange(r.0, r.1)
    }
}

/// A partition with the sectors in `start..end` taken out.
pub open spec fn without_range(s: Seq<SaturnCdBufferedSector>, start: int, end: int) -> Seq<SaturnCdBufferedSector> {
    s.subrange(0, start) + s.subrange(end, s.len() as int)
}

impl CdModel {
    /// The state after the host reads one byte of the data queue ($00 once
    /// empty): a transfer counts its bytes, and emptying the queue ends it.
    pub open spec fn after_pop(self) -> CdModel {
        let data = if self.data.len() > 0 { self.data.drop_first() } else { self.data };
        let read = if self.cr[0] & 0x4000 != 0 {
            sat_add32(self.transfer_bytes_read as int, 1)
        } else {
            self.transfer_bytes_read
        };
        if data.len() == 0 {
            CdModel {
                data,
                transfer_bytes_read: read,
                hirq: self.hirq & !0x0002u16,
                cr: [self.cr[0] & !0x4000u16, self.cr[1], self.cr[2], self.cr[3]],
                ..self
            }
        } else {
            CdModel { data, transfer_bytes_read: read, ..self }
        }
    }

    /// The byte the host reads from the data queue.
    pub open spec fn front_byte(self) -> u8 {
        if self.data.len() > 0 {
            self.data[0]
        } else {
            0
        }
    }

    /// The state after sectors `start..end` of `partition` are queued for the
    /// host (and taken out of the partition when `delete`).
    pub open spec fn after_transfer(self, partition: int, start: int, end: int, delete: bool) -> CdModel {
        let part = self.partitions[partition];
        CdModel {
            data: transfer_bytes(part.subrange(start, end), self.get_sector_length),
            transfer_bytes_read: 0,
            partitions: if delete {
                self.partitions.update(partition, without_range(part, start, end))
            } else {
                self.partitions
            },
            cr: [self.drive_status() | 0x4000, 0, 0, 0],
            hirq: self.hirq | 0x0003,
            ..self
        }
    }

    /// The 16-bit register a host read at `address` sees.
    pub open spec fn register16(self, address: u32) -> u16 {
        let offset = address.wrapping_sub(0x0580_0000);
        if offset == 0x0009_0008 {
            self.hirq
        } else if offset == 0x0009_000c {
            self.hirq_mask
        } else if offset == 0x0009_0018 {
            self.cr[0]
        } else if offset == 0x0009_001c {
            self.cr[1]
        } else if offset == 0x0009_0020 {
            self.cr[2]
        } else if offset == 0x0009_0024 {
            self.cr[3]
        } else if offset == 0x0009_0028 {
            if self.data.len() > 0xffff {
                0xffff
            } else {
                self.data.len() as u16
            }
        } else {
            0
        }
    }
}

impl SaturnCdBlock {
    /// Queues the table of contents for the host.
    pub fn queue_toc(&mut self)
        requires
            old(self).wf(),
        ensures
            final(self).wf(),
            final(self)@ == (CdModel { data: toc_bytes(old(self)@.disc), ..old(self)@ }),
    {
        let mut toc = [0xffu8; 408];
        assert(toc@ =~= Seq::new(408, |i: int| 0xffu8));
        match &self.disc {
            None => {},
            Some(disc) => {
                let mut k: usize = 0;
                while k < disc.tracks.len()
                    invariant
                        k <= disc.tracks@.len(),
                        toc@ == toc_with_tracks(Seq::new(408, |i: int| 0xffu8), disc.tracks@, k as nat),
                        toc@.len() == 408,
                    decreases disc.tracks@.len() - k,
                {
                    let track = disc.tracks[k];
                    let offset = track.number.saturating_sub(1) as usize * 4;
                    if offset + 3 < 99 * 4 {
                        let fad = track.start_lba.saturating_add(150);
                        toc[offset] = if track.data { 0x41 } else { 0x01 };
                        toc[offset + 1] = (fad >> 16u32) as u8;
                        toc[offset + 2] = (fad >> 8u32) as u8;
                        toc[offset + 3] = #[verifier::truncate] (fad as u8);
                    }
                    k = k + 1;
                }
                let leadout = disc.sectors.saturating_add(150);
                toc[396] = 0x41;
                toc[397] = disc.first_track;
                toc[398] = 0;
                toc[399] = 0;
                toc[400] = 0x41;
                toc[401] = disc.last_track;
                toc[402] = 0;
                toc[403] = 0;
                toc[404] = 0x41;
                toc[405] = (leadout >> 16u32) as u8;
                toc[406] = #[verifier::truncate] ((leadout >> 8u32) as u8);
                toc[407] = #[verifier::truncate] (leadout as u8);
            },
        }
        let mut data = std::collections::VecDeque::new();
        let mut i: usize = 0;
        while i < 408
            invariant
                i <= 408,
                toc@.len() == 408,
                data@ == toc@.subrange(0, i as int),
            decreases 408 - i,
        {
            data.push_back(toc[i]);
            i = i + 1;
            assert(data@ =~= toc@.subrange(0, i as int));
        }
        self.data = data;
        assert(toc@.subrange(0, 408) =~= toc@);
    }

    /// The host reads one byte of the data queue.
    pub fn pop_data_byte(&mut self) -> (r: u8)
        ensures
            r == old(self)@.front_byte(),
            final(self)@ == old(self)@.after_pop(),
    {
        let value = match self.data.pop_front() {
            Some(v) => v,
            None => 0,
        };
        if self.cr[0] & 0x4000 != 0 {
            self.transfer_bytes_read = self.transfer_bytes_read.saturating_add(1);
        }
        if self.data.len() == 0 {
            self.hirq = self.hirq & !0x0002u16;
            self.cr[0] = self.cr[0] & !0x4000u16;
            assert(self@.cr =~= [old(self).cr[0] & !0x4000u16, old(self).cr[1], old(self).cr[2], old(self).cr[3]]);
        }
        value
    }

    /// Queues sectors `start..end` of `partition` for the host, taking them
    /// out of the partition when `delete`.
    pub fn queue_partition_transfer(&mut self, partition: usize, start: usize, end: usize, delete: bool)
        requires
            old(self).wf(),
            partition < CD_PARTITION_COUNT,
            start <= end <= old(self)@.partitions[partition as int].len(),
        ensures
            final(self).wf(),
            final(self)@ == old(self)@.after_transfer(partition as int, start as int, end as int, delete),
    {
        let ghost part = self@.partitions[partition as int];
        let format = self.get_sector_length;
        let mut data = std::collections::VecDeque::new();
        let mut k: usize = start;
        while k < end
            invariant
                start <= k <= end,
                self.wf(),
                *self == *old(self),
                part == self@.partitions[partition as int],
                end <= part.len(),
                partition < CD_PARTITION_COUNT,
                format == self.get_sector_length,
                data@ == transfer_bytes(part.subrange(start as int, k as int), format),
            decreases end - k,
        {
            let view = self.partitions[partition][k].transfer_view(format);
            let ghost before = data@;
            let mut j: usize = 0;
            while j < view.len()
                invariant
                    j <= view@.len(),
                    data@ == before + view@.subrange(0, j as int),
                decreases view@.len() - j,
            {
                data.push_back(view[j]);
                j = j + 1;
                assert(data@ =~= before + view@.subrange(0, j as int));
            }
            proof {
                let next = part.subrange(start as int, k + 1);
                assert(next.drop_last() =~= part.subrange(start as int, k as int));
                assert(next.last() == part[k as int]);
                assert(view@.subrange(0, view@.len() as int) =~= view@);
            }
            k = k + 1;
        }
        self.data = data;
        self.transfer_bytes_read = 0;
        if delete {
            let ghost parts0 = self@.partitions;
            let mut taken: Vec<SaturnCdBufferedSector> = Vec::new();
            std::mem::swap(&mut self.partitions[partition], &mut taken);
            let mut removed: usize = 0;
            while removed < end - start
                invariant
                    removed <= end - start,
                    start <= end <= part.len(),
                    taken@ == part.subrange(0, start as int) + part.subrange(start + removed, part.len() as int),
                decreases end - start - removed,
            {
                taken.remove(start);
                removed = removed + 1;
                assert(taken@ =~= part.subrange(0, start as int) + part.subrange(start + removed, part.len() as int));
            }
            std::mem::swap(&mut self.partitions[partition], &mut taken);
            assert(self@.partitions =~= parts0.update(partition as int, without_range(part, start as int, end as int)));
            proof {
                lemma_buffered_update(parts0, partition as int, without_range(part, start as int, end as int), CD_PARTITION_COUNT as int);
            }
        }
        self.cr = [self.drive_status() | 0x4000, 0, 0, 0];
        self.hirq = self.hirq | 0x0003;
    }

    /// The 16-bit register at `address`.
    pub fn register16(&self, address: u32) -> (r: u16)
        ensures
            r == self@.register16(address),
    {
        let offset = address.wrapping_sub(0x0580_0000);
        if offset == 0x0009_0008 {
            self.hirq
        } else if offset == 0x0009_000c {
            self.hirq_mask
        } else if offset == 0x0009_0018 {
            self.cr[0]
        } else if offset == 0x0009_001c {
            self.cr[1]
        } else if offset == 0x0009_0020 {
            self.cr[2]
        } else if offset == 0x0009_0024 {
            self.cr[3]
        } else if offset == 0x0009_0028 {
            if self.data.len() > 0xffff {
                0xffff
            } else {
                self.data.len() as u16
            }
        } else {
            0
        }
    }

    /// A host byte read: the data port pops the data queue; other addresses
    /// read a byte of their register (even addresses the high byte).
    pub fn read8(&mut self, address: u32) -> (r: u8)
        ensures
            ({
                let offset = address.wrapping_sub(0x0580_0000);
                if offset == 0x0001_8000 || offset == 0x0001_8001 {
                    r == old(self)@.front_byte() && final(self)@ == old(self)@.after_pop()
                } else {
                    let word = old(self)@.register16(address & !1u32);
                    &&& r == (if address & 1 == 0 { (word / 0x100) as u8 } else { (word % 0x100) as u8 })
                    &&& final(self)@ == old(self)@
                }
            }),
    {
        let offset = address.wrapping_sub(0x0580_0000);
        if offset == 0x0001_8000 || offset == 0x0001_8001 {
            return self.pop_data_byte();
        }
        let word = self.register16(address & !1u32);
        if address & 1 == 0 {
            (word / 0x100) as u8
        } else {
            (word % 0x100) as u8
        }
    }

    /// A host word read: the data port pops two bytes (high first).
    pub fn read16(&mut self, address: u32) -> (r: u16)
        ensures
            ({
                let offset = address.wrapping_sub(0x0580_0000);
                if offset == 0x0001_8000 {
                    let once = old(self)@.after_pop();
                    &&& r == old(self)@.front_byte() as int * 0x100 + once.front_byte() as int
                    &&& final(self)@ == once.after_pop()
                } else {
                    r == old(self)@.register16(address & !1u32) && final(self)@ == old(self)@
                }
            }),
    {
        let offset = address.wrapping_sub(0x0580_0000);
        if offset == 0x0001_8000 {
            let high = self.pop_data_byte();
            let low = self.pop_data_byte();
            return high as u16 * 0x100 + low as u16;
        }
        self.register16(address & !1u32)
    }
}

/// Host words of sector data each sector of `sectors` gives at sector
/// length `format`, summed.
pub open spec fn size_words(sectors: Seq<SaturnCdBufferedSector>, format: u8) -> int
    decreases sectors.len(),
{
    if sectors.len() == 0 {
        0
    } else {
        let r = transfer_range(sectors.last().raw@, format);
        size_words(sectors.drop_last(), format) + (r.1 - r.0) / 2
    }
}

/// The FAD search over sectors `from..to` of a partition: the last sector
/// whose frame address is at most `target` and at least that of the best
/// earlier match, as (position, frame address); $FFFF for none.
pub open spec fn fad_search(part: Seq<SaturnCdBufferedSector>, target: u32, from: int, to: int) -> (u16, u32)
    decreases to - from,
{
    if to <= from {
        (0xffff, 0)
    } else {
        let best = fad_search(part, target, from, to - 1);
        let sector = part[to - 1];
        if sector.fad <= target && (best.0 == 0xffff || sector.fad >= best.1) {
            ((to - 1) as u16, sector.fad)
        } else {
            best
        }
    }
}

/// A filter with every condition cleared and its connections kept.
pub open spec fn conditions_cleared(f: SaturnCdFilter) -> SaturnCdFilter {
    SaturnCdFilter {
        mode: 0,
        fad: 0,
        range: 0,
        channel: 0,
        file: 0,
        submode: 0,
        submode_mask: 0,
        coding_info: 0,
        coding_info_mask: 0,
        ..f
    }
}

/// A filter after a selector reset with `flags` (bit 4 clears conditions,
/// bit 5 disconnects false connections into partitions, bit 6 restores the
/// true connection to the filter's own partition, bit 7 clears the false
/// connection).
pub open spec fn filter_after_reset(f: SaturnCdFilter, index: int, flags: u8) -> SaturnCdFilter {
    let f1 = if flags & 0x10 != 0 { conditions_cleared(f) } else { f };
    let f2 = if flags & 0x20 != 0 && (f1.false_conn as int) < CD_PARTITION_COUNT {
        SaturnCdFilter { false_conn: 0xff, ..f1 }
    } else {
        f1
    };
    let f3 = if flags & 0x40 != 0 { SaturnCdFilter { true_conn: index as u8, ..f2 } } else { f2 };
    if flags & 0x80 != 0 {
        SaturnCdFilter { false_conn: 0xff, ..f3 }
    } else {
        f3
    }
}

impl CdModel {
    pub open spec fn or_hirq(self, bits: u16) -> CdModel {
        CdModel { hirq: self.hirq | bits, ..self }
    }

    pub open spec fn answered(self, cr: [u16; 4], bits: u16) -> CdModel {
        CdModel { cr, hirq: self.hirq | bits, ..self }
    }

    /// The sectors `sectors` delivered one by one from filter `start`.
    pub open spec fn delivered_all(self, start: u8, sectors: Seq<SaturnCdBufferedSector>) -> CdModel
        decreases sectors.len(),
    {
        if sectors.len() == 0 {
            self
        } else {
            self.delivered_all(start, sectors.drop_last()).delivered(start, sectors.last())
        }
    }

    pub open spec fn request(self, k: int) -> u16 {
        self.cr[k]
    }

    /// The filter or partition number a command names in its third word.
    pub open spec fn selector(self) -> int {
        (self.cr[2] >> 8u16) as u8 as int
    }

    /// Play (command $10): start at a frame address, a track's start, or the
    /// current position; stop at an end frame address, a sector count, a
    /// track's end or the disc's end; read while the start is before the
    /// stop.
    pub open spec fn after_play(self) -> CdModel {
        match self.disc {
            None => CdModel { reading: false, ..self }.with_return(0x0700).or_hirq(0x0001),
            Some(disc) => {
                let r = self.cr;
                let start = (((r[0] & 0x00ff) as u32) << 16u32) | (r[1] as u32);
                let lba1: u32 = if start == 0x00ff_ffff {
                    self.current_lba
                } else if start & 0x0080_0000 != 0 {
                    sat_sub32((start & 0x000f_ffff) as int, 150)
                } else {
                    let track = ((start >> 8u32) & 0xff) as u8;
                    if track == 0 {
                        0
                    } else {
                        match disc.track_start(track) {
                            Some(lba) => lba,
                            None => self.current_lba,
                        }
                    }
                };
                let lba2: u32 = if lba1 < disc.sectors { lba1 } else { disc.sectors };
                let end = (((r[2] & 0x00ff) as u32) << 16u32) | (r[3] as u32);
                let target: u32 = if end == 0 || end == 0x00ff_ffff {
                    disc.sectors
                } else if end & 0x0080_0000 != 0 {
                    let t = if start & 0x0080_0000 != 0 {
                        sat_add32(lba2 as int, (end & 0x007f_ffff) as int)
                    } else {
                        sat_sub32((end & 0x007f_ffff) as int, 150)
                    };
                    if t < disc.sectors { t } else { disc.sectors }
                } else {
                    let end_track = ((end >> 8u32) & 0xff) as u8;
                    let next: u8 = if end_track == 0xff { 0xff } else { (end_track + 1) as u8 };
                    match disc.track_start(next) {
                        Some(lba) => lba,
                        None => disc.sectors,
                    }
                };
                let reading = lba2 < target;
                CdModel { current_lba: lba2, target_lba: target, reading, phase: 0, ..self }.cdda_rewound().with_return(
                    if reading { 0x0300 } else { 0x0100 },
                ).or_hirq(0x0001)
            },
        }
    }

    /// Seek (command $11): move to a frame address or a track's start, and
    /// stop there.
    pub open spec fn after_seek(self) -> CdModel {
        let r = self.cr;
        let lba1: u32 = if r[0] & 0x0080 != 0 {
            let target = (((r[0] & 0x00ff) as u32) << 16u32) | (r[1] as u32);
            if target != 0x00ff_ffff {
                sat_sub32((target & 0x007f_ffff) as int, 150)
            } else {
                self.current_lba
            }
        } else {
            let track = (r[1] >> 8u16) as u8;
            if track == 0 {
                0
            } else {
                match self.disc {
                    Some(disc) => match disc.track_start(track) {
                        Some(lba) => lba,
                        None => self.current_lba,
                    },
                    None => self.current_lba,
                }
            }
        };
        let lba2: u32 = match self.disc {
            Some(disc) => if lba1 < disc.sectors { lba1 } else { disc.sectors },
            None => lba1,
        };
        let m = CdModel { reading: false, current_lba: lba2, target_lba: lba2, ..self }.cdda_rewound();
        m.with_return(m.drive_status()).or_hirq(0x0001)
    }

    /// Filter commands $40-$47: set or get a filter's range, subheader
    /// conditions, mode and connections.
    pub open spec fn after_filter_command(self, command: u8) -> CdModel {
        let r = self.cr;
        let index = self.selector();
        let ds = self.drive_status();
        if index >= CD_PARTITION_COUNT && command != 0x46 {
            if command == 0x40 || command == 0x42 || command == 0x44 {
                self.rejected()
            } else {
                self.answered([0xff00u16, 0, 0, 0], 0x0001)
            }
        } else {
            let f = self.filters[index];
            if command == 0x40 {
                let g = SaturnCdFilter {
                    fad: (((r[0] as u8) as u32) << 16u32) | (r[1] as u32),
                    range: (((r[2] as u8) as u32) << 16u32) | (r[3] as u32),
                    ..f
                };
                CdModel { filters: self.filters.update(index, g), ..self }.with_return(ds).or_hirq(0x0041)
            } else if command == 0x41 {
                self.answered(
                    [
                        ds | ((f.fad >> 16u32) as u16 & 0x00ff),
                        f.fad as u16,
                        ((index as u16) << 8u16) | ((f.range >> 16u32) as u16 & 0x00ff),
                        f.range as u16,
                    ],
                    0x0001,
                )
            } else if command == 0x42 {
                let g = SaturnCdFilter {
                    channel: r[0] as u8,
                    submode_mask: (r[1] >> 8u16) as u8,
                    coding_info_mask: r[1] as u8,
                    file: r[2] as u8,
                    submode: (r[3] >> 8u16) as u8,
                    coding_info: r[3] as u8,
                    ..f
                };
                CdModel { filters: self.filters.update(index, g), ..self }.with_return(ds).or_hirq(0x0041)
            } else if command == 0x43 {
                self.answered(
                    [
                        ds | (f.channel as u16),
                        ((f.submode_mask as u16) << 8u16) | (f.coding_info_mask as u16),
                        ((index as u16) << 8u16) | (f.file as u16),
                        ((f.submode as u16) << 8u16) | (f.coding_info as u16),
                    ],
                    0x0001,
                )
            } else if command == 0x44 {
                let mode = r[0] as u8;
                let g = if mode & 0x80 != 0 {
                    conditions_cleared(f)
                } else {
                    SaturnCdFilter { mode, ..f }
                };
                CdModel { filters: self.filters.update(index, g), ..self }.with_return(ds).or_hirq(0x0041)
            } else if command == 0x45 {
                self.answered([ds | (f.mode as u16), 0, (index as u16) << 8u16, 0], 0x0001)
            } else if command == 0x46 {
                let flags = r[0] as u8;
                let true_conn = (r[1] >> 8u16) as u8;
                let false_conn = r[1] as u8;
                let valid_true = flags & 0x01 == 0 || true_conn == 0xff || (true_conn as int) < CD_PARTITION_COUNT;
                let valid_false = flags & 0x02 == 0 || false_conn == 0xff || (false_conn as int)
                    < CD_PARTITION_COUNT;
                if index < CD_PARTITION_COUNT && valid_true && valid_false {
                    let g1 = if flags & 0x01 != 0 { SaturnCdFilter { true_conn, ..f } } else { f };
                    let g2 = if flags & 0x02 != 0 { SaturnCdFilter { false_conn, ..g1 } } else { g1 };
                    CdModel { filters: self.filters.update(index, g2), ..self }.with_return(ds).or_hirq(0x0041)
                } else {
                    self.rejected()
                }
            } else {
                self.answered(
                    [ds, ((f.true_conn as u16) << 8u16) | (f.false_conn as u16), (index as u16) << 8u16, 0],
                    0x0001,
                )
            }
        }
    }

    /// Selector reset (command $48): with no flags, clear one partition;
    /// otherwise clear all partitions (bit 2) and reset every filter.
    pub open spec fn after_selector_reset(self) -> CdModel {
        let flags = self.cr[0] as u8;
        let p = self.selector();
        if flags == 0 && p >= CD_PARTITION_COUNT {
            self.rejected()
        } else {
            let m = if flags == 0 {
                CdModel { partitions: self.partitions.update(p, Seq::empty()), ..self }
            } else {
                CdModel {
                    partitions: if flags & 0x04 != 0 { empty_partitions() } else { self.partitions },
                    filters: Seq::new(24, |i: int| filter_after_reset(self.filters[i], i, flags)),
                    cd_device_connection: if flags & 0x20 != 0 && (self.cd_device_connection as int)
                        < CD_PARTITION_COUNT {
                        0xff
                    } else {
                        self.cd_device_connection
                    },
                    ..self
                }
            };
            let cleared = CdModel { hirq: m.hirq & !0x0008u16, ..m };
            cleared.with_return(cleared.drive_status()).or_hirq(0x0041)
        }
    }

    /// The selection a command's words pick in partition `p`.
    pub open spec fn picked(self, p: int) -> Option<(int, int)> {
        if p < CD_PARTITION_COUNT {
            selection(self.partitions[p].len() as int, self.cr[1], self.cr[3])
        } else {
            None
        }
    }

    /// Buffer information commands $50-$54.
    pub open spec fn after_buffer_info(self, command: u8) -> CdModel {
        let ds = self.drive_status();
        let p = self.selector();
        if command == 0x50 {
            let free = sat_sub32(CD_BUFFER_COUNT as int, self.buffered());
            self.answered([ds, free as u16, (CD_PARTITION_COUNT as u16) << 8u16, CD_BUFFER_COUNT as u16], 0x0001)
        } else if command == 0x51 {
            if p < CD_PARTITION_COUNT {
                self.answered([ds, 0, 0, self.partitions[p].len() as u16], 0x0001)
            } else {
                self.answered([0xff00u16, 0, 0, 0], 0x0001)
            }
        } else if command == 0x52 {
            match self.picked(p) {
                Some((s, e)) => CdModel {
                    actual_size_words: size_words(self.partitions[p].subrange(s, e), self.get_sector_length) as u32,
                    ..self
                }.with_return(ds).or_hirq(0x0041),
                None => self.with_return(0x0500).or_hirq(0x0001),
            }
        } else if command == 0x53 {
            self.answered(
                [ds | ((self.actual_size_words >> 16u32) as u16 & 0x00ff), self.actual_size_words as u16, 0, 0],
                0x0001,
            )
        } else {
            let offset: int = if self.cr[1] == 0xffff {
                if p < CD_PARTITION_COUNT { self.partitions[p].len() - 1 } else { -1 }
            } else {
                self.cr[1] as int
            };
            if p < CD_PARTITION_COUNT && 0 <= offset < self.partitions[p].len() {
                let sector = self.partitions[p][offset];
                let raw = sector.raw@;
                let sub = raw[15] == 2;
                let file: u8 = if sub { raw[16] } else { 0 };
                let channel: u8 = if sub { raw[17] } else { 0 };
                let submode: u8 = if sub { raw[18] } else { 0 };
                let coding: u8 = if sub { raw[19] } else { 0 };
                self.answered(
                    [
                        ds | ((sector.fad >> 16u32) as u16 & 0x00ff),
                        sector.fad as u16,
                        ((file as u16) << 8u16) | (channel as u16),
                        ((submode as u16) << 8u16) | (coding as u16),
                    ],
                    0x0001,
                )
            } else {
                self.answered([0xff00u16, 0, 0, 0], 0x0001)
            }
        }
    }

    /// FAD search (command $55) from a position of a partition.
    pub open spec fn after_fad_search(self) -> CdModel {
        let p = self.selector();
        let target = (((self.cr[2] as u8) as u32) << 16u32) | (self.cr[3] as u32);
        let start: int = if p < CD_PARTITION_COUNT {
            if self.cr[1] == 0xffff { self.partitions[p].len() - 1 } else { self.cr[1] as int }
        } else {
            -1
        };
        if p < CD_PARTITION_COUNT && 0 <= start < self.partitions[p].len() {
            let found = fad_search(self.partitions[p], target, start, self.partitions[p].len() as int);
            CdModel {
                fad_search_pos: found.0,
                fad_search_fad: found.1,
                fad_search_partition: p as u8,
                ..self
            }.with_return(self.drive_status()).or_hirq(0x0041)
        } else {
            self.rejected()
        }
    }

    /// Sector transfer commands $61-$63: get, delete, or get and delete.
    pub open spec fn after_sector_data(self, command: u8) -> CdModel {
        let p = self.selector();
        match self.picked(p) {
            Some((s, e)) => if command == 0x62 {
                let m = CdModel {
                    partitions: self.partitions.update(p, without_range(self.partitions[p], s, e)),
                    hirq: self.hirq & !0x0008u16,
                    ..self
                };
                m.with_return(m.drive_status()).or_hirq(0x0081)
            } else {
                let m = self.after_transfer(p, s, e, command == 0x63);
                if command == 0x63 {
                    CdModel { hirq: m.hirq & !0x0008u16, ..m }
                } else {
                    m
                }
            },
            None => self.with_return(0x0500).or_hirq(0x0001),
        }
    }

    /// Copy ($65) or move ($66) sectors of a partition through a filter.
    pub open spec fn after_copy_move(self, command: u8) -> CdModel {
        let filter = self.cr[0] as u8;
        let p = self.selector();
        match self.picked(p) {
            Some((s, e)) => if (filter as int) < CD_PARTITION_COUNT {
                if command == 0x65 && self.buffered() + (e - s) > CD_BUFFER_COUNT {
                    self.with_return(0x0600).or_hirq(0x0001)
                } else {
                    let sectors = self.partitions[p].subrange(s, e);
                    let m = if command == 0x66 {
                        CdModel {
                            partitions: self.partitions.update(p, without_range(self.partitions[p], s, e)),
                            hirq: self.hirq & !0x0008u16,
                            ..self
                        }
                    } else {
                        self
                    };
                    let d = m.delivered_all(filter, sectors);
                    let full = if d.buffered() >= CD_BUFFER_COUNT { d.or_hirq(0x0008) } else { d };
                    full.with_return(full.drive_status()).or_hirq(0x0101)
                }
            } else {
                self.rejected()
            },
            None => self.rejected(),
        }
    }

    /// The state after the command in the command registers.
    pub open spec fn after_command(self) -> CdModel {
        let r = self.cr;
        let command = (r[0] >> 8u16) as u8;
        let ds = self.drive_status();
        if command == 0x00 {
            self.with_return(ds).or_hirq(0x0001)
        } else if command == 0x01 {
            self.answered([ds, 0x0201, 0, 0x0400], 0x0001)
        } else if command == 0x02 {
            CdModel { data: toc_bytes(self.disc), ..self }.answered([0x4100u16, 204, 0, 0], 0x0003)
        } else if command == 0x03 {
            let leadout: u32 = match self.disc {
                Some(d) => sat_add32(d.sectors as int, 150),
                None => 150,
            };
            let session = r[0] & 0x00ff;
            if session == 0 {
                self.answered([ds, 0, 0x0100 | ((leadout >> 16u32) as u16 & 0x00ff), leadout as u16], 0x0001)
            } else if session == 1 {
                self.answered([ds, 0, 0x0100, 0], 0x0001)
            } else {
                self.answered([ds, 0, 0, 0], 0x0001)
            }
        } else if command == 0x04 {
            let m = CdModel {
                current_lba: 0,
                target_lba: 0,
                reading: false,
                phase: 0,
                data: Seq::empty(),
                ..self
            }.buffers_reset().cdda_rewound();
            let reported = m.with_return(m.drive_status());
            CdModel { hirq: (reported.hirq & 0xffe5) | 0x00c1, ..reported }
        } else if command == 0x06 {
            let words = self.transfer_bytes_read / 2;
            CdModel {
                data: Seq::empty(),
                transfer_bytes_read: 0,
                hirq: self.hirq & !0x0002u16,
                ..self
            }.answered([ds | ((words >> 16u32) as u16 & 0x00ff), words as u16, 0, 0], 0x0081)
        } else if command == 0x10 {
            self.after_play()
        } else if command == 0x11 {
            self.after_seek()
        } else if command == 0x30 {
            let connection = (r[2] >> 8u16) as u8;
            if connection == 0xff || (connection as int) < CD_PARTITION_COUNT {
                CdModel { cd_device_connection: connection, ..self }.with_return(ds).or_hirq(0x0041)
            } else {
                self.rejected()
            }
        } else if command == 0x31 {
            self.answered([ds, 0, (self.cd_device_connection as u16) << 8u16, 0], 0x0001)
        } else if command == 0x32 {
            self.answered([ds, 0, (self.last_buffer_destination as u16) << 8u16, 0], 0x0001)
        } else if 0x40 <= command <= 0x47 {
            self.after_filter_command(command)
        } else if command == 0x48 {
            self.after_selector_reset()
        } else if 0x50 <= command <= 0x54 {
            self.after_buffer_info(command)
        } else if command == 0x55 {
            self.after_fad_search()
        } else if command == 0x56 {
            self.answered(
                [
                    ds,
                    self.fad_search_pos,
                    ((self.fad_search_partition as u16) << 8u16) | ((self.fad_search_fad >> 16u32) as u16 & 0x00ff),
                    self.fad_search_fad as u16,
                ],
                0x0001,
            )
        } else if command == 0x60 {
            let get = r[0] as u8;
            let put = (r[1] >> 8u16) as u8;
            if (get == 0xff || get <= 3) && (put == 0xff || put <= 3) {
                CdModel {
                    get_sector_length: if get != 0xff { get } else { self.get_sector_length },
                    put_sector_length: if put != 0xff { put } else { self.put_sector_length },
                    ..self
                }.with_return(ds).or_hirq(0x0041)
            } else {
                self.rejected()
            }
        } else if 0x61 <= command <= 0x63 {
            self.after_sector_data(command)
        } else if command == 0x65 || command == 0x66 {
            self.after_copy_move(command)
        } else if command == 0x67 {
            self.answered([ds, 0, 0, 0], 0x0001)
        } else {
            self.rejected()
        }
    }
}

impl SaturnCdBlock {
    fn answer(&mut self, c0: u16, c1: u16, c2: u16, c3: u16, bits: u16)
        ensures
            final(self)@ == old(self)@.answered([c0, c1, c2, c3], bits),
    {
        self.cr = [c0, c1, c2, c3];
        self.hirq = self.hirq | bits;
        assert(self@.cr =~= [c0, c1, c2, c3]);
    }

    fn reject(&mut self)
        ensures
            final(self)@ == old(self)@.rejected(),
    {
        self.cr = [0xff00, 0, 0, 0];
        self.hirq = self.hirq | 0x0001;
        assert(self@.cr =~= [0xff00u16, 0, 0, 0]);
    }

    fn return_with(&mut self, status: u16, bits: u16)
        ensures
            final(self)@ == old(self)@.with_return(status).or_hirq(bits),
    {
        self.standard_return(status);
        self.hirq = self.hirq | bits;
    }

    /// A filter after a selector reset with `flags`.
    fn reset_filter(f: SaturnCdFilter, index: usize, flags: u8) -> (r: SaturnCdFilter)
        requires
            index < CD_PARTITION_COUNT,
        ensures
            r == filter_after_reset(f, index as int, flags),
    {
        let mut g = f;
        if flags & 0x10 != 0 {
            g.reset_condition();
        }
        if flags & 0x20 != 0 && (g.false_conn as usize) < CD_PARTITION_COUNT {
            g.false_conn = 0xff;
        }
        if flags & 0x40 != 0 {
            g.true_conn = index as u8;
        }
        if flags & 0x80 != 0 {
            g.false_conn = 0xff;
        }
        g
    }

    fn filter_command(&mut self, command: u8)
        requires
            old(self).wf(),
            0x40 <= command <= 0x47,
        ensures
            final(self).wf(),
            final(self)@ == old(self)@.after_filter_command(command),
    {
        let request = self.cr;
        let index = (request[2] >> 8u16) as u8 as usize;
        let ds = self.drive_status();
        if index >= CD_PARTITION_COUNT && command != 0x46 {
            if command == 0x40 || command == 0x42 || command == 0x44 {
                self.reject();
            } else {
                self.answer(0xff00, 0, 0, 0, 0x0001);
            }
            return;
        }
        if command == 0x40 {
            let mut f = self.filters[index];
            f.fad = ((request[0] as u8 as u32) << 16u32) | (request[1] as u32);
            f.range = ((request[2] as u8 as u32) << 16u32) | (request[3] as u32);
            self.filters[index] = f;
            assert(self@.filters =~= old(self)@.filters.update(index as int, f));
            self.return_with(ds, 0x0041);
        } else if command == 0x41 {
            let f = self.filters[index];
            self.answer(ds | ((f.fad >> 16u32) as u16 & 0x00ff),
                    #[verifier::truncate] (f.fad as u16),
                    ((index as u16) << 8u16) | ((f.range >> 16u32) as u16 & 0x00ff),
                    #[verifier::truncate] (f.range as u16), 0x0001,
            );
        } else if command == 0x42 {
            let mut f = self.filters[index];
            f.channel = #[verifier::truncate] (request[0] as u8);
            f.submode_mask = (request[1] >> 8u16) as u8;
            f.coding_info_mask = #[verifier::truncate] (request[1] as u8);
            f.file = #[verifier::truncate] (request[2] as u8);
            f.submode = (request[3] >> 8u16) as u8;
            f.coding_info = #[verifier::truncate] (request[3] as u8);
            self.filters[index] = f;
            assert(self@.filters =~= old(self)@.filters.update(index as int, f));
            self.return_with(ds, 0x0041);
        } else if command == 0x43 {
            let f = self.filters[index];
            self.answer(ds | (f.channel as u16),
                    ((f.submode_mask as u16) << 8u16) | (f.coding_info_mask as u16),
                    ((index as u16) << 8u16) | (f.file as u16),
                    ((f.submode as u16) << 8u16) | (f.coding_info as u16), 0x0001,
            );
        } else if command == 0x44 {
            let mut f = self.filters[index];
            f.mode = #[verifier::truncate] (request[0] as u8);
            if f.mode & 0x80 != 0 {
                f.reset_condition();
            }
            self.filters[index] = f;
            assert(self@.filters =~= old(self)@.filters.update(index as int, f));
            self.return_with(ds, 0x0041);
        } else if command == 0x45 {
            let f = self.filters[index];
            self.answer(ds | (f.mode as u16), 0, (index as u16) << 8u16, 0, 0x0001);
        } else if command == 0x46 {
            let flags = #[verifier::truncate] (request[0] as u8);
            let true_conn = (request[1] >> 8u16) as u8;
            let false_conn = #[verifier::truncate] (request[1] as u8);
            let valid_true = flags & 0x01 == 0 || true_conn == 0xff || (true_conn as usize) < CD_PARTITION_COUNT;
            let valid_false = flags & 0x02 == 0 || false_conn == 0xff || (false_conn as usize)
                < CD_PARTITION_COUNT;
            if index < CD_PARTITION_COUNT && valid_true && valid_false {
                let mut f = self.filters[index];
                if flags & 0x01 != 0 {
                    f.true_conn = true_conn;
                }
                if flags & 0x02 != 0 {
                    f.false_conn = false_conn;
                }
                self.filters[index] = f;
                assert(self@.filters =~= old(self)@.filters.update(index as int, f));
                self.return_with(ds, 0x0041);
            } else {
                self.reject();
            }
        } else {
            let f = self.filters[index];
            self.answer(ds, ((f.true_conn as u16) << 8u16) | (f.false_conn as u16), (index as u16) << 8u16, 0, 0x0001);
        }
    }

    fn selector_reset(&mut self)
        requires
            old(self).wf(),
        ensures
            final(self).wf(),
            final(self)@ == old(self)@.after_selector_reset(),
    {
        let flags = #[verifier::truncate] (self.cr[0] as u8);
        let partition = (self.cr[2] >> 8u16) as u8 as usize;
        if flags == 0 {
            if partition < CD_PARTITION_COUNT {
                let ghost parts0 = self@.partitions;
                self.partitions.set(partition, Vec::new());
                assert(self@.partitions =~= parts0.update(partition as int, Seq::empty()));
                proof {
                    lemma_buffered_update(parts0, partition as int, Seq::empty(), CD_PARTITION_COUNT as int);
                }
            } else {
                self.reject();
                return;
            }
        } else {
            if flags & 0x04 != 0 {
                self.partitions = Self::empty_partitions_vec();
                proof {
                    lemma_buffered_empty(CD_PARTITION_COUNT as int);
                }
            }
            let ghost filters0 = self@.filters;
            let ghost connection0 = self.cd_device_connection;
            let mut filters = self.filters;
            let mut connection = self.cd_device_connection;
            let mut i: usize = 0;
            while i < CD_PARTITION_COUNT
                invariant
                    i <= CD_PARTITION_COUNT,
                    filters@.len() == CD_PARTITION_COUNT,
                    filters0.len() == CD_PARTITION_COUNT,
                    forall|j: int| 0 <= j < i ==> #[trigger] filters@[j] == filter_after_reset(filters0[j], j, flags),
                    forall|j: int| i <= j < CD_PARTITION_COUNT ==> #[trigger] filters@[j] == filters0[j],
                    connection == (if flags & 0x20 != 0 && (connection0 as int) < i {
                        0xff
                    } else {
                        connection0
                    }),
                decreases CD_PARTITION_COUNT - i,
            {
                if flags & 0x20 != 0 && connection == i as u8 {
                    connection = 0xff;
                }
                let f = filters[i];
                filters[i] = Self::reset_filter(f, i, flags);
                i = i + 1;
            }
            self.filters = filters;
            self.cd_device_connection = connection;
            assert(self@.filters =~= Seq::new(24, |j: int| filter_after_reset(filters0[j], j, flags)));
        }
        self.hirq = self.hirq & !0x0008u16;
        let ds = self.drive_status();
        self.return_with(ds, 0x0041);
    }
}

proof fn lemma_size_words_bound(sectors: Seq<SaturnCdBufferedSector>, format: u8)
    ensures
        0 <= size_words(sectors, format) <= 1176 * sectors.len(),
    decreases sectors.len(),
{
    if sectors.len() > 0 {
        lemma_size_words_bound(sectors.drop_last(), format);
    }
}

impl SaturnCdBlock {
    /// Sectors `start..end` of partition `p` taken out of it.
    fn remove_range(&mut self, p: usize, start: usize, end: usize) -> (removed: Vec<SaturnCdBufferedSector>)
        requires
            old(self).wf(),
            p < CD_PARTITION_COUNT,
            start <= end <= old(self)@.partitions[p as int].len(),
        ensures
            final(self).wf(),
            final(self)@ == (CdModel {
                partitions: old(self)@.partitions.update(
                    p as int,
                    without_range(old(self)@.partitions[p as int], start as int, end as int),
                ),
                ..old(self)@
            }),
            removed@ == old(self)@.partitions[p as int].subrange(start as int, end as int),
            final(self)@.buffered() == old(self)@.buffered() - (end - start),
    {
        let ghost parts0 = self@.partitions;
        let ghost part = parts0[p as int];
        let mut taken: Vec<SaturnCdBufferedSector> = Vec::new();
        std::mem::swap(&mut self.partitions[p], &mut taken);
        let mut removed: Vec<SaturnCdBufferedSector> = Vec::new();
        let mut k: usize = 0;
        while k < end - start
            invariant
                k <= end - start,
                start <= end <= part.len(),
                taken@ == part.subrange(0, start as int) + part.subrange(start + k, part.len() as int),
                removed@ == part.subrange(start as int, start + k),
            decreases end - start - k,
        {
            let sector = taken.remove(start);
            removed.push(sector);
            k = k + 1;
            assert(taken@ =~= part.subrange(0, start as int) + part.subrange(start + k, part.len() as int));
            assert(removed@ =~= part.subrange(start as int, start + k));
        }
        std::mem::swap(&mut self.partitions[p], &mut taken);
        assert(self@.partitions =~= parts0.update(p as int, without_range(part, start as int, end as int)));
        proof {
            lemma_buffered_update(parts0, p as int, without_range(part, start as int, end as int), CD_PARTITION_COUNT as int);
        }
        removed
    }

    /// A copy of a buffered sector.
    fn copy_sector(sector: &SaturnCdBufferedSector) -> (r: SaturnCdBufferedSector)
        ensures
            r == *sector,
    {
        SaturnCdBufferedSector { fad: sector.fad, raw: Box::new(*sector.raw) }
    }

    fn buffer_info(&mut self, command: u8)
        requires
            old(self).wf(),
            0x50 <= command <= 0x54,
        ensures
            final(self).wf(),
            final(self)@ == old(self)@.after_buffer_info(command),
    {
        let ds = self.drive_status();
        let p = (self.cr[2] >> 8u16) as u8 as usize;
        if command == 0x50 {
            let total = self.total_buffered_sectors();
            let free = CD_BUFFER_COUNT.saturating_sub(total);
            self.answer(ds, free as u16, (CD_PARTITION_COUNT as u16) << 8u16, CD_BUFFER_COUNT as u16, 0x0001);
        } else if command == 0x51 {
            if p < CD_PARTITION_COUNT {
                let len = #[verifier::truncate] (self.partitions[p].len() as u16);
                self.answer(ds, 0, 0, len, 0x0001);
            } else {
                self.answer(0xff00, 0, 0, 0, 0x0001);
            }
        } else if command == 0x52 {
            let range = if p < CD_PARTITION_COUNT {
                Self::selection_range(self.partitions[p].len(), self.cr[1], self.cr[3])
            } else {
                None
            };
            match range {
                Some(range) => {
                    let ghost part = self@.partitions[p as int];
                    let format = self.get_sector_length;
                    proof {
                        lemma_part_within_total(self@.partitions, p as int, CD_PARTITION_COUNT as int);
                    }
                    let mut total: u32 = 0;
                    let mut k: usize = range.start;
                    while k < range.end
                        invariant
                            range.start <= k <= range.end <= part.len() <= CD_BUFFER_COUNT,
                            part == self@.partitions[p as int],
                            p < CD_PARTITION_COUNT,
                            self.wf(),
                            format == self.get_sector_length,
                            total == size_words(part.subrange(range.start as int, k as int), format),
                        decreases range.end - k,
                    {
                        proof {
                            lemma_size_words_bound(part.subrange(range.start as int, k as int), format);
                            let next = part.subrange(range.start as int, k + 1);
                            assert(next.drop_last() =~= part.subrange(range.start as int, k as int));
                            assert(next.last() == part[k as int]);
                        }
                        let view = self.partitions[p][k].transfer_view(format);
                        total = total + (view.len() / 2) as u32;
                        k = k + 1;
                    }
                    self.actual_size_words = total;
                    self.return_with(ds, 0x0041);
                },
                None => {
                    self.return_with(0x0500, 0x0001);
                },
            }
        } else if command == 0x53 {
            let words = self.actual_size_words;
            self.answer(ds | ((words >> 16u32) as u16 & 0x00ff), #[verifier::truncate] (words as u16), 0, 0, 0x0001);
        } else {
            let offset: Option<usize> = if self.cr[1] == 0xffff {
                if p < CD_PARTITION_COUNT && self.partitions[p].len() > 0 {
                    Some(self.partitions[p].len() - 1)
                } else {
                    None
                }
            } else {
                Some(self.cr[1] as usize)
            };
            match offset {
                Some(offset) if p < CD_PARTITION_COUNT && offset < self.partitions[p].len() => {
                    let sector = &self.partitions[p][offset];
                    let sub = sector.raw[15] == 2;
                    let file: u8 = if sub { sector.raw[16] } else { 0 };
                    let channel: u8 = if sub { sector.raw[17] } else { 0 };
                    let submode: u8 = if sub { sector.raw[18] } else { 0 };
                    let coding: u8 = if sub { sector.raw[19] } else { 0 };
                    let fad = sector.fad;
                    self.answer(
                        ds | ((fad >> 16u32) as u16 & 0x00ff),
                        #[verifier::truncate] (fad as u16),
                        ((file as u16) << 8u16) | (channel as u16),
                        ((submode as u16) << 8u16) | (coding as u16),
                        0x0001,
                    );
                },
                _ => {
                    self.answer(0xff00, 0, 0, 0, 0x0001);
                },
            }
        }
    }

    fn search_fad(&mut self)
        requires
            old(self).wf(),
        ensures
            final(self).wf(),
            final(self)@ == old(self)@.after_fad_search(),
    {
        let p = (self.cr[2] >> 8u16) as u8 as usize;
        let target = ((#[verifier::truncate] (self.cr[2] as u8) as u32) << 16u32) | (self.cr[3] as u32);
        let start: Option<usize> = if p < CD_PARTITION_COUNT {
            if self.cr[1] == 0xffff {
                if self.partitions[p].len() > 0 {
                    Some(self.partitions[p].len() - 1)
                } else {
                    None
                }
            } else {
                Some(self.cr[1] as usize)
            }
        } else {
            None
        };
        match start {
            Some(start) if start < self.partitions[p].len() => {
                let ghost part = self@.partitions[p as int];
                proof {
                    lemma_part_within_total(self@.partitions, p as int, CD_PARTITION_COUNT as int);
                }
                let len = self.partitions[p].len();
                let mut pos: u16 = 0xffff;
                let mut best: u32 = 0;
                let mut k: usize = start;
                while k < len
                    invariant
                        start <= k <= len,
                        len == part.len() <= CD_BUFFER_COUNT,
                        part == self@.partitions[p as int],
                        p < CD_PARTITION_COUNT,
                        self.wf(),
                        (pos, best) == fad_search(part, target, start as int, k as int),
                    decreases len - k,
                {
                    let fad = self.partitions[p][k].fad;
                    if fad <= target && (pos == 0xffff || fad >= best) {
                        pos = k as u16;
                        best = fad;
                    }
                    k = k + 1;
                }
                self.fad_search_fad = best;
                self.fad_search_pos = pos;
                self.fad_search_partition = p as u8;
                let ds = self.drive_status();
                self.return_with(ds, 0x0041);
            },
            _ => {
                self.reject();
            },
        }
    }

    fn sector_data(&mut self, command: u8)
        requires
            old(self).wf(),
            0x61 <= command <= 0x63,
        ensures
            final(self).wf(),
            final(self)@ == old(self)@.after_sector_data(command),
    {
        let p = (self.cr[2] >> 8u16) as u8 as usize;
        let range = if p < CD_PARTITION_COUNT {
            Self::selection_range(self.partitions[p].len(), self.cr[1], self.cr[3])
        } else {
            None
        };
        match range {
            Some(range) => {
                if command == 0x62 {
                    let _ = self.remove_range(p, range.start, range.end);
                    self.hirq = self.hirq & !0x0008u16;
                    let ds = self.drive_status();
                    self.return_with(ds, 0x0081);
                } else {
                    self.queue_partition_transfer(p, range.start, range.end, command == 0x63);
                    if command == 0x63 {
                        self.hirq = self.hirq & !0x0008u16;
                    }
                }
            },
            None => {
                self.return_with(0x0500, 0x0001);
            },
        }
    }

    fn copy_move(&mut self, command: u8)
        requires
            old(self).wf(),
            command == 0x65 || command == 0x66,
        ensures
            final(self).wf(),
            final(self)@ == old(self)@.after_copy_move(command),
    {
        let filter = #[verifier::truncate] (self.cr[0] as u8);
        let p = (self.cr[2] >> 8u16) as u8 as usize;
        let range = if p < CD_PARTITION_COUNT {
            Self::selection_range(self.partitions[p].len(), self.cr[1], self.cr[3])
        } else {
            None
        };
        match range {
            Some(range) if (filter as usize) < CD_PARTITION_COUNT => {
                let count = range.end - range.start;
                let total = self.total_buffered_sectors();
                if command == 0x65 && total.saturating_add(count) > CD_BUFFER_COUNT {
                    self.return_with(0x0600, 0x0001);
                    return;
                }
                let ghost m0 = self@;
                let sectors = if command == 0x66 {
                    let taken = self.remove_range(p, range.start, range.end);
                    self.hirq = self.hirq & !0x0008u16;
                    taken
                } else {
                    let mut copies: Vec<SaturnCdBufferedSector> = Vec::new();
                    let mut k: usize = range.start;
                    while k < range.end
                        invariant
                            range.start <= k <= range.end <= self@.partitions[p as int].len(),
                            p < CD_PARTITION_COUNT,
                            self.wf(),
                            copies@ == self@.partitions[p as int].subrange(range.start as int, k as int),
                        decreases range.end - k,
                    {
                        copies.push(Self::copy_sector(&self.partitions[p][k]));
                        k = k + 1;
                        assert(copies@ =~= self@.partitions[p as int].subrange(range.start as int, k as int));
                    }
                    copies
                };
                let ghost start_model = self@;
                assert(sectors@ == m0.partitions[p as int].subrange(range.start as int, range.end as int));
                assert(start_model.buffered() + sectors@.len() <= CD_BUFFER_COUNT);
                let mut k: usize = 0;
                while k < sectors.len()
                    invariant
                        k <= sectors@.len(),
                        self.wf(),
                        self@ == start_model.delivered_all(filter, sectors@.subrange(0, k as int)),
                        self@.buffered() <= start_model.buffered() + k,
                        start_model.buffered() + sectors@.len() <= CD_BUFFER_COUNT,
                    decreases sectors@.len() - k,
                {
                    let sector = Self::copy_sector(&sectors[k]);
                    self.deliver(filter, sector);
                    proof {
                        let next = sectors@.subrange(0, k + 1);
                        assert(next.drop_last() =~= sectors@.subrange(0, k as int));
                        assert(next.last() == sectors@[k as int]);
                    }
                    k = k + 1;
                }
                assert(sectors@.subrange(0, sectors@.len() as int) =~= sectors@);
                let total = self.total_buffered_sectors();
                if total >= CD_BUFFER_COUNT {
                    self.hirq = self.hirq | 0x0008;
                }
                let ds = self.drive_status();
                self.return_with(ds, 0x0101);
            },
            _ => {
                self.reject();
            },
        }
    }
}

impl SaturnCdBlock {
    fn play(&mut self)
        requires
            old(self).wf(),
        ensures
            final(self).wf(),
            final(self)@ == old(self)@.after_play(),
    {
        let request = self.cr;
        match &self.disc {
            None => {
                self.reading = false;
                self.return_with(0x0700, 0x0001);
            },
            Some(disc) => {
                let sectors = disc.sectors;
                let start = ((#[verifier::truncate] ((request[0] & 0x00ff) as u32)) << 16u32) | (request[1] as u32);
                let mut lba = self.current_lba;
                if start != 0x00ff_ffff {
                    if start & 0x0080_0000 != 0 {
                        lba = (start & 0x000f_ffff).saturating_sub(150);
                    } else {
                        let track = ((start >> 8u32) & 0xff) as u8;
                        if track == 0 {
                            lba = 0;
                        } else if (track as usize) < disc.track_starts.len() {
                            match disc.track_starts[track as usize] {
                                Some(start_lba) => {
                                    lba = start_lba;
                                },
                                None => {},
                            }
                        }
                    }
                }
                if lba > sectors {
                    lba = sectors;
                }
                let end = ((#[verifier::truncate] ((request[2] & 0x00ff) as u32)) << 16u32) | (request[3] as u32);
                let target = if end == 0 || end == 0x00ff_ffff {
                    sectors
                } else if end & 0x0080_0000 != 0 {
                    let t = if start & 0x0080_0000 != 0 {
                        lba.saturating_add(end & 0x007f_ffff)
                    } else {
                        (end & 0x007f_ffff).saturating_sub(150)
                    };
                    if t < sectors { t } else { sectors }
                } else {
                    let end_track = ((end >> 8u32) & 0xff) as u8;
                    let next = end_track.saturating_add(1);
                    if (next as usize) < disc.track_starts.len() {
                        match disc.track_starts[next as usize] {
                            Some(start_lba) => start_lba,
                            None => sectors,
                        }
                    } else {
                        sectors
                    }
                };
                self.current_lba = lba;
                self.target_lba = target;
                self.reading = lba < target;
                self.phase = 0;
                self.reset_cdda_position();
                let status = if self.reading { 0x0300 } else { 0x0100 };
                self.return_with(status, 0x0001);
            },
        }
    }

    fn seek(&mut self)
        requires
            old(self).wf(),
        ensures
            final(self).wf(),
            final(self)@ == old(self)@.after_seek(),
    {
        let request = self.cr;
        self.reading = false;
        let mut lba = self.current_lba;
        if request[0] & 0x0080 != 0 {
            let target = ((#[verifier::truncate] ((request[0] & 0x00ff) as u32)) << 16u32) | (request[1] as u32);
            if target != 0x00ff_ffff {
                lba = (target & 0x007f_ffff).saturating_sub(150);
            }
        } else {
            let track = (request[1] >> 8u16) as u8;
            if track == 0 {
                lba = 0;
            } else {
                match &self.disc {
                    Some(disc) => {
                        if (track as usize) < disc.track_starts.len() {
                            match disc.track_starts[track as usize] {
                                Some(start_lba) => {
                                    lba = start_lba;
                                },
                                None => {},
                            }
                        }
                    },
                    None => {},
                }
            }
        }
        match &self.disc {
            Some(disc) => {
                if lba > disc.sectors {
                    lba = disc.sectors;
                }
            },
            None => {},
        }
        self.current_lba = lba;
        self.target_lba = lba;
        self.reset_cdda_position();
        let ds = self.drive_status();
        self.return_with(ds, 0x0001);
    }

    /// Runs the command in the command registers and posts its answer.
    pub fn issue_command(&mut self)
        requires
            old(self).wf(),
        ensures
            final(self).wf(),
            final(self)@ == old(self)@.after_command(),
    {
        let request = self.cr;
        let command = (request[0] >> 8u16) as u8;
        let ds = self.drive_status();
        if command == 0x00 {
            self.return_with(ds, 0x0001);
        } else if command == 0x01 {
            self.answer(ds, 0x0201, 0, 0x0400, 0x0001);
        } else if command == 0x02 {
            self.queue_toc();
            self.answer(0x4100, 204, 0, 0, 0x0003);
        } else if command == 0x03 {
            let leadout: u32 = match &self.disc {
                Some(disc) => disc.sectors.saturating_add(150),
                None => 150,
            };
            let session = request[0] & 0x00ff;
            if session == 0 {
                self.answer(ds, 0, 0x0100 | ((leadout >> 16u32) as u16 & 0x00ff), #[verifier::truncate] (leadout as u16), 0x0001);
            } else if session == 1 {
                self.answer(ds, 0, 0x0100, 0, 0x0001);
            } else {
                self.answer(ds, 0, 0, 0, 0x0001);
            }
        } else if command == 0x04 {
            self.current_lba = 0;
            self.target_lba = 0;
            self.reading = false;
            self.phase = 0;
            self.data = std::collections::VecDeque::new();
            self.reset_buffers_and_selectors();
            self.reset_cdda_position();
            let ds = self.drive_status();
            self.standard_return(ds);
            self.hirq = (self.hirq & 0xffe5) | 0x00c1;
        } else if command == 0x06 {
            let words = self.transfer_bytes_read / 2;
            self.data = std::collections::VecDeque::new();
            self.transfer_bytes_read = 0;
            self.hirq = self.hirq & !0x0002u16;
            self.answer(ds | ((words >> 16u32) as u16 & 0x00ff), #[verifier::truncate] (words as u16), 0, 0, 0x0081);
        } else if command == 0x10 {
            self.play();
        } else if command == 0x11 {
            self.seek();
        } else if command == 0x30 {
            let connection = (request[2] >> 8u16) as u8;
            if connection == 0xff || (connection as usize) < CD_PARTITION_COUNT {
                self.cd_device_connection = connection;
                self.return_with(ds, 0x0041);
            } else {
                self.reject();
            }
        } else if command == 0x31 {
            let connection = self.cd_device_connection;
            self.answer(ds, 0, (connection as u16) << 8u16, 0, 0x0001);
        } else if command == 0x32 {
            let destination = self.last_buffer_destination;
            self.answer(ds, 0, (destination as u16) << 8u16, 0, 0x0001);
        } else if 0x40 <= command && command <= 0x47 {
            self.filter_command(command);
        } else if command == 0x48 {
            self.selector_reset();
        } else if 0x50 <= command && command <= 0x54 {
            self.buffer_info(command);
        } else if command == 0x55 {
            self.search_fad();
        } else if command == 0x56 {
            let pos = self.fad_search_pos;
            let partition = self.fad_search_partition;
            let fad = self.fad_search_fad;
            self.answer(
                ds,
                pos,
                ((partition as u16) << 8u16) | ((fad >> 16u32) as u16 & 0x00ff),
                #[verifier::truncate] (fad as u16),
                0x0001,
            );
        } else if command == 0x60 {
            let get = #[verifier::truncate] (request[0] as u8);
            let put = (request[1] >> 8u16) as u8;
            if (get == 0xff || get <= 3) && (put == 0xff || put <= 3) {
                if get != 0xff {
                    self.get_sector_length = get;
                }
                if put != 0xff {
                    self.put_sector_length = put;
                }
                self.return_with(ds, 0x0041);
            } else {
                self.reject();
            }
        } else if 0x61 <= command && command <= 0x63 {
            self.sector_data(command);
        } else if command == 0x65 || command == 0x66 {
            self.copy_move(command);
        } else if command == 0x67 {
            self.answer(ds, 0, 0, 0, 0x0001);
        } else {
            self.reject();
        }
    }

    /// A host word write: clearing interrupt flags, the interrupt mask, or
    /// a command register (writing the last one runs the command).
    pub fn write16(&mut self, address: u32, value: u16)
        requires
            old(self).wf(),
        ensures
            final(self).wf(),
            final(self)@ == old(self)@.after_write16(address, value),
    {
        let offset = address.wrapping_sub(0x0580_0000);
        if offset == 0x0009_0008 {
            self.hirq = self.hirq & !value;
        } else if offset == 0x0009_000c {
            self.hirq_mask = value;
        } else if offset == 0x0009_0018 {
            self.cr[0] = value;
            assert(self@.cr =~= [value, old(self).cr[1], old(self).cr[2], old(self).cr[3]]);
        } else if offset == 0x0009_001c {
            self.cr[1] = value;
            assert(self@.cr =~= [old(self).cr[0], value, old(self).cr[2], old(self).cr[3]]);
        } else if offset == 0x0009_0020 {
            self.cr[2] = value;
            assert(self@.cr =~= [old(self).cr[0], old(self).cr[1], value, old(self).cr[3]]);
        } else if offset == 0x0009_0024 {
            self.cr[3] = value;
            assert(self@.cr =~= [old(self).cr[0], old(self).cr[1], old(self).cr[2], value]);
            self.issue_command();
        }
    }

    /// A host byte write: merges the byte into its register word (even
    /// addresses the high byte) and writes the word.
    pub fn write8(&mut self, address: u32, value: u8)
        requires
            old(self).wf(),
        ensures
            final(self).wf(),
            ({
                let word = old(self)@.register16(address & !1u32);
                let merged: u16 = if address & 1 == 0 {
                    (value as int * 0x100 + word as int % 0x100) as u16
                } else {
                    (word as int / 0x100 * 0x100 + value as int) as u16
                };
                final(self)@ == old(self)@.after_write16(address & !1u32, merged)
            }),
    {
        let aligned = address & !1u32;
        let word = self.register16(aligned);
        let merged = if address & 1 == 0 {
            (value as u16) * 0x100 + word % 0x100
        } else {
            word / 0x100 * 0x100 + value as u16
        };
        self.write16(aligned, merged);
    }
}

impl CdModel {
    /// The state after a host word write at `address`.
    pub open spec fn after_write16(self, address: u32, value: u16) -> CdModel {
        let offset = address.wrapping_sub(0x0580_0000);
        if offset == 0x0009_0008 {
            CdModel { hirq: self.hirq & !value, ..self }
        } else if offset == 0x0009_000c {
            CdModel { hirq_mask: value, ..self }
        } else if offset == 0x0009_0018 {
            CdModel { cr: [value, self.cr[1], self.cr[2], self.cr[3]], ..self }
        } else if offset == 0x0009_001c {
            CdModel { cr: [self.cr[0], value, self.cr[2], self.cr[3]], ..self }
        } else if offset == 0x0009_0020 {
            CdModel { cr: [self.cr[0], self.cr[1], value, self.cr[3]], ..self }
        } else if offset == 0x0009_0024 {
            CdModel { cr: [self.cr[0], self.cr[1], self.cr[2], value], ..self }.after_command()
        } else {
            self
        }
    }
}

/// The stereo sample `index` of a CD-DA sector (little-endian 16-bit
/// left and right).
pub open spec fn cdda_sample_at(sector: Seq<u8>, index: int) -> [i16; 2] {
    let o = index * 4;
    [
        (sector[o + 1] as int * 0x100 + sector[o] as int) as u16 as i16,
        (sector[o + 3] as int * 0x100 + sector[o + 2] as int) as u16 as i16,
    ]
}

/// What the audio path needs next.
#[derive(Debug, Clone, Copy, PartialEq, Eq, Structural)]
pub enum CddaStep {
    /// No more samples are due this tick.
    Done,
    /// A sample went to the queue.
    Sample,
    /// The sector at this LBA must be read before the next sample.
    NeedSector(u32),
    /// Audio playback stopped.
    Stopped,
}

/// What the data path needs next.
#[derive(Debug, Clone, Copy, PartialEq, Eq, Structural)]
pub enum DataStep {
    /// No more sectors are due this tick, or reading stopped.
    Done,
    /// The sector at this LBA must be read and delivered.
    NeedSector(u32),
}

impl CdModel {
    /// Whether the drive is playing audio: reading with a loaded audio
    /// sector not yet used up, or positioned in a track the disc image
    /// reports as audio (`audio_track`).
    pub open spec fn audio_path_active(self, audio_track: bool) -> bool {
        self.reading && (self.cdda_sample_index < CDDA_FRAMES_PER_SECTOR || audio_track)
    }

    /// The data path's drive time after `sh_cycles` CPU cycles: 150
    /// sectors a second while reading.
    pub open spec fn data_time_accrued(self, sh_cycles: u32) -> CdModel {
        if !self.reading {
            self
        } else {
            CdModel { phase: sat_add64(self.phase as int, sh_cycles as int * SECTORS_PER_SECOND), ..self }
        }
    }

    /// One due sector slot of the data path: stop when the buffer is full,
    /// there is no disc, or the position reached the disc's end or the
    /// play's end; else ask for the sector at the position.
    pub open spec fn data_step(self) -> (CdModel, DataStep) {
        if self.phase < SH2_HZ {
            (self, DataStep::Done)
        } else {
            let m = CdModel { phase: (self.phase - SH2_HZ) as u64, ..self };
            if m.buffered() >= CD_BUFFER_COUNT {
                (m.or_hirq(0x0008), DataStep::Done)
            } else {
                match m.disc {
                    None => (CdModel { reading: false, ..m }.or_hirq(0x0010), DataStep::Done),
                    Some(disc) => if m.current_lba >= disc.sectors || m.current_lba >= m.target_lba {
                        (CdModel { reading: false, ..m }.or_hirq(0x0010), DataStep::Done)
                    } else {
                        (m, DataStep::NeedSector(m.current_lba))
                    },
                }
            }
        }
    }

    /// The state after the sector at the position has been read: it enters
    /// the filter chain from the drive's connection and the drive moves on.
    pub open spec fn data_sector_delivered(self, raw: Seq<u8>, sector: SaturnCdBufferedSector) -> CdModel {
        let d = self.delivered(self.cd_device_connection, sector);
        let moved = CdModel { current_lba: self.current_lba.wrapping_add(1), ..d }.or_hirq(0x0004);
        if moved.buffered() >= CD_BUFFER_COUNT {
            moved.or_hirq(0x0008)
        } else {
            moved
        }
    }

    /// The audio path's sample time after `sh_cycles` CPU cycles.
    pub open spec fn audio_time_accrued(self, sh_cycles: u32) -> CdModel {
        CdModel { cdda_phase: sat_add64(self.cdda_phase as int, sh_cycles as int * AUDIO_RATE), ..self }
    }

    /// The next sample of the loaded audio sector queued.
    pub open spec fn sample_taken(self) -> CdModel {
        CdModel {
            cdda_samples: self.cdda_samples.push(cdda_sample_at(self.cdda_sector, self.cdda_sample_index as int)),
            cdda_sample_index: (self.cdda_sample_index + 1) as usize,
            ..self
        }
    }

    /// One due sample slot of the audio path: the next sample of the loaded
    /// sector, or, once it is used up, the next sector when the position is
    /// still inside the disc, the play and an audio track (`audio_track`);
    /// otherwise playback stops.
    pub open spec fn audio_step(self, audio_track: bool) -> (CdModel, CddaStep) {
        if self.cdda_phase < SH2_HZ {
            (self, CddaStep::Done)
        } else {
            let m = CdModel { cdda_phase: (self.cdda_phase - SH2_HZ) as u64, ..self };
            if m.cdda_sample_index < CDDA_FRAMES_PER_SECTOR {
                (m.sample_taken(), CddaStep::Sample)
            } else {
                match m.disc {
                    None => (CdModel { reading: false, ..m }, CddaStep::Stopped),
                    Some(disc) => if m.current_lba >= disc.sectors || m.current_lba >= m.target_lba || !audio_track {
                        (CdModel { reading: false, ..m }.or_hirq(0x0010), CddaStep::Stopped)
                    } else {
                        (m, CddaStep::NeedSector(m.current_lba))
                    },
                }
            }
        }
    }
}

/// `a + b` capped at `u64::MAX`.
pub open spec fn sat_add64(a: int, b: int) -> u64 {
    if a + b > u64::MAX {
        u64::MAX
    } else {
        (a + b) as u64
    }
}

impl SaturnCdBlock {
    /// Whether the drive is playing audio (`audio_track`: the disc image
    /// reports the position inside an audio track).
    pub fn audio_path_active(&self, audio_track: bool) -> (r: bool)
        ensures
            r == self@.audio_path_active(audio_track),
    {
        if !self.reading {
            return false;
        }
        if self.cdda_sample_index < CDDA_FRAMES_PER_SECTOR {
            return true;
        }
        audio_track
    }

    /// Adds `sh_cycles` of data-path drive time.
    pub fn accrue_data_time(&mut self, sh_cycles: u32)
        ensures
            final(self)@ == old(self)@.data_time_accrued(sh_cycles),
    {
        if self.reading {
            self.phase = self.phase.saturating_add(sh_cycles as u64 * SECTORS_PER_SECOND);
        }
    }

    /// Takes one due data-sector slot (see `data_step`).
    pub fn next_data_read(&mut self) -> (r: DataStep)
        requires
            old(self).wf(),
        ensures
            final(self).wf(),
            (final(self)@, r) == old(self)@.data_step(),
    {
        if self.phase < SH2_HZ {
            return DataStep::Done;
        }
        self.phase = self.phase - SH2_HZ;
        if self.total_buffered_sectors() >= CD_BUFFER_COUNT {
            self.hirq = self.hirq | 0x0008;
            return DataStep::Done;
        }
        let stop = match &self.disc {
            None => true,
            Some(disc) => self.current_lba >= disc.sectors || self.current_lba >= self.target_lba,
        };
        if stop {
            self.reading = false;
            self.hirq = self.hirq | 0x0010;
            return DataStep::Done;
        }
        DataStep::NeedSector(self.current_lba)
    }

    /// Takes in the sector just read at the drive position.
    pub fn deliver_data_sector(&mut self, raw: Box<[u8; 2352]>)
        requires
            old(self).wf(),
            old(self)@.buffered() < CD_BUFFER_COUNT,
        ensures
            final(self).wf(),
            final(self)@ == old(self)@.data_sector_delivered(
                raw@,
                SaturnCdBufferedSector { fad: old(self)@.current_fad(), raw },
            ),
    {
        let sector = SaturnCdBufferedSector { fad: self.current_fad(), raw };
        let connection = self.cd_device_connection;
        self.deliver(connection, sector);
        self.current_lba = self.current_lba.wrapping_add(1);
        self.hirq = self.hirq | 0x0004;
        if self.total_buffered_sectors() >= CD_BUFFER_COUNT {
            self.hirq = self.hirq | 0x0008;
        }
    }

    /// Adds `sh_cycles` of audio sample time.
    pub fn accrue_audio_time(&mut self, sh_cycles: u32)
        ensures
            final(self)@ == old(self)@.audio_time_accrued(sh_cycles),
    {
        self.cdda_phase = self.cdda_phase.saturating_add(sh_cycles as u64 * AUDIO_RATE);
    }

    fn take_sample(&mut self)
        requires
            old(self).wf(),
            old(self).cdda_sample_index < CDDA_FRAMES_PER_SECTOR,
        ensures
            final(self).wf(),
            final(self)@ == old(self)@.sample_taken(),
    {
        let o = self.cdda_sample_index * 4;
        let sample = [
            #[verifier::truncate] ((self.cdda_sector[o + 1] as u16 * 0x100 + self.cdda_sector[o] as u16) as i16),
            #[verifier::truncate] ((self.cdda_sector[o + 3] as u16 * 0x100 + self.cdda_sector[o + 2] as u16) as i16),
        ];
        assert(sample =~= cdda_sample_at(self.cdda_sector@, self.cdda_sample_index as int));
        self.cdda_samples.push_back(sample);
        self.cdda_sample_index = self.cdda_sample_index + 1;
    }

    /// Takes one due audio-sample slot (see `audio_step`); `audio_track`
    /// says whether the disc image puts the drive position in an audio
    /// track.
    pub fn next_audio_step(&mut self, audio_track: bool) -> (r: CddaStep)
        requires
            old(self).wf(),
        ensures
            final(self).wf(),
            (final(self)@, r) == old(self)@.audio_step(audio_track),
    {
        if self.cdda_phase < SH2_HZ {
            return CddaStep::Done;
        }
        self.cdda_phase = self.cdda_phase - SH2_HZ;
        if self.cdda_sample_index < CDDA_FRAMES_PER_SECTOR {
            self.take_sample();
            return CddaStep::Sample;
        }
        match &self.disc {
            None => {
                self.reading = false;
                CddaStep::Stopped
            },
            Some(disc) => {
                if self.current_lba >= disc.sectors || self.current_lba >= self.target_lba || !audio_track {
                    self.reading = false;
                    self.hirq = self.hirq | 0x0010;
                    CddaStep::Stopped
                } else {
                    CddaStep::NeedSector(self.current_lba)
                }
            },
        }
    }

    /// Loads the audio sector just read at the drive position and queues
    /// its first sample.
    pub fn deliver_audio_sector(&mut self, raw: Box<[u8; 2352]>)
        requires
            old(self).wf(),
        ensures
            final(self).wf(),
            final(self)@ == (CdModel {
                cdda_sector: raw@,
                current_lba: sat_add32(old(self).current_lba as int, 1),
                cdda_sample_index: 0,
                ..old(self)@
            }).sample_taken(),
    {
        self.cdda_sector = raw;
        self.current_lba = self.current_lba.saturating_add(1);
        self.cdda_sample_index = 0;
        self.take_sample();
    }

    /// A failed audio-sector read: a sector still being fetched leaves
    /// playback as it is; any other failure stops it.
    pub fn audio_read_failed(&mut self, still_fetching: bool)
        ensures
            final(self)@ == (if still_fetching {
                old(self)@
            } else {
                CdModel { reading: false, ..old(self)@ }.or_hirq(0x0010)
            }),
    {
        if !still_fetching {
            self.reading = false;
            self.hirq = self.hirq | 0x0010;
        }
    }
}

/// The state after the host reads `k` bytes of the data port.
pub open spec fn popped(m: CdModel, k: nat) -> CdModel
    decreases k,
{
    if k == 0 {
        m
    } else {
        popped(m, (k - 1) as nat).after_pop()
    }
}

proof fn lemma_popped_data(m: CdModel, k: nat)
    requires
        k <= m.data.len(),
    ensures
        popped(m, k).data == m.data.subrange(k as int, m.data.len() as int),
    decreases k,
{
    if k == 0 {
        assert(m.data.subrange(0, m.data.len() as int) =~= m.data);
    } else {
        lemma_popped_data(m, (k - 1) as nat);
        assert(m.data.subrange(k - 1, m.data.len() as int).drop_first() =~= m.data.subrange(k as int, m.data.len() as int));
    }
}

/// The data port gives the host the queued bytes in order, then zeros, and
/// the queue runs empty after as many reads as it held bytes.
pub proof fn data_port_reads_queue_in_order(m: CdModel, k: nat)
    ensures
        popped(m, k).front_byte() == (if k < m.data.len() { m.data[k as int] } else { 0u8 }),
        k >= m.data.len() ==> popped(m, k).data.len() == 0,
    decreases k,
{
    if k <= m.data.len() {
        lemma_popped_data(m, k);
    } else {
        data_port_reads_queue_in_order(m, (k - 1) as nat);
    }
}

impl CdModel {
    /// What the drive's data path may change over a tick, from `self` to
    /// `next`: sectors appended to partitions, each read at a drive position
    /// passed on the way; the position moving forward; the full-buffer flag
    /// raised once an append fills the buffer and never dropped. The target,
    /// the command registers, the host data and the filters stay.
    pub open spec fn data_path_follows(self, next: CdModel) -> bool {
        &&& next.wf()
        &&& next.target_lba == self.target_lba
        &&& next.cr == self.cr
        &&& next.data == self.data
        &&& next.filters == self.filters
        &&& self.current_lba <= next.current_lba
        &&& forall|q: int|
            0 <= q < CD_PARTITION_COUNT ==> {
                &&& self.partitions[q].len() <= #[trigger] next.partitions[q].len()
                &&& next.partitions[q].subrange(0, self.partitions[q].len() as int) == self.partitions[q]
            }
        &&& forall|q: int, j: int|
            0 <= q < CD_PARTITION_COUNT && self.partitions[q].len() <= j < next.partitions[q].len() ==> {
                &&& self.current_fad() <= (#[trigger] next.partitions[q][j]).fad
                &&& next.partitions[q][j].fad < next.current_lba + 150
            }
        &&& self.hirq & 0x0008 != 0 ==> next.hirq & 0x0008 != 0
        &&& self.buffered() < CD_BUFFER_COUNT <= next.buffered() ==> next.hirq & 0x0008 != 0
    }
}

proof fn lemma_hirq_bits(h: u16, bits: u16)
    ensures
        h & 0x0008 != 0 ==> (h | bits) & 0x0008 != 0,
        (h | 0x0008) & 0x0008 != 0,
{
    assert(h & 0x0008 != 0 ==> (h | bits) & 0x0008 != 0) by (bit_vector);
    assert((h | 0x0008) & 0x0008 != 0) by (bit_vector);
}

/// Steps of the data path chain: two stretches that each only append
/// sectors and move forward make one that does.
pub proof fn data_path_follows_is_transitive(a: CdModel, b: CdModel, c: CdModel)
    requires
        a.wf(),
        a.data_path_follows(b),
        b.data_path_follows(c),
    ensures
        a.data_path_follows(c),
{
    assert forall|q: int| 0 <= q < CD_PARTITION_COUNT implies {
        &&& a.partitions[q].len() <= #[trigger] c.partitions[q].len()
        &&& c.partitions[q].subrange(0, a.partitions[q].len() as int) == a.partitions[q]
    } by {
        assert(b.partitions[q].len() <= c.partitions[q].len());
        assert(c.partitions[q].subrange(0, b.partitions[q].len() as int) == b.partitions[q]);
        assert(b.partitions[q].subrange(0, a.partitions[q].len() as int) == a.partitions[q]);
        assert(c.partitions[q].subrange(0, a.partitions[q].len() as int) =~= a.partitions[q]) by {
            assert forall|j: int| 0 <= j < a.partitions[q].len() implies c.partitions[q][j] == a.partitions[q][j] by {
                assert(c.partitions[q].subrange(0, b.partitions[q].len() as int)[j] == b.partitions[q][j]);
                assert(b.partitions[q].subrange(0, a.partitions[q].len() as int)[j] == a.partitions[q][j]);
            }
        }
    }
    assert forall|q: int, j: int|
        0 <= q < CD_PARTITION_COUNT && a.partitions[q].len() <= j < c.partitions[q].len() implies {
            &&& a.current_fad() <= (#[trigger] c.partitions[q][j]).fad
            &&& c.partitions[q][j].fad < c.current_lba + 150
        } by {
        assert(b.partitions[q].len() <= c.partitions[q].len());
        if j < b.partitions[q].len() {
            assert(c.partitions[q].subrange(0, b.partitions[q].len() as int)[j] == b.partitions[q][j]);
            assert(b.partitions[q][j].fad < b.current_lba + 150);
            assert(a.current_fad() <= b.partitions[q][j].fad);
        } else {
            assert(b.current_fad() <= c.partitions[q][j].fad);
        }
    }
}

/// Each step a tick of the data path takes only appends sectors and moves
/// forward: the time accrued, a due sector slot taken, and the sector read
/// at the drive position delivered when a slot asked for it (the buffer
/// then has room and the drive is short of its target).
pub proof fn data_tick_steps_only_append(m: CdModel, sh_cycles: u32, sector: SaturnCdBufferedSector)
    requires
        m.wf(),
    ensures
        m.data_path_follows(m),
        m.data_path_follows(m.data_time_accrued(sh_cycles)),
        m.data_path_follows(m.data_step().0),
        m.data_step().1 is NeedSector ==> m.data_step().0.buffered() < CD_BUFFER_COUNT
            && m.data_step().0.current_lba < m.data_step().0.target_lba,
        m.buffered() < CD_BUFFER_COUNT && m.current_lba < m.target_lba && sector.fad == m.current_fad()
            ==> m.data_path_follows(m.data_sector_delivered(sector.raw@, sector)),
{
    assert forall|q: int| 0 <= q < CD_PARTITION_COUNT implies m.partitions[q].subrange(0, m.partitions[q].len() as int)
        == m.partitions[q] by {
        assert(m.partitions[q].subrange(0, m.partitions[q].len() as int) =~= m.partitions[q]);
    }
    lemma_hirq_bits(m.hirq, 0x0008);
    lemma_hirq_bits(m.hirq, 0x0010);
    if m.buffered() < CD_BUFFER_COUNT && m.current_lba < m.target_lba && sector.fad == m.current_fad() {
        let d = m.delivered(m.cd_device_connection, sector);
        lemma_route_bound(m.filters, m.cd_device_connection, sector, CD_PARTITION_COUNT as nat);
        match m.route(m.cd_device_connection, sector) {
            Some((f, p)) => {
                lemma_buffered_update(m.partitions, p, m.partitions[p].push(sector), CD_PARTITION_COUNT as int);
                assert forall|q: int| 0 <= q < CD_PARTITION_COUNT implies d.partitions[q].subrange(0, m.partitions[q].len() as int)
                    == m.partitions[q] by {
                    assert(d.partitions[q].subrange(0, m.partitions[q].len() as int) =~= m.partitions[q]);
                }
            },
            None => {},
        }
        let moved = CdModel { current_lba: m.current_lba.wrapping_add(1), ..d }.or_hirq(0x0004);
        assert(m.current_lba.wrapping_add(1) == m.current_lba + 1);
        lemma_hirq_bits(m.hirq, 0x0004);
        lemma_hirq_bits(moved.hirq, 0x0008);
    }
}

} // verus!
