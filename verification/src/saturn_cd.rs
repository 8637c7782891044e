//! Saturn CD block sector buffers and selector filters: which bytes of a
//! raw 2352-byte sector the host sees, and which sectors a filter passes.
use vstd::prelude::*;
use vstd::slice::slice_subrange;

verus! {

/// A raw sector held in a CD block buffer, with its frame address.
pub struct SaturnCdBufferedSector {
    pub fad: u32,
    pub raw: Box<[u8; 2352]>,
}

/// The byte range of a raw sector that sector-length setting `format`
/// transfers: user data (mode 2 form 1 or 2 by the submode's form bit, else
/// mode 1), everything after the sync and header, after the sync, or all.
pub open spec fn transfer_range(raw: Seq<u8>, format: u8) -> (int, int) {
    if format == 1 {
        (16, 2352)
    } else if format == 2 {
        (12, 2352)
    } else if format == 3 {
        (0, 2352)
    } else if raw[15] == 2 {
        if raw[18] & 0x20 != 0 {
            (24, 2348)
        } else {
            (24, 2072)
        }
    } else {
        (16, 2064)
    }
}

impl SaturnCdBufferedSector {
    /// The bytes the host reads from this sector at sector length `format`.
    pub fn transfer_view(&self, format: u8) -> (r: &[u8])
        ensures
            r@ == self.raw@.subrange(transfer_range(self.raw@, format).0, transfer_range(self.raw@, format).1),
    {
        let raw = self.raw.as_slice();
        if format == 1 {
            slice_subrange(raw, 16, 2352)
        } else if format == 2 {
            slice_subrange(raw, 12, 2352)
        } else if format == 3 {
            raw
        } else if raw[15] == 2 {
            if raw[18] & 0x20 != 0 {
                slice_subrange(raw, 24, 2348)
            } else {
                slice_subrange(raw, 24, 2072)
            }
        } else {
            slice_subrange(raw, 16, 2064)
        }
    }
}

/// A selector's filter: the conditions a sector must meet and the
/// partitions it goes to when it does and when it does not.
#[derive(Debug, Clone, Copy)]
pub struct SaturnCdFilter {
    pub mode: u8,
    pub true_conn: u8,
    pub false_conn: u8,
    pub fad: u32,
    pub range: u32,
    pub channel: u8,
    pub file: u8,
    pub submode: u8,
    pub submode_mask: u8,
    pub coding_info: u8,
    pub coding_info_mask: u8,
}

impl SaturnCdFilter {
    /// Filter `index`'s power-on state: no condition, passing sectors to
    /// partition `index`, failing ones nowhere.
    pub fn new(index: usize) -> (f: Self)
        ensures
            f.mode == 0 && f.fad == 0 && f.range == 0 && f.channel == 0 && f.file == 0,
            f.submode == 0 && f.submode_mask == 0 && f.coding_info == 0 && f.coding_info_mask == 0,
            f.true_conn == index as int % 0x100,
            f.false_conn == 0xff,
    {
        SaturnCdFilter {
            mode: 0,
            true_conn: (index % 0x100) as u8,
            false_conn: 0xff,
            fad: 0,
            range: 0,
            channel: 0,
            file: 0,
            submode: 0,
            submode_mask: 0,
            coding_info: 0,
            coding_info_mask: 0,
        }
    }

    /// Clears every condition, keeping the connections.
    pub fn reset_condition(&mut self)
        ensures
            final(self).mode == 0 && final(self).fad == 0 && final(self).range == 0,
            final(self).channel == 0 && final(self).file == 0,
            final(self).submode == 0 && final(self).submode_mask == 0,
            final(self).coding_info == 0 && final(self).coding_info_mask == 0,
            final(self).true_conn == old(self).true_conn,
            final(self).false_conn == old(self).false_conn,
    {
        self.mode = 0;
        self.fad = 0;
        self.range = 0;
        self.channel = 0;
        self.file = 0;
        self.submode = 0;
        self.submode_mask = 0;
        self.coding_info = 0;
        self.coding_info_mask = 0;
    }

    /// Whether a sector at `fad` with raw bytes `raw` passes: outside the
    /// frame-address range (mode bit 6) it fails; otherwise the enabled
    /// subheader conditions (file, channel, masked submode, masked coding
    /// information; mode 2 sectors only, others reading zeros) decide, bit 4
    /// reversing the outcome when any of them is enabled.
    pub open spec fn passes(&self, fad: u32, raw: Seq<u8>) -> bool {
        let end = if self.fad as int + self.range as int > u32::MAX as int {
            u32::MAX as int
        } else {
            self.fad as int + self.range as int
        };
        if self.mode & 0x40 != 0 && (fad < self.fad || fad >= end) {
            false
        } else {
            let sub = raw[15] == 2;
            let file = if sub { raw[16] } else { 0 };
            let channel = if sub { raw[17] } else { 0 };
            let submode = if sub { raw[18] } else { 0 };
            let coding_info = if sub { raw[19] } else { 0 };
            let reverse = self.mode & 0x10 != 0 && self.mode & 0x0f != 0;
            let mismatch = (self.mode & 0x01 != 0 && file != self.file) || (self.mode & 0x02 != 0
                && channel != self.channel) || (self.mode & 0x04 != 0 && submode & self.submode_mask
                != self.submode) || (self.mode & 0x08 != 0 && coding_info & self.coding_info_mask
                != self.coding_info);
            if mismatch {
                reverse
            } else {
                !reverse
            }
        }
    }

    pub fn matches(&self, sector: &SaturnCdBufferedSector) -> (r: bool)
        ensures
            r == self.passes(sector.fad, sector.raw@),
    {
        let end = self.fad.saturating_add(self.range);
        if self.mode & 0x40 != 0 && (sector.fad < self.fad || sector.fad >= end) {
            return false;
        }
        let raw = sector.raw.as_slice();
        let sub = raw[15] == 2;
        let file = if sub { raw[16] } else { 0 };
        let channel = if sub { raw[17] } else { 0 };
        let submode = if sub { raw[18] } else { 0 };
        let coding_info = if sub { raw[19] } else { 0 };
        let reverse = self.mode & 0x10 != 0 && self.mode & 0x0f != 0;
        let mismatch = (self.mode & 0x01 != 0 && file != self.file) || (self.mode & 0x02 != 0
            && channel != self.channel) || (self.mode & 0x04 != 0 && submode & self.submode_mask
            != self.submode) || (self.mode & 0x08 != 0 && coding_info & self.coding_info_mask
            != self.coding_info);
        if mismatch {
            reverse
        } else {
            !reverse
        }
    }
}


/// Toggling the reverse bit of a filter with a subheader condition flips
/// whether a sector inside its frame-address window passes.
pub proof fn reverse_bit_flips_outcome(f: SaturnCdFilter, fad: u32, raw: Seq<u8>)
    requires
        f.mode & 0x0f != 0,
        f.mode & 0x40 == 0 || (f.fad <= fad < u32::MAX && (fad as int) - (f.fad as int) < f.range as int),
    ensures
        (SaturnCdFilter { mode: f.mode ^ 0x10, ..f }).passes(fad, raw) == !f.passes(fad, raw),
{
    let m = f.mode;
    assert((m ^ 0x10) & 0x0f == m & 0x0f && (m ^ 0x10) & 0x40 == m & 0x40 && ((m ^ 0x10) & 0x10 != 0)
        == (m & 0x10 == 0)) by (bit_vector);
    assert(((m ^ 0x10) & 0x01 != 0) == (m & 0x01 != 0) && ((m ^ 0x10) & 0x02 != 0) == (m & 0x02 != 0)
        && ((m ^ 0x10) & 0x04 != 0) == (m & 0x04 != 0) && ((m ^ 0x10) & 0x08 != 0) == (m & 0x08 != 0))
        by (bit_vector);
}

} // verus!
