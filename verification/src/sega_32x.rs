//! Sega 32X cartridge MARS header: where the SH-2 program lies in the
//! cartridge, where it goes in SDRAM, and the two CPUs' entry points.
use vstd::prelude::*;
use crate::bytes::{be32, be32_at};

verus! {

/// Bytes of 32X SDRAM.
pub const SDRAM_SIZE: usize = 0x4_0000;

#[derive(Debug, Clone, Copy)]
pub struct MarsHeader {
    pub source: u32,
    pub destination: u32,
    pub size: u32,
    pub master_entry: u32,
    pub slave_entry: u32,
    pub master_vbr: u32,
    pub slave_vbr: u32,
}

/// The SDRAM offset of a program destination: cached-area addresses lose
/// their base, others are taken as offsets.
pub open spec fn sdram_offset(destination: u32) -> u32 {
    if destination >= 0x0600_0000 {
        (destination - 0x0600_0000) as u32
    } else {
        destination
    }
}

/// The header the module-header words of `image` describe.
pub open spec fn header_of(image: Seq<u8>) -> MarsHeader {
    MarsHeader {
        source: be32_at(image, 0x3d4),
        destination: sdram_offset(be32_at(image, 0x3d8)),
        size: be32_at(image, 0x3dc),
        master_entry: be32_at(image, 0x3e0),
        slave_entry: be32_at(image, 0x3e4),
        master_vbr: be32_at(image, 0x3e8),
        slave_vbr: be32_at(image, 0x3ec),
    }
}

/// Why a cartridge image has no usable MARS header, checked in order: too
/// small, source range overflowing or past the image, destination range
/// overflowing or past SDRAM, or an odd entry or vector address.
pub open spec fn parse_error(image: Seq<u8>) -> Option<Seq<char>> {
    let h = header_of(image);
    if image.len() < 0x3f0 {
        Some("32X cartridge is too small to contain the MARS module header"@)
    } else if h.source as int + h.size as int > u32::MAX {
        Some("32X MARS source range overflows"@)
    } else if h.source as int + h.size as int > image.len() {
        Some("32X MARS source range extends past the cartridge image"@)
    } else if h.destination as int + h.size as int > u32::MAX {
        Some("32X MARS destination range overflows"@)
    } else if h.destination as int + h.size as int > SDRAM_SIZE {
        Some("32X MARS program does not fit the 256 KiB SDRAM"@)
    } else if h.master_entry % 2 != 0 || h.slave_entry % 2 != 0 || h.master_vbr % 2 != 0 || h.slave_vbr % 2
        != 0 {
        Some("32X SH-2 entry and vector addresses must be word aligned"@)
    } else {
        None
    }
}

impl MarsHeader {
    /// The big-endian word at `offset`, or an error past the image's end.
    pub fn be32(image: &[u8], offset: usize) -> (r: Result<u32, String>)
        requires
            offset <= usize::MAX - 4,
        ensures
            offset + 4 <= image@.len() <==> r.is_ok(),
            r matches Ok(v) ==> v == be32_at(image@, offset as int),
            r matches Err(e) ==> e@ == "32X cartridge MARS header is truncated"@,
    {
        if offset + 4 > image.len() {
            return Err("32X cartridge MARS header is truncated".to_string());
        }
        Ok(be32(image, offset))
    }

    /// The MARS module header and the cartridge byte range of the program.
    pub fn parse(image: &[u8]) -> (r: Result<(MarsHeader, core::ops::Range<usize>), String>)
        ensures
            r.is_ok() <==> parse_error(image@).is_none(),
            r matches Err(e) ==> Some(e@) == parse_error(image@),
            r matches Ok((h, range)) ==> h == header_of(image@) && range.start == h.source && range.end
                == h.source + h.size,
    {
        if image.len() < 0x3f0 {
            return Err("32X cartridge is too small to contain the MARS module header".to_string());
        }
        let source = match Self::be32(image, 0x3d4) {
            Ok(v) => v,
            Err(e) => return Err(e),
        };
        let destination = match Self::be32(image, 0x3d8) {
            Ok(v) => v,
            Err(e) => return Err(e),
        };
        let size = match Self::be32(image, 0x3dc) {
            Ok(v) => v,
            Err(e) => return Err(e),
        };
        let master_entry = match Self::be32(image, 0x3e0) {
            Ok(v) => v,
            Err(e) => return Err(e),
        };
        let slave_entry = match Self::be32(image, 0x3e4) {
            Ok(v) => v,
            Err(e) => return Err(e),
        };
        let master_vbr = match Self::be32(image, 0x3e8) {
            Ok(v) => v,
            Err(e) => return Err(e),
        };
        let slave_vbr = match Self::be32(image, 0x3ec) {
            Ok(v) => v,
            Err(e) => return Err(e),
        };
        let source_end = match source.checked_add(size) {
            Some(end) => end,
            None => return Err("32X MARS source range overflows".to_string()),
        };
        if source_end as usize > image.len() {
            return Err("32X MARS source range extends past the cartridge image".to_string());
        }
        let destination_offset = match destination.checked_sub(0x0600_0000) {
            Some(offset) => offset,
            None => destination,
        };
        let destination_end = match destination_offset.checked_add(size) {
            Some(end) => end,
            None => return Err("32X MARS destination range overflows".to_string()),
        };
        if destination_end as usize > SDRAM_SIZE {
            return Err("32X MARS program does not fit the 256 KiB SDRAM".to_string());
        }
        if master_entry % 2 != 0 || slave_entry % 2 != 0 || master_vbr % 2 != 0 || slave_vbr % 2 != 0 {
            return Err("32X SH-2 entry and vector addresses must be word aligned".to_string());
        }
        Ok(
            (
                MarsHeader {
                    source,
                    destination: destination_offset,
                    size,
                    master_entry,
                    slave_entry,
                    master_vbr,
                    slave_vbr,
                },
                source as usize..source_end as usize,
            ),
        )
    }
}

} // verus!
