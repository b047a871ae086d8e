//! Sample reduction block (`##SR`) of an MDF version 4 file. The interval is
//! kept as the IEEE 754 bits stored in the file.
use crate::mdf4::block_header::{
    check_id, check_links_fit, data_start, id_at, links_fit, BlockHeader,
};
use crate::mdf4::block::Block;
use crate::mdf4::link_extract;
use crate::utils::{read_array, read_u64, read_u8, u64_at};
use vstd::prelude::*;

verus! {

#[derive(Debug, Clone, Copy)]
pub struct Srblock {
    pub sr_sr_next: u64,
    pub sr_data: u64,
    pub sr_cycle_count: u64,
    pub sr_interval: u64,
    pub sr_sync_type: u8,
    pub sr_flags: u8,
}

/// A sample reduction block can be read at `p`.
pub open spec fn sr_readable(s: Seq<u8>, p: int, little_endian: bool) -> bool {
    links_fit(s, p, little_endian, 2, 24) && id_at(s, p, 0x53, 0x52)
}

/// `b` holds the sample reduction block stored at `p`; its reserved bytes are skipped.
pub open spec fn sr_fields(s: Seq<u8>, p: int, little_endian: bool, b: Srblock) -> bool {
    let q = data_start(s, p, little_endian);
    &&& b.sr_sr_next == u64_at(s, p + 24, little_endian)
    &&& b.sr_data == u64_at(s, p + 32, little_endian)
    &&& b.sr_cycle_count == u64_at(s, q, little_endian)
    &&& b.sr_interval == u64_at(s, q + 8, little_endian)
    &&& b.sr_sync_type == s[q + 16]
    &&& b.sr_flags == s[q + 17]
}

impl Srblock {
    pub fn new() -> (r: Self)
        ensures
            r.sr_sr_next == 0 && r.sr_data == 0 && r.sr_cycle_count == 0,
            r.sr_interval == 0 && r.sr_sync_type == 0 && r.sr_flags == 0,
    {
        Srblock { sr_sr_next: 0, sr_data: 0, sr_cycle_count: 0, sr_interval: 0, sr_sync_type: 0, sr_flags: 0 }
    }

    pub fn default() -> (r: Self)
        ensures
            r.sr_sr_next == 0 && r.sr_data == 0 && r.sr_cycle_count == 0,
            r.sr_interval == 0 && r.sr_sync_type == 0 && r.sr_flags == 0,
    {
        Self::new()
    }

    /// Whether a sample reduction block can be read at `position`.
    pub fn is_readable(stream: &[u8], position: usize, little_endian: bool) -> (r: bool)
        ensures
            r == sr_readable(stream@, position as int, little_endian),
    {
        check_links_fit(stream, position, little_endian, 2, 24) && check_id(
            stream,
            position,
            0x53,
            0x52,
        )
    }

    /// Reads the block at `position`; gives the position after its reserved bytes.
    pub fn read(stream: &[u8], position: usize, little_endian: bool) -> (r: (usize, Self))
        requires
            sr_readable(stream@, position as int, little_endian),
        ensures
            r.0 == data_start(stream@, position as int, little_endian) + 24,
            sr_fields(stream@, position as int, little_endian, r.1),
    {
        let (pos, header) = BlockHeader::read(stream, position, little_endian);
        let (mut pos, address) = link_extract(stream, pos, little_endian, header.link_count);
        let sr_cycle_count = read_u64(stream, little_endian, &mut pos);
        let sr_interval = read_u64(stream, little_endian, &mut pos);
        let sr_sync_type = read_u8(stream, &mut pos);
        let sr_flags = read_u8(stream, &mut pos);
        let mut sr_reserved = [0u8; 6];
        read_array(stream, &mut sr_reserved, &mut pos);
        (
            pos,
            Srblock {
                sr_sr_next: address[0],
                sr_data: address[1],
                sr_cycle_count,
                sr_interval,
                sr_sync_type,
                sr_flags,
            },
        )
    }
}

} // verus!
