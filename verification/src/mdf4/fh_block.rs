//! File history block (`##FH`): when and by what the file was changed.
use crate::mdf4::block_header::{
    check_id, check_links_fit, data_start, id_at, links_fit, BlockHeader,
};
use crate::mdf4::block::Block;
use crate::mdf4::link_extract;
use crate::utils::{i16_at, read_i16, read_u64, read_u8, u64_at};
use vstd::prelude::*;

verus! {

#[derive(Debug, Clone, Copy)]
pub struct Fhblock {
    pub fh_fh_next: u64,
    pub fh_md_comment: u64,
    pub fh_time_ns: u64,
    pub fh_tz_offset_min: i16,
    pub fh_dst_offset_min: i16,
    pub fh_time_flags: u8,
}

/// A file history block can be read at `p`.
pub open spec fn fh_readable(s: Seq<u8>, p: int, little_endian: bool) -> bool {
    links_fit(s, p, little_endian, 2, 13) && id_at(s, p, 0x46, 0x48)
}

/// `b` holds the file history block stored at `p`.
pub open spec fn fh_fields(s: Seq<u8>, p: int, little_endian: bool, b: Fhblock) -> bool {
    let q = data_start(s, p, little_endian);
    &&& b.fh_fh_next == u64_at(s, p + 24, little_endian)
    &&& b.fh_md_comment == u64_at(s, p + 32, little_endian)
    &&& b.fh_time_ns == u64_at(s, q, little_endian)
    &&& b.fh_tz_offset_min == i16_at(s, q + 8, little_endian)
    &&& b.fh_dst_offset_min == i16_at(s, q + 10, little_endian)
    &&& b.fh_time_flags == s[q + 12]
}

impl Fhblock {
    pub fn new() -> (r: Self)
        ensures
            r.fh_fh_next == 0 && r.fh_md_comment == 0 && r.fh_time_ns == 0,
            r.fh_tz_offset_min == 0 && r.fh_dst_offset_min == 0 && r.fh_time_flags == 0,
    {
        Fhblock {
            fh_fh_next: 0,
            fh_md_comment: 0,
            fh_time_ns: 0,
            fh_tz_offset_min: 0,
            fh_dst_offset_min: 0,
            fh_time_flags: 0,
        }
    }

    pub fn default() -> (r: Self)
        ensures
            r.fh_fh_next == 0 && r.fh_md_comment == 0 && r.fh_time_ns == 0,
            r.fh_tz_offset_min == 0 && r.fh_dst_offset_min == 0 && r.fh_time_flags == 0,
    {
        Self::new()
    }

    /// Whether a file history block can be read at `position`.
    pub fn is_readable(stream: &[u8], position: usize, little_endian: bool) -> (r: bool)
        ensures
            r == fh_readable(stream@, position as int, little_endian),
    {
        check_links_fit(stream, position, little_endian, 2, 13) && check_id(
            stream,
            position,
            0x46,
            0x48,
        )
    }

    /// Reads the block at `position`; gives the position after its time flags.
    pub fn read(stream: &[u8], position: usize, little_endian: bool) -> (r: (usize, Self))
        requires
            fh_readable(stream@, position as int, little_endian),
        ensures
            r.0 == data_start(stream@, position as int, little_endian) + 13,
            fh_fields(stream@, position as int, little_endian, r.1),
    {
        let (pos, header) = BlockHeader::read(stream, position, little_endian);
        let (mut pos, address) = link_extract(stream, pos, little_endian, header.link_count);
        let fh_time_ns = read_u64(stream, little_endian, &mut pos);
        let fh_tz_offset_min = read_i16(stream, little_endian, &mut pos);
        let fh_dst_offset_min = read_i16(stream, little_endian, &mut pos);
        let fh_time_flags = read_u8(stream, &mut pos);
        (
            pos,
            Fhblock {
                fh_fh_next: address[0],
                fh_md_comment: address[1],
                fh_time_ns,
                fh_tz_offset_min,
                fh_dst_offset_min,
                fh_time_flags,
            },
        )
    }
}

} // verus!
