//! Header block (`##HD`): where the data groups, file history, hierarchy,
//! attachments and events of an MDF version 4 file start. The start angle and
//! distance are kept as the IEEE 754 bits stored in the file.
use crate::mdf4::block::Block;
use crate::mdf4::block_header::{
    check_id, check_links_fit, data_start, id_at, links_fit, BlockHeader,
};
use crate::mdf4::dg_block::{dg_fields, dg_readable, Dgblock};
use crate::mdf4::link_extract;
use crate::mdf4::md_block::{md_payload, md_readable, Mdblock};
use crate::mdf4::utils::until_nul;
use crate::utils::{i16_at, read_i16, read_u64, read_u8, u64_at};
use vstd::prelude::*;
use vstd::utf8::encode_utf8;

verus! {

#[derive(Debug, Clone, Copy)]
pub struct Hdblock {
    pub hd_dg_first: u64,
    pub hd_fh_first: u64,
    pub hd_ch_first: u64,
    pub hd_at_first: u64,
    pub hd_ev_first: u64,
    pub hd_md_comment: u64,
    pub hd_start_time_ns: u64,
    pub hd_tz_offset_min: i16,
    pub hd_dst_offset_min: i16,
    pub hd_time_flags: u8,
    pub hd_time_class: u8,
    pub hd_flags: u8,
    pub hd_reserved: u8,
    pub hd_start_angle_rad: u64,
    pub hd_start_distance_m: u64,
}

/// `b` holds the header block stored at `p`.
pub open spec fn hd_fields(s: Seq<u8>, p: int, little_endian: bool, b: Hdblock) -> bool {
    let q = data_start(s, p, little_endian);
    &&& b.hd_dg_first == u64_at(s, p + 24, little_endian)
    &&& b.hd_fh_first == u64_at(s, p + 32, little_endian)
    &&& b.hd_ch_first == u64_at(s, p + 40, little_endian)
    &&& b.hd_at_first == u64_at(s, p + 48, little_endian)
    &&& b.hd_ev_first == u64_at(s, p + 56, little_endian)
    &&& b.hd_md_comment == u64_at(s, p + 64, little_endian)
    &&& b.hd_start_time_ns == u64_at(s, q, little_endian)
    &&& b.hd_tz_offset_min == i16_at(s, q + 8, little_endian)
    &&& b.hd_dst_offset_min == i16_at(s, q + 10, little_endian)
    &&& b.hd_time_flags == s[q + 12]
    &&& b.hd_time_class == s[q + 13]
    &&& b.hd_flags == s[q + 14]
    &&& b.hd_reserved == s[q + 15]
    &&& b.hd_start_angle_rad == u64_at(s, q + 16, little_endian)
    &&& b.hd_start_distance_m == u64_at(s, q + 24, little_endian)
}

impl Hdblock {
    /// The first data group of the file; there must be one.
    pub fn first_data_group(&self, stream: &[u8], little_endian: bool) -> (r: Dgblock)
        requires
            self.hd_dg_first != 0,
            dg_readable(stream@, self.hd_dg_first as int, little_endian),
        ensures
            dg_fields(stream@, self.hd_dg_first as int, little_endian, r),
    {
        let total = stream.len();
        let (_, block) = Dgblock::read(stream, self.hd_dg_first as usize, little_endian);
        block
    }

    /// The text of the file comment, or empty text where the file has none.
    pub fn comment(&self, stream: &[u8], little_endian: bool) -> (r: String)
        requires
            self.hd_md_comment != 0 ==> md_readable(stream@, self.hd_md_comment as int, little_endian),
        ensures
            self.hd_md_comment == 0 ==> r@ == Seq::<char>::empty(),
            self.hd_md_comment != 0 ==> encode_utf8(r@) == until_nul(
                md_payload(stream@, self.hd_md_comment as int, little_endian),
            ),
    {
        if self.hd_md_comment == 0 {
            return String::new();
        }
        let total = stream.len();
        let (_, md_block) = Mdblock::read(stream, self.hd_md_comment as usize, little_endian);
        md_block.md_data
    }
}

impl Block for Hdblock {
    open spec fn spec_is_new(&self) -> bool {
        &&& self.hd_dg_first == 0
        &&& self.hd_fh_first == 0
        &&& self.hd_ch_first == 0
        &&& self.hd_at_first == 0
        &&& self.hd_ev_first == 0
        &&& self.hd_md_comment == 0
        &&& self.hd_start_time_ns == 0
        &&& self.hd_tz_offset_min == 0
        &&& self.hd_dst_offset_min == 0
        &&& self.hd_time_flags == 0
        &&& self.hd_time_class == 0
        &&& self.hd_flags == 0
        &&& self.hd_reserved == 0
        &&& self.hd_start_angle_rad == 0
        &&& self.hd_start_distance_m == 0
    }

    open spec fn spec_is_default(&self) -> bool {
        self.spec_is_new()
    }

    open spec fn spec_readable(stream: Seq<u8>, position: int, little_endian: bool) -> bool {
        links_fit(stream, position, little_endian, 6, 32) && id_at(stream, position, 0x48, 0x44)
    }

    open spec fn spec_read_result(
        stream: Seq<u8>,
        position: int,
        little_endian: bool,
        end: int,
        block: Self,
    ) -> bool {
        &&& end == data_start(stream, position, little_endian) + 32
        &&& hd_fields(stream, position, little_endian, block)
    }

    open spec fn spec_has_byte_len(&self) -> bool {
        true
    }

    /// The links and the fields after them; the header is not counted.
    open spec fn spec_byte_len(&self) -> nat {
        80
    }

    fn new() -> (r: Self) {
        Hdblock {
            hd_dg_first: 0,
            hd_fh_first: 0,
            hd_ch_first: 0,
            hd_at_first: 0,
            hd_ev_first: 0,
            hd_md_comment: 0,
            hd_start_time_ns: 0,
            hd_tz_offset_min: 0,
            hd_dst_offset_min: 0,
            hd_time_flags: 0,
            hd_time_class: 0,
            hd_flags: 0,
            hd_reserved: 0,
            hd_start_angle_rad: 0,
            hd_start_distance_m: 0,
        }
    }

    fn default() -> (r: Self) {
        Self::new()
    }

    fn is_readable(stream: &[u8], position: usize, little_endian: bool) -> (r: bool) {
        check_links_fit(stream, position, little_endian, 6, 32) && check_id(
            stream,
            position,
            0x48,
            0x44,
        )
    }

    fn read(stream: &[u8], position: usize, little_endian: bool) -> (r: (usize, Self)) {
        let (pos, header) = BlockHeader::read(stream, position, little_endian);
        let (mut pos, address) = link_extract(stream, pos, little_endian, header.link_count);
        let hd_start_time_ns = read_u64(stream, little_endian, &mut pos);
        let hd_tz_offset_min = read_i16(stream, little_endian, &mut pos);
        let hd_dst_offset_min = read_i16(stream, little_endian, &mut pos);
        let hd_time_flags = read_u8(stream, &mut pos);
        let hd_time_class = read_u8(stream, &mut pos);
        let hd_flags = read_u8(stream, &mut pos);
        let hd_reserved = read_u8(stream, &mut pos);
        let hd_start_angle_rad = read_u64(stream, little_endian, &mut pos);
        let hd_start_distance_m = read_u64(stream, little_endian, &mut pos);
        (
            pos,
            Hdblock {
                hd_dg_first: address[0],
                hd_fh_first: address[1],
                hd_ch_first: address[2],
                hd_at_first: address[3],
                hd_ev_first: address[4],
                hd_md_comment: address[5],
                hd_start_time_ns,
                hd_tz_offset_min,
                hd_dst_offset_min,
                hd_time_flags,
                hd_time_class,
                hd_flags,
                hd_reserved,
                hd_start_angle_rad,
                hd_start_distance_m,
            },
        )
    }

    fn byte_len(&self) -> (r: usize) {
        8 * 6 + 8 + 2 + 2 + 1 + 1 + 1 + 1 + 8 + 8
    }
}

} // verus!
