//! Data list block (`##DL`): the data blocks that together hold a data group's records.
use crate::mdf4::block::Block;
use crate::mdf4::block_header::{
    check_id, check_links_fit, data_offset, data_start, id_at, link_count_at, links_fit,
    BlockHeader,
};
use crate::mdf4::{link_extract, links_at, read_u64_values, take_links};
use crate::utils::{read_u32, read_u64, read_u8, u32_at, u64_at};
use vstd::prelude::*;

verus! {

#[derive(Debug, Clone)]
pub struct Dlblock {
    pub dl_dl_next: u64,
    pub dl_data: Vec<u64>,
    pub dl_flags: u8,
    pub dl_count: u32,
    pub dl_equal_length: u64,
    pub dl_offset: Vec<u64>,
}

/// A data list block can be read at `p`: it links to the next list and to
/// as many data blocks as it counts, and its offsets follow its fixed fields.
pub open spec fn dl_readable(s: Seq<u8>, p: int, little_endian: bool) -> bool {
    let q = data_start(s, p, little_endian);
    &&& links_fit(s, p, little_endian, 1, 13)
    &&& id_at(s, p, 0x44, 0x4C)
    &&& link_count_at(s, p, little_endian) >= 1 + u32_at(s, q + 1, little_endian)
    &&& q + 13 + 8 * u32_at(s, q + 1, little_endian) <= s.len()
}

/// `b` holds the data list block stored at `p`.
pub open spec fn dl_fields(s: Seq<u8>, p: int, little_endian: bool, b: Dlblock) -> bool {
    let q = data_start(s, p, little_endian);
    let links = links_at(s, p + 24, little_endian, link_count_at(s, p, little_endian) as nat);
    &&& b.dl_dl_next == links[0]
    &&& b.dl_data@ == links.subrange(1, 1 + b.dl_count)
    &&& b.dl_flags == s[q]
    &&& b.dl_count == u32_at(s, q + 1, little_endian)
    &&& b.dl_equal_length == u64_at(s, q + 5, little_endian)
    &&& b.dl_offset@ == links_at(s, q + 13, little_endian, b.dl_count as nat)
}

impl Block for Dlblock {
    open spec fn spec_is_new(&self) -> bool {
        &&& self.dl_dl_next == 0
        &&& self.dl_data@ == Seq::<u64>::empty()
        &&& self.dl_flags == 0
        &&& self.dl_count == 0
        &&& self.dl_equal_length == 0
        &&& self.dl_offset@ == Seq::<u64>::empty()
    }

    open spec fn spec_is_default(&self) -> bool {
        self.spec_is_new()
    }

    open spec fn spec_readable(stream: Seq<u8>, position: int, little_endian: bool) -> bool {
        dl_readable(stream, position, little_endian)
    }

    open spec fn spec_read_result(
        stream: Seq<u8>,
        position: int,
        little_endian: bool,
        end: int,
        block: Self,
    ) -> bool {
        &&& end == data_start(stream, position, little_endian) + 13 + 8 * block.dl_count
        &&& dl_fields(stream, position, little_endian, block)
    }

    /// This block kind has no defined byte length.
    open spec fn spec_has_byte_len(&self) -> bool {
        false
    }

    open spec fn spec_byte_len(&self) -> nat {
        0
    }

    fn new() -> (r: Self) {
        Dlblock {
            dl_dl_next: 0,
            dl_data: Vec::new(),
            dl_flags: 0,
            dl_count: 0,
            dl_equal_length: 0,
            dl_offset: Vec::new(),
        }
    }

    fn default() -> (r: Self) {
        Self::new()
    }

    fn is_readable(stream: &[u8], position: usize, little_endian: bool) -> (r: bool) {
        if !check_links_fit(stream, position, little_endian, 1, 13) {
            return false;
        }
        if !check_id(stream, position, 0x44, 0x4C) {
            return false;
        }
        let total = stream.len();
        let q = data_offset(stream, position, little_endian);
        let mut p = q + 1;
        let count = read_u32(stream, little_endian, &mut p);
        let mut c = position + 16;
        let link_count = read_u64(stream, little_endian, &mut c);
        link_count - 1 >= count as u64 && (count as usize) <= (stream.len() - q - 13) / 8
    }

    fn read(stream: &[u8], position: usize, little_endian: bool) -> (r: (usize, Self)) {
        let total = stream.len();
        let (pos, header) = BlockHeader::read(stream, position, little_endian);
        let (mut pos, address) = link_extract(stream, pos, little_endian, header.link_count);
        let dl_flags = read_u8(stream, &mut pos);
        let dl_count = read_u32(stream, little_endian, &mut pos);
        let dl_equal_length = read_u64(stream, little_endian, &mut pos);
        let dl_offset = read_u64_values(stream, little_endian, &mut pos, dl_count as usize);
        let dl_dl_next = address[0];
        let dl_data = take_links(&address, 1, dl_count as usize);
        (pos, Dlblock { dl_dl_next, dl_data, dl_flags, dl_count, dl_equal_length, dl_offset })
    }

    fn byte_len(&self) -> (r: usize) {
        0
    }
}

} // verus!
