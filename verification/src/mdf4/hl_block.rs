//! Header list block (`##HL`): the start of a list of data lists.
use crate::mdf4::block::Block;
use crate::mdf4::block_header::{
    check_id, check_links_fit, data_offset, data_start, id_at, links_fit, BlockHeader,
};
use crate::mdf4::link_extract;
use crate::mdf4::mdf4_enums::ZipType;
use crate::utils::{read_array, read_u16, read_u8, u16_at, u64_at};
use vstd::prelude::*;

verus! {

#[derive(Debug, Clone, Copy)]
pub struct Hlblock {
    pub hl_dl_first: u64,
    pub hl_flags: u16,
    pub hl_zip_type: ZipType,
}

/// A header list block can be read at `p`.
pub open spec fn hl_readable(s: Seq<u8>, p: int, little_endian: bool) -> bool {
    &&& links_fit(s, p, little_endian, 1, 8)
    &&& id_at(s, p, 0x48, 0x4C)
    &&& s[data_start(s, p, little_endian) + 2] <= 1
}

/// `b` holds the header list block stored at `p`; its reserved bytes are skipped.
pub open spec fn hl_fields(s: Seq<u8>, p: int, little_endian: bool, b: Hlblock) -> bool {
    let q = data_start(s, p, little_endian);
    &&& b.hl_dl_first == u64_at(s, p + 24, little_endian)
    &&& b.hl_flags == u16_at(s, q, little_endian)
    &&& b.hl_zip_type == ZipType::spec_new(s[q + 2])
}

impl Block for Hlblock {
    open spec fn spec_is_new(&self) -> bool {
        self.hl_dl_first == 0 && self.hl_flags == 0 && self.hl_zip_type == ZipType::Deflate
    }

    open spec fn spec_is_default(&self) -> bool {
        self.spec_is_new()
    }

    open spec fn spec_readable(stream: Seq<u8>, position: int, little_endian: bool) -> bool {
        hl_readable(stream, position, little_endian)
    }

    open spec fn spec_read_result(
        stream: Seq<u8>,
        position: int,
        little_endian: bool,
        end: int,
        block: Self,
    ) -> bool {
        &&& end == data_start(stream, position, little_endian) + 8
        &&& hl_fields(stream, position, little_endian, block)
    }

    /// This block kind has no defined byte length.
    open spec fn spec_has_byte_len(&self) -> bool {
        false
    }

    open spec fn spec_byte_len(&self) -> nat {
        0
    }

    fn new() -> (r: Self) {
        Hlblock { hl_dl_first: 0, hl_flags: 0, hl_zip_type: ZipType::Deflate }
    }

    fn default() -> (r: Self) {
        Self::new()
    }

    fn is_readable(stream: &[u8], position: usize, little_endian: bool) -> (r: bool) {
        if !check_links_fit(stream, position, little_endian, 1, 8) {
            return false;
        }
        if !check_id(stream, position, 0x48, 0x4C) {
            return false;
        }
        let total = stream.len();
        let q = data_offset(stream, position, little_endian);
        stream[q + 2] <= 1
    }

    fn read(stream: &[u8], position: usize, little_endian: bool) -> (r: (usize, Self)) {
        let (pos, header) = BlockHeader::read(stream, position, little_endian);
        let (mut pos, address) = link_extract(stream, pos, little_endian, header.link_count);
        let hl_dl_first = address[0];
        let hl_flags = read_u16(stream, little_endian, &mut pos);
        let hl_zip_type = ZipType::new(read_u8(stream, &mut pos));
        let mut hl_reserved = [0u8; 5];
        read_array(stream, &mut hl_reserved, &mut pos);
        (pos, Hlblock { hl_dl_first, hl_flags, hl_zip_type })
    }

    fn byte_len(&self) -> (r: usize) {
        0
    }
}

} // verus!
