//! Source information block (`##SI`): where a channel group's data came from.
use crate::mdf4::block::Block;
use crate::mdf4::block_header::{
    check_id, check_links_fit, data_offset, data_start, header_fields, id_at, links_fit, BlockHeader,
};
use crate::mdf4::link_extract;
use crate::mdf4::mdf4_enums::{BusType, SourceType};
use crate::utils::{read_array, read_u8, u64_at};
use vstd::prelude::*;

verus! {

#[derive(Debug, Clone, Copy)]
pub struct Siblock {
    pub si_tx_name: u64,
    pub si_tx_path: u64,
    pub si_md_comment: u64,
    pub si_type: SourceType,
    pub si_bus_type: BusType,
    pub si_flags: u8,
    pub si_reserved: [u8; 5],
}

/// Number of bytes after the links of a source information block.
pub const SI_DATA_LEN: usize = 8;

/// `b` holds the source information block stored at `p`.
pub open spec fn si_fields(s: Seq<u8>, p: int, little_endian: bool, b: Siblock) -> bool {
    let q = data_start(s, p, little_endian);
    &&& b.si_tx_name == u64_at(s, p + 24, little_endian)
    &&& b.si_tx_path == u64_at(s, p + 32, little_endian)
    &&& b.si_md_comment == u64_at(s, p + 40, little_endian)
    &&& b.si_type == SourceType::spec_new(s[q])
    &&& b.si_bus_type == BusType::spec_new(s[q + 1])
    &&& b.si_flags == s[q + 2]
    &&& b.si_reserved@ == s.subrange(q + 3, q + 8)
}

impl Block for Siblock {
    open spec fn spec_is_new(&self) -> bool {
        &&& self.si_tx_name == 0
        &&& self.si_tx_path == 0
        &&& self.si_md_comment == 0
        &&& self.si_type == SourceType::Bus
        &&& self.si_bus_type == BusType::Can
        &&& self.si_flags == 0
        &&& self.si_reserved@ == Seq::new(5, |i: int| 0u8)
    }

    open spec fn spec_is_default(&self) -> bool {
        self.spec_is_new()
    }

    /// Identifier `##SI`, three links, and codes that name a source type and a bus type.
    open spec fn spec_readable(stream: Seq<u8>, position: int, little_endian: bool) -> bool {
        &&& links_fit(stream, position, little_endian, 3, 8)
        &&& id_at(stream, position, 0x53, 0x49)
        &&& stream[data_start(stream, position, little_endian)] <= 5
        &&& stream[data_start(stream, position, little_endian) + 1] <= 8
    }

    open spec fn spec_read_result(
        stream: Seq<u8>,
        position: int,
        little_endian: bool,
        end: int,
        block: Self,
    ) -> bool {
        &&& end == data_start(stream, position, little_endian) + 8
        &&& si_fields(stream, position, little_endian, block)
    }

    /// This block kind has no defined byte length.
    open spec fn spec_has_byte_len(&self) -> bool {
        false
    }

    open spec fn spec_byte_len(&self) -> nat {
        0
    }

    fn new() -> (r: Self) {
        let r = Siblock {
            si_tx_name: 0,
            si_tx_path: 0,
            si_md_comment: 0,
            si_type: SourceType::Bus,
            si_bus_type: BusType::Can,
            si_flags: 0,
            si_reserved: [0u8; 5],
        };
        assert(r.si_reserved@ =~= Seq::new(5, |i: int| 0u8));
        r
    }

    fn default() -> (r: Self) {
        Self::new()
    }

    fn is_readable(stream: &[u8], position: usize, little_endian: bool) -> (r: bool) {
        if !check_links_fit(stream, position, little_endian, 3, SI_DATA_LEN) {
            return false;
        }
        if !check_id(stream, position, 0x53, 0x49) {
            return false;
        }
        let q = data_offset(stream, position, little_endian);
        stream[q] <= 5 && stream[q + 1] <= 8
    }

    fn read(stream: &[u8], position: usize, little_endian: bool) -> (r: (usize, Self)) {
        let (pos, header) = BlockHeader::read(stream, position, little_endian);
        let (mut pos, address) = link_extract(stream, pos, little_endian, header.link_count);
        let si_type = SourceType::new(read_u8(stream, &mut pos));
        let si_bus_type = BusType::new(read_u8(stream, &mut pos));
        let si_flags = read_u8(stream, &mut pos);
        let mut si_reserved = [0u8; 5];
        read_array(stream, &mut si_reserved, &mut pos);
        (
            pos,
            Siblock {
                si_tx_name: address[0],
                si_tx_path: address[1],
                si_md_comment: address[2],
                si_type,
                si_bus_type,
                si_flags,
                si_reserved,
            },
        )
    }

    fn byte_len(&self) -> (r: usize) {
        0
    }
}

} // verus!
