//! Data block (`##DT`): the records of a data group, stored as they are.
use crate::mdf4::block::{Block, DataBlock};
use crate::mdf4::block_header::{check_id, header_fields, id_at, length_at, BlockHeader, HEADER_LEN};
use crate::mdf4::sd_block::{check_payload_fits, payload, payload_fits, read_payload};
use crate::utils::bytes_to_vec;
use vstd::prelude::*;

verus! {

#[derive(Debug, Clone)]
pub struct Dtblock {
    pub header: BlockHeader,
    pub dt_data: Vec<u8>,
}

/// `b` holds the data block stored at `p`.
pub open spec fn dt_fields(s: Seq<u8>, p: int, little_endian: bool, b: Dtblock) -> bool {
    header_fields(s, p, little_endian, b.header) && b.dt_data@ == payload(s, p, little_endian)
}

impl DataBlock for Dtblock {
    open spec fn spec_has_data(&self) -> bool {
        true
    }

    open spec fn spec_data(&self) -> Seq<u8> {
        self.dt_data@
    }

    fn data_array(&self, _stream: &[u8], _little_endian: bool) -> (r: Vec<u8>) {
        bytes_to_vec(self.dt_data.as_slice())
    }
}

impl Block for Dtblock {
    open spec fn spec_is_new(&self) -> bool {
        &&& self.header.id@ == seq![0x23u8, 0x23u8, 0x44u8, 0x54u8]
        &&& self.header.reserved0@ == seq![0u8, 0u8, 0u8, 0u8]
        &&& self.header.length == 24
        &&& self.header.link_count == 0
        &&& self.dt_data@ == Seq::<u8>::empty()
    }

    open spec fn spec_is_default(&self) -> bool {
        self.spec_is_new()
    }

    open spec fn spec_readable(stream: Seq<u8>, position: int, little_endian: bool) -> bool {
        payload_fits(stream, position, little_endian) && id_at(stream, position, 0x44, 0x54)
    }

    open spec fn spec_read_result(
        stream: Seq<u8>,
        position: int,
        little_endian: bool,
        end: int,
        block: Self,
    ) -> bool {
        &&& end == position + length_at(stream, position, little_endian)
        &&& dt_fields(stream, position, little_endian, block)
    }

    open spec fn spec_has_byte_len(&self) -> bool {
        self.dt_data@.len() + 24 <= usize::MAX
    }

    open spec fn spec_byte_len(&self) -> nat {
        24 + self.dt_data@.len()
    }

    fn new() -> (r: Self) {
        let header = BlockHeader::with_id([0x23u8, 0x23u8, 0x44u8, 0x54u8], 24, 0);
        assert(header.id@ =~= seq![0x23u8, 0x23u8, 0x44u8, 0x54u8]);
        Dtblock { header, dt_data: Vec::new() }
    }

    fn default() -> (r: Self) {
        Self::new()
    }

    fn is_readable(stream: &[u8], position: usize, little_endian: bool) -> (r: bool) {
        check_payload_fits(stream, position, little_endian) && check_id(stream, position, 0x44, 0x54)
    }

    fn read(stream: &[u8], position: usize, little_endian: bool) -> (r: (usize, Self)) {
        let (pos, header, dt_data) = read_payload(stream, position, little_endian);
        (pos, Dtblock { header, dt_data })
    }

    fn byte_len(&self) -> (r: usize) {
        HEADER_LEN + self.dt_data.len()
    }
}

} // verus!
