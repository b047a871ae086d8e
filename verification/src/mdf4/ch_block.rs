//! Channel hierarchy block (`##CH`): a node of the logical structure of channels.
use crate::mdf4::block::Block;
use crate::mdf4::block_header::{
    check_id, check_links_fit, data_offset, data_start, header_fields, id_at, link_count_at,
    links_fit, BlockHeader, HEADER_LEN,
};
use crate::mdf4::mdf4_enums::ChannelHierarchyType;
use crate::mdf4::{link_extract, links_at, take_links};
use crate::utils::{read_u32, read_u64, read_u8, u32_at, u64_at};
use vstd::prelude::*;

verus! {

#[derive(Debug, Clone)]
pub struct Chblock {
    pub header: BlockHeader,
    pub ch_ch_next: u64,
    pub ch_ch_first: u64,
    pub ch_tx_name: u64,
    pub ch_md_comment: u64,
    pub ch_element: Vec<u64>,
    pub ch_element_count: u32,
    pub ch_type: ChannelHierarchyType,
}

/// A channel hierarchy block can be read at `p`: it links to three blocks
/// for each of its elements, and its type code names a hierarchy type.
pub open spec fn ch_readable(s: Seq<u8>, p: int, little_endian: bool) -> bool {
    let q = data_start(s, p, little_endian);
    let count = u32_at(s, q, little_endian);
    &&& links_fit(s, p, little_endian, 4, 5)
    &&& id_at(s, p, 0x43, 0x48)
    &&& 3 * count <= u32::MAX
    &&& link_count_at(s, p, little_endian) >= 4 + 3 * count
    &&& s[q + 4] <= 8
}

/// `b` holds the channel hierarchy block stored at `p`.
pub open spec fn ch_fields(s: Seq<u8>, p: int, little_endian: bool, b: Chblock) -> bool {
    let q = data_start(s, p, little_endian);
    let links = links_at(s, p + 24, little_endian, link_count_at(s, p, little_endian) as nat);
    &&& header_fields(s, p, little_endian, b.header)
    &&& b.ch_ch_next == links[0]
    &&& b.ch_ch_first == links[1]
    &&& b.ch_tx_name == links[2]
    &&& b.ch_md_comment == links[3]
    &&& b.ch_element_count == u32_at(s, q, little_endian)
    &&& b.ch_element@ == links.subrange(4, 4 + 3 * b.ch_element_count)
    &&& b.ch_type == ChannelHierarchyType::spec_new(s[q + 4])
}

impl Block for Chblock {
    open spec fn spec_is_new(&self) -> bool {
        &&& self.header.id@ == seq![0x23u8, 0x23u8, 0x43u8, 0x48u8]
        &&& self.header.reserved0@ == seq![0u8, 0u8, 0u8, 0u8]
        &&& self.header.length == 50
        &&& self.header.link_count == 0
        &&& self.ch_ch_next == 0
        &&& self.ch_ch_first == 0
        &&& self.ch_tx_name == 0
        &&& self.ch_md_comment == 0
        &&& self.ch_element@ == Seq::<u64>::empty()
        &&& self.ch_element_count == 0
        &&& self.ch_type == ChannelHierarchyType::Function
    }

    open spec fn spec_is_default(&self) -> bool {
        self.spec_is_new()
    }

    open spec fn spec_readable(stream: Seq<u8>, position: int, little_endian: bool) -> bool {
        ch_readable(stream, position, little_endian)
    }

    open spec fn spec_read_result(
        stream: Seq<u8>,
        position: int,
        little_endian: bool,
        end: int,
        block: Self,
    ) -> bool {
        &&& end == data_start(stream, position, little_endian) + 5
        &&& ch_fields(stream, position, little_endian, block)
    }

    open spec fn spec_has_byte_len(&self) -> bool {
        61 + 8 * self.ch_element@.len() <= usize::MAX
    }

    /// Header, four links, element count and type, and the element links.
    open spec fn spec_byte_len(&self) -> nat {
        61 + 8 * self.ch_element@.len()
    }

    fn new() -> (r: Self) {
        let header = BlockHeader::with_id([0x23u8, 0x23u8, 0x43u8, 0x48u8], 50, 0);
        assert(header.id@ =~= seq![0x23u8, 0x23u8, 0x43u8, 0x48u8]);
        Chblock {
            header,
            ch_ch_next: 0,
            ch_ch_first: 0,
            ch_tx_name: 0,
            ch_md_comment: 0,
            ch_element: Vec::new(),
            ch_element_count: 0,
            ch_type: ChannelHierarchyType::Function,
        }
    }

    fn default() -> (r: Self) {
        Self::new()
    }

    fn is_readable(stream: &[u8], position: usize, little_endian: bool) -> (r: bool) {
        if !check_links_fit(stream, position, little_endian, 4, 5) {
            return false;
        }
        if !check_id(stream, position, 0x43, 0x48) {
            return false;
        }
        let total = stream.len();
        let q = data_offset(stream, position, little_endian);
        let mut p = q;
        let count = read_u32(stream, little_endian, &mut p);
        let mut c = position + 16;
        let link_count = read_u64(stream, little_endian, &mut c);
        count <= u32::MAX / 3 && link_count - 4 >= 3 * (count as u64) && stream[q + 4] <= 8
    }

    fn read(stream: &[u8], position: usize, little_endian: bool) -> (r: (usize, Self)) {
        let total = stream.len();
        let (pos, header) = BlockHeader::read(stream, position, little_endian);
        let (mut pos, address) = link_extract(stream, pos, little_endian, header.link_count);
        let ch_element_count = read_u32(stream, little_endian, &mut pos);
        let ch_type = ChannelHierarchyType::new(read_u8(stream, &mut pos));
        let ch_element = take_links(&address, 4, (ch_element_count * 3) as usize);
        (
            pos,
            Chblock {
                header,
                ch_ch_next: address[0],
                ch_ch_first: address[1],
                ch_tx_name: address[2],
                ch_md_comment: address[3],
                ch_element,
                ch_element_count,
                ch_type,
            },
        )
    }

    fn byte_len(&self) -> (r: usize) {
        let mut length = HEADER_LEN + 8 + 8 + 8 + 8 + 4 + 1;
        if self.ch_element.len() > 0 {
            length = length + 8 * self.ch_element.len();
        }
        length
    }
}

} // verus!
