//! Channel conversion block (`##CC`) of an MDF version 4 file. The physical
//! range and the conversion values are kept as the IEEE 754 bits stored in
//! the file.
use crate::mdf4::block::Block;
use crate::mdf4::block_header::{
    check_id, check_links_fit, data_offset, data_start, header_fields, id_at, link_count_at,
    links_fit, BlockHeader, HEADER_LEN,
};
use crate::mdf4::mdf4_enums::CCType;
use crate::mdf4::{link_extract, links_at, read_u64_values, take_links};
use crate::utils::{read_u16, read_u64, read_u8, u16_at, u64_at};
use vstd::prelude::*;

verus! {

#[derive(Debug, Clone)]
pub struct Ccblock {
    pub header: BlockHeader,
    pub cc_tx_name: u64,
    pub cc_md_unit: u64,
    pub cc_md_comment: u64,
    pub cc_cc_inverse: u64,
    pub cc_ref: Vec<u64>,
    pub cc_type: CCType,
    pub cc_precision: u8,
    pub cc_flags: u16,
    pub cc_ref_count: u16,
    pub cc_val_count: u16,
    pub cc_phy_range_min: u64,
    pub cc_phy_range_max: u64,
    pub cc_val: Vec<u64>,
}

/// A conversion block can be read at `p`: four links or more, a type code
/// that names a conversion type, and its values inside `s`.
pub open spec fn cc_readable(s: Seq<u8>, p: int, little_endian: bool) -> bool {
    let q = data_start(s, p, little_endian);
    &&& links_fit(s, p, little_endian, 4, 24)
    &&& id_at(s, p, 0x43, 0x43)
    &&& s[q] <= 10
    &&& q + 24 + 8 * u16_at(s, q + 6, little_endian) <= s.len()
}

/// `b` holds the conversion block stored at `p`: the links after the first
/// four are its references, whatever its reference count says.
pub open spec fn cc_fields(s: Seq<u8>, p: int, little_endian: bool, b: Ccblock) -> bool {
    let q = data_start(s, p, little_endian);
    let n = link_count_at(s, p, little_endian);
    let links = links_at(s, p + 24, little_endian, n as nat);
    &&& header_fields(s, p, little_endian, b.header)
    &&& b.cc_tx_name == links[0]
    &&& b.cc_md_unit == links[1]
    &&& b.cc_md_comment == links[2]
    &&& b.cc_cc_inverse == links[3]
    &&& b.cc_ref@ == links.subrange(4, n)
    &&& b.cc_type == CCType::spec_new(s[q])
    &&& b.cc_precision == s[q + 1]
    &&& b.cc_flags == u16_at(s, q + 2, little_endian)
    &&& b.cc_ref_count == u16_at(s, q + 4, little_endian)
    &&& b.cc_val_count == u16_at(s, q + 6, little_endian)
    &&& b.cc_phy_range_min == u64_at(s, q + 8, little_endian)
    &&& b.cc_phy_range_max == u64_at(s, q + 16, little_endian)
    &&& b.cc_val@ == links_at(s, q + 24, little_endian, b.cc_val_count as nat)
}

impl Block for Ccblock {
    open spec fn spec_is_new(&self) -> bool {
        &&& self.header.id@ == seq![0x23u8, 0x23u8, 0x43u8, 0x43u8]
        &&& self.header.reserved0@ == seq![0u8, 0u8, 0u8, 0u8]
        &&& self.header.length == 50
        &&& self.header.link_count == 0
        &&& self.cc_tx_name == 0
        &&& self.cc_md_unit == 0
        &&& self.cc_md_comment == 0
        &&& self.cc_cc_inverse == 0
        &&& self.cc_ref@ == Seq::<u64>::empty()
        &&& self.cc_type == CCType::Direct
        &&& self.cc_precision == 0
        &&& self.cc_flags == 0
        &&& self.cc_ref_count == 0
        &&& self.cc_val_count == 0
        &&& self.cc_phy_range_min == 0
        &&& self.cc_phy_range_max == 0
        &&& self.cc_val@ == Seq::<u64>::empty()
    }

    open spec fn spec_is_default(&self) -> bool {
        self.spec_is_new()
    }

    open spec fn spec_readable(stream: Seq<u8>, position: int, little_endian: bool) -> bool {
        cc_readable(stream, position, little_endian)
    }

    open spec fn spec_read_result(
        stream: Seq<u8>,
        position: int,
        little_endian: bool,
        end: int,
        block: Self,
    ) -> bool {
        &&& end == data_start(stream, position, little_endian) + 24 + 8 * block.cc_val_count
        &&& cc_fields(stream, position, little_endian, block)
    }

    open spec fn spec_has_byte_len(&self) -> bool {
        true
    }

    /// The fixed part, and the references and values where there are any,
    /// each counted by its announced number.
    open spec fn spec_byte_len(&self) -> nat {
        let refs: nat = if self.cc_ref@.len() > 0 {
            8 * self.cc_ref_count as nat
        } else {
            0
        };
        let values: nat = if self.cc_val@.len() > 0 {
            8 * self.cc_val_count as nat
        } else {
            0
        };
        80 + refs + values
    }

    fn new() -> (r: Self) {
        let header = BlockHeader::with_id([0x23u8, 0x23u8, 0x43u8, 0x43u8], 50, 0);
        assert(header.id@ =~= seq![0x23u8, 0x23u8, 0x43u8, 0x43u8]);
        Ccblock {
            header,
            cc_tx_name: 0,
            cc_md_unit: 0,
            cc_md_comment: 0,
            cc_cc_inverse: 0,
            cc_ref: Vec::new(),
            cc_type: CCType::Direct,
            cc_precision: 0,
            cc_flags: 0,
            cc_ref_count: 0,
            cc_val_count: 0,
            cc_phy_range_min: 0,
            cc_phy_range_max: 0,
            cc_val: Vec::new(),
        }
    }

    fn default() -> (r: Self) {
        Self::new()
    }

    fn is_readable(stream: &[u8], position: usize, little_endian: bool) -> (r: bool) {
        if !check_links_fit(stream, position, little_endian, 4, 24) {
            return false;
        }
        if !check_id(stream, position, 0x43, 0x43) {
            return false;
        }
        let total = stream.len();
        let q = data_offset(stream, position, little_endian);
        let mut p = q + 6;
        let val_count = read_u16(stream, little_endian, &mut p);
        stream[q] <= 10 && (val_count as usize) <= (stream.len() - q - 24) / 8
    }

    fn read(stream: &[u8], position: usize, little_endian: bool) -> (r: (usize, Self)) {
        let total = stream.len();
        let (pos, header) = BlockHeader::read(stream, position, little_endian);
        let (mut pos, address) = link_extract(stream, pos, little_endian, header.link_count);
        let cc_ref = take_links(&address, 4, header.link_count as usize - 4);
        let cc_type = CCType::new(read_u8(stream, &mut pos));
        let cc_precision = read_u8(stream, &mut pos);
        let cc_flags = read_u16(stream, little_endian, &mut pos);
        let cc_ref_count = read_u16(stream, little_endian, &mut pos);
        let cc_val_count = read_u16(stream, little_endian, &mut pos);
        let cc_phy_range_min = read_u64(stream, little_endian, &mut pos);
        let cc_phy_range_max = read_u64(stream, little_endian, &mut pos);
        let cc_val = read_u64_values(stream, little_endian, &mut pos, cc_val_count as usize);
        (
            pos,
            Ccblock {
                header,
                cc_tx_name: address[0],
                cc_md_unit: address[1],
                cc_md_comment: address[2],
                cc_cc_inverse: address[3],
                cc_ref,
                cc_type,
                cc_precision,
                cc_flags,
                cc_ref_count,
                cc_val_count,
                cc_phy_range_min,
                cc_phy_range_max,
                cc_val,
            },
        )
    }

    fn byte_len(&self) -> (r: usize) {
        let mut length = HEADER_LEN + 8 + 8 + 8 + 8 + 1 + 1 + 2 + 2 + 2 + 8 + 8;
        if self.cc_ref.len() > 0 {
            length = length + 8 * self.cc_ref_count as usize;
        }
        if self.cc_val.len() > 0 {
            length = length + 8 * self.cc_val_count as usize;
        }
        length
    }
}

} // verus!
