//! Conversion block (`CC`) of an MDF version 3 file. The physical range is
//! kept as the IEEE 754 bits stored in the file.
use crate::mdf3::conversion_data::ConversionData;
use crate::mdf3::mdf3_block::{check_fits, check_tag, fits, tag_at, Mdf3Block};
use crate::utils::{
    bytes_to_vec, lemma_byte_range_values, lemma_field_bytes, read_array, read_u16, read_u64,
    u16_at, u64_at, uint_bytes, write_u16, write_u64,
};
use vstd::prelude::*;

verus! {

#[derive(Debug, Clone, Copy)]
pub struct Ccblock {
    pub block_type: [u8; 2],
    pub block_size: u16,
    pub physical_range_valid: u16,
    pub physical_min: u64,
    pub physical_max: u64,
    pub unit: [u8; 20],
    pub conversion_type: u16,
    pub size_info: u16,
    pub conversion_data: ConversionData,
}

/// Number of bytes of the fixed part of a conversion block.
pub const CC_LEN: usize = 46;

/// A conversion block can be read at `p`.
pub open spec fn cc_readable(s: Seq<u8>, p: int) -> bool {
    fits(s, p, 46) && tag_at(s, p, 0x43, 0x43)
}

/// `b` holds the conversion block stored at `p`; its data is always read as parameters.
pub open spec fn cc_fields(s: Seq<u8>, p: int, little_endian: bool, b: Ccblock) -> bool {
    &&& b.block_type@ == s.subrange(p, p + 2)
    &&& b.block_size == u16_at(s, p + 2, little_endian)
    &&& b.physical_range_valid == u16_at(s, p + 4, little_endian)
    &&& b.physical_min == u64_at(s, p + 6, little_endian)
    &&& b.physical_max == u64_at(s, p + 14, little_endian)
    &&& b.unit@ == s.subrange(p + 22, p + 42)
    &&& b.conversion_type == u16_at(s, p + 42, little_endian)
    &&& b.size_info == u16_at(s, p + 44, little_endian)
    &&& b.conversion_data == ConversionData::Parameters
}

impl Mdf3Block for Ccblock {
    /// The position after the block must be a `usize`.
    open spec fn spec_readable(stream: Seq<u8>, position: int, little_endian: bool) -> bool {
        cc_readable(stream, position) && position + 47 <= usize::MAX
    }

    /// The position after the block counts one byte of conversion data.
    open spec fn spec_read_result(
        stream: Seq<u8>,
        position: int,
        little_endian: bool,
        end: int,
        block: Self,
    ) -> bool {
        end == position + 47 && cc_fields(stream, position, little_endian, block)
    }

    open spec fn spec_writable(&self) -> bool {
        true
    }

    /// The fixed part of the block; the conversion data is not written.
    open spec fn spec_write(&self, little_endian: bool) -> Seq<u8> {
        self.block_type@ + uint_bytes(self.block_size as nat, 2, little_endian) + uint_bytes(
            self.physical_range_valid as nat,
            2,
            little_endian,
        ) + uint_bytes(self.physical_min as nat, 8, little_endian) + uint_bytes(
            self.physical_max as nat,
            8,
            little_endian,
        ) + self.unit@ + uint_bytes(self.conversion_type as nat, 2, little_endian) + uint_bytes(
            self.size_info as nat,
            2,
            little_endian,
        )
    }

    fn is_readable(stream: &[u8], position: usize, little_endian: bool) -> (r: bool) {
        check_fits(stream, position, CC_LEN) && check_tag(stream, position, 0x43, 0x43)
            && position <= usize::MAX - 47
    }

    fn read(stream: &[u8], position: usize, little_endian: bool) -> (r: (usize, Self)) {
        let mut pos = position;
        let mut block_type = [0u8; 2];
        read_array(stream, &mut block_type, &mut pos);
        let block_size = read_u16(stream, little_endian, &mut pos);
        let physical_range_valid = read_u16(stream, little_endian, &mut pos);
        let physical_min = read_u64(stream, little_endian, &mut pos);
        let physical_max = read_u64(stream, little_endian, &mut pos);
        let mut unit = [0u8; 20];
        read_array(stream, &mut unit, &mut pos);
        let conversion_type = read_u16(stream, little_endian, &mut pos);
        let size_info = read_u16(stream, little_endian, &mut pos);
        let datatype: u8 = 1;
        let (conversion_data, pos_conversion) = ConversionData::read(
            stream,
            little_endian,
            datatype,
        );
        pos = pos + pos_conversion;
        (
            pos,
            Ccblock {
                block_type,
                block_size,
                physical_range_valid,
                physical_min,
                physical_max,
                unit,
                conversion_type,
                size_info,
                conversion_data,
            },
        )
    }

    fn write(&self, start_position: usize, little_endian: bool) -> (r: Vec<u8>) {
        let mut array = bytes_to_vec(&self.block_type);
        let mut part = write_u16(self.block_size, little_endian);
        array.append(&mut part);
        let mut part = write_u16(self.physical_range_valid, little_endian);
        array.append(&mut part);
        let mut part = write_u64(self.physical_min, little_endian);
        array.append(&mut part);
        let mut part = write_u64(self.physical_max, little_endian);
        array.append(&mut part);
        let mut part = bytes_to_vec(&self.unit);
        array.append(&mut part);
        let mut part = write_u16(self.conversion_type, little_endian);
        array.append(&mut part);
        let mut part = write_u16(self.size_info, little_endian);
        array.append(&mut part);
        array
    }
}

/// Writing a conversion block that was read gives back the 46 bytes of its
/// fixed part.
pub proof fn lemma_cc_read_write(s: Seq<u8>, p: int, little_endian: bool, b: Ccblock)
    requires
        cc_readable(s, p),
        cc_fields(s, p, little_endian, b),
    ensures
        b.spec_write(little_endian) == s.subrange(p, p + 46),
{
    lemma_byte_range_values();
    lemma_field_bytes(s, p + 2, 2, little_endian);
    lemma_field_bytes(s, p + 4, 2, little_endian);
    lemma_field_bytes(s, p + 6, 8, little_endian);
    lemma_field_bytes(s, p + 14, 8, little_endian);
    lemma_field_bytes(s, p + 42, 2, little_endian);
    lemma_field_bytes(s, p + 44, 2, little_endian);
    assert(s.subrange(p, p + 46) =~= s.subrange(p, p + 2) + s.subrange(p + 2, p + 4) + s.subrange(
        p + 4,
        p + 6,
    ) + s.subrange(p + 6, p + 14) + s.subrange(p + 14, p + 22) + s.subrange(p + 22, p + 42)
        + s.subrange(p + 42, p + 44) + s.subrange(p + 44, p + 46));
}

} // verus!
