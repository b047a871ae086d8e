//! Zipped data block (`##DZ`): a data block compressed with deflate.
use crate::mdf4::block::{Block, DataBlock};
use crate::mdf4::block_header::{check_id, header_fields, header_fits, id_at, BlockHeader};
use crate::mdf4::mdf4_enums::ZipType;
use crate::utils::{bytes_to_vec, read_array, read_u32, read_u64, read_u8, u32_at, u64_at};
use vstd::prelude::*;

verus! {

#[derive(Debug, Clone)]
pub struct Dzblock {
    pub header: BlockHeader,
    pub dz_org_block_type: [u8; 2],
    pub dz_zip_type: ZipType,
    pub dz_reserved: u8,
    pub dz_zip_parameter: u32,
    pub dz_org_data_length: u64,
    pub dz_data_length: u64,
    pub dz_data: Vec<u8>,
}

/// What inflating the deflate stream `data` gives, or `None` where `data` is
/// not a complete deflate stream.
pub uninterp spec fn deflate_decoded(data: Seq<u8>) -> Option<Seq<u8>>;

/// `miniz_oxide::inflate::decompress_to_vec` on `data`. Claimed: it succeeds
/// exactly where `deflate_decoded` gives a value, and gives that value; the
/// result depends on the bytes of `data` alone.
#[verifier::external_body]
fn inflate(data: &[u8]) -> (r: Option<Vec<u8>>)
    ensures
        match r {
            Some(v) => deflate_decoded(data@) == Some(v@),
            None => deflate_decoded(data@) is None,
        },
{
    miniz_oxide::inflate::decompress_to_vec(data).ok()
}

/// A zipped data block can be read at `p`.
pub open spec fn dz_readable(s: Seq<u8>, p: int, little_endian: bool) -> bool {
    &&& header_fits(s, p)
    &&& id_at(s, p, 0x44, 0x5A)
    &&& p + 48 <= s.len()
    &&& s[p + 26] <= 1
    &&& p + 48 + u64_at(s, p + 40, little_endian) <= s.len()
}

/// `b` holds the zipped data block stored at `p`.
pub open spec fn dz_fields(s: Seq<u8>, p: int, little_endian: bool, b: Dzblock) -> bool {
    &&& header_fields(s, p, little_endian, b.header)
    &&& b.dz_org_block_type@ == s.subrange(p + 24, p + 26)
    &&& b.dz_zip_type == ZipType::spec_new(s[p + 26])
    &&& b.dz_reserved == s[p + 27]
    &&& b.dz_zip_parameter == u32_at(s, p + 28, little_endian)
    &&& b.dz_org_data_length == u64_at(s, p + 32, little_endian)
    &&& b.dz_data_length == u64_at(s, p + 40, little_endian)
    &&& b.dz_data@ == s.subrange(p + 48, p + 48 + b.dz_data_length)
}

impl Dzblock {
    /// The inflated data, or `None` where the compressed data do not inflate.
    pub fn try_data_array(&self, _stream: &[u8], _little_endian: bool) -> (r: Option<Vec<u8>>)
        ensures
            match r {
                Some(v) => deflate_decoded(self.dz_data@) == Some(v@),
                None => deflate_decoded(self.dz_data@) is None,
            },
    {
        inflate(self.dz_data.as_slice())
    }
}

impl DataBlock for Dzblock {
    /// The compressed data inflate.
    open spec fn spec_has_data(&self) -> bool {
        deflate_decoded(self.dz_data@) is Some
    }

    open spec fn spec_data(&self) -> Seq<u8> {
        deflate_decoded(self.dz_data@)->0
    }

    fn data_array(&self, _stream: &[u8], _little_endian: bool) -> (r: Vec<u8>) {
        match inflate(self.dz_data.as_slice()) {
            Some(v) => v,
            None => Vec::new(),
        }
    }
}

impl Block for Dzblock {
    open spec fn spec_is_new(&self) -> bool {
        &&& self.header.id@ == seq![0x23u8, 0x23u8, 0x44u8, 0x5Au8]
        &&& self.header.reserved0@ == seq![0u8, 0u8, 0u8, 0u8]
        &&& self.header.length == 50
        &&& self.header.link_count == 0
        &&& self.dz_org_block_type@ == seq![0u8, 0u8]
        &&& self.dz_zip_type == ZipType::Deflate
        &&& self.dz_reserved == 0
        &&& self.dz_zip_parameter == 0
        &&& self.dz_org_data_length == 0
        &&& self.dz_data_length == 0
        &&& self.dz_data@ == Seq::<u8>::empty()
    }

    open spec fn spec_is_default(&self) -> bool {
        self.spec_is_new()
    }

    open spec fn spec_readable(stream: Seq<u8>, position: int, little_endian: bool) -> bool {
        dz_readable(stream, position, little_endian)
    }

    open spec fn spec_read_result(
        stream: Seq<u8>,
        position: int,
        little_endian: bool,
        end: int,
        block: Self,
    ) -> bool {
        &&& end == position + 48 + block.dz_data_length
        &&& dz_fields(stream, position, little_endian, block)
    }

    /// This block kind has no defined byte length.
    open spec fn spec_has_byte_len(&self) -> bool {
        false
    }

    open spec fn spec_byte_len(&self) -> nat {
        0
    }

    fn new() -> (r: Self) {
        let header = BlockHeader::with_id([0x23u8, 0x23u8, 0x44u8, 0x5Au8], 50, 0);
        assert(header.id@ =~= seq![0x23u8, 0x23u8, 0x44u8, 0x5Au8]);
        let r = Dzblock {
            header,
            dz_org_block_type: [0u8, 0u8],
            dz_zip_type: ZipType::Deflate,
            dz_reserved: 0,
            dz_zip_parameter: 0,
            dz_org_data_length: 0,
            dz_data_length: 0,
            dz_data: Vec::new(),
        };
        assert(r.dz_org_block_type@ =~= seq![0u8, 0u8]);
        r
    }

    fn default() -> (r: Self) {
        Self::new()
    }

    fn is_readable(stream: &[u8], position: usize, little_endian: bool) -> (r: bool) {
        if !check_id(stream, position, 0x44, 0x5A) {
            return false;
        }
        if stream.len() - position < 48 {
            return false;
        }
        if stream[position + 26] > 1 {
            return false;
        }
        let mut p = position + 40;
        let data_length = read_u64(stream, little_endian, &mut p);
        data_length <= (stream.len() - position - 48) as u64
    }

    fn read(stream: &[u8], position: usize, little_endian: bool) -> (r: (usize, Self)) {
        let total = stream.len();
        let (mut pos, header) = BlockHeader::read(stream, position, little_endian);
        let mut dz_org_block_type = [0u8; 2];
        read_array(stream, &mut dz_org_block_type, &mut pos);
        let dz_zip_type = ZipType::new(read_u8(stream, &mut pos));
        let dz_reserved = read_u8(stream, &mut pos);
        let dz_zip_parameter = read_u32(stream, little_endian, &mut pos);
        let dz_org_data_length = read_u64(stream, little_endian, &mut pos);
        let dz_data_length = read_u64(stream, little_endian, &mut pos);
        let end = pos + dz_data_length as usize;
        let dz_data = bytes_to_vec(vstd::slice::slice_subrange(stream, pos, end));
        pos = pos + dz_data.len();
        (
            pos,
            Dzblock {
                header,
                dz_org_block_type,
                dz_zip_type,
                dz_reserved,
                dz_zip_parameter,
                dz_org_data_length,
                dz_data_length,
                dz_data,
            },
        )
    }

    fn byte_len(&self) -> (r: usize) {
        0
    }
}

} // verus!
