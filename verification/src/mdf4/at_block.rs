//! Attachment block (`##AT`): a file embedded in, or referenced by, the measurement.
use crate::mdf4::block::Block;
use crate::mdf4::block_header::{
    check_id, check_links_fit, data_offset, data_start, id_at, links_fit, BlockHeader,
};
use crate::mdf4::link_extract;
use crate::utils::{bytes_to_vec, read_array, read_u16, read_u64, u16_at, u64_at};
use vstd::prelude::*;

verus! {

#[derive(Debug, Clone)]
pub struct Atblock {
    pub next_at_addr: u64,
    pub file_name_addr: u64,
    pub mime_addr: u64,
    pub comment_addr: u64,
    pub flags: u16,
    pub creator_index: u16,
    pub md5_sum: [u8; 16],
    pub original_size: u64,
    pub embedded_size: u64,
    pub embedded_data: Vec<u8>,
}

/// An attachment block can be read at `p`: its embedded data follow its
/// fixed fields inside `s`.
pub open spec fn at_readable(s: Seq<u8>, p: int, little_endian: bool) -> bool {
    let q = data_start(s, p, little_endian);
    &&& links_fit(s, p, little_endian, 4, 40)
    &&& id_at(s, p, 0x41, 0x54)
    &&& q + 40 + u64_at(s, q + 32, little_endian) <= s.len()
}

/// `b` holds the attachment block stored at `p`; the reserved bytes are skipped.
pub open spec fn at_fields(s: Seq<u8>, p: int, little_endian: bool, b: Atblock) -> bool {
    let q = data_start(s, p, little_endian);
    &&& b.next_at_addr == u64_at(s, p + 24, little_endian)
    &&& b.file_name_addr == u64_at(s, p + 32, little_endian)
    &&& b.mime_addr == u64_at(s, p + 40, little_endian)
    &&& b.comment_addr == u64_at(s, p + 48, little_endian)
    &&& b.flags == u16_at(s, q, little_endian)
    &&& b.creator_index == u16_at(s, q + 2, little_endian)
    &&& b.md5_sum@ == s.subrange(q + 8, q + 24)
    &&& b.original_size == u64_at(s, q + 24, little_endian)
    &&& b.embedded_size == u64_at(s, q + 32, little_endian)
    &&& b.embedded_data@ == s.subrange(q + 40, q + 40 + b.embedded_size)
}

impl Block for Atblock {
    open spec fn spec_is_new(&self) -> bool {
        &&& self.next_at_addr == 0
        &&& self.file_name_addr == 0
        &&& self.mime_addr == 0
        &&& self.comment_addr == 0
        &&& self.flags == 0
        &&& self.creator_index == 0
        &&& self.md5_sum@ == Seq::new(16, |i: int| 0u8)
        &&& self.original_size == 0
        &&& self.embedded_size == 0
        &&& self.embedded_data@ == Seq::<u8>::empty()
    }

    open spec fn spec_is_default(&self) -> bool {
        self.spec_is_new()
    }

    open spec fn spec_readable(stream: Seq<u8>, position: int, little_endian: bool) -> bool {
        at_readable(stream, position, little_endian)
    }

    /// The position handed back is that after the fixed fields: the embedded
    /// data are not counted.
    open spec fn spec_read_result(
        stream: Seq<u8>,
        position: int,
        little_endian: bool,
        end: int,
        block: Self,
    ) -> bool {
        &&& end == data_start(stream, position, little_endian) + 40
        &&& at_fields(stream, position, little_endian, block)
    }

    /// This block kind has no defined byte length.
    open spec fn spec_has_byte_len(&self) -> bool {
        false
    }

    open spec fn spec_byte_len(&self) -> nat {
        0
    }

    fn new() -> (r: Self) {
        let r = Atblock {
            next_at_addr: 0,
            file_name_addr: 0,
            mime_addr: 0,
            comment_addr: 0,
            flags: 0,
            creator_index: 0,
            md5_sum: [0u8; 16],
            original_size: 0,
            embedded_size: 0,
            embedded_data: Vec::new(),
        };
        assert(r.md5_sum@ =~= Seq::new(16, |i: int| 0u8));
        r
    }

    fn default() -> (r: Self) {
        Self::new()
    }

    fn is_readable(stream: &[u8], position: usize, little_endian: bool) -> (r: bool) {
        if !check_links_fit(stream, position, little_endian, 4, 40) {
            return false;
        }
        if !check_id(stream, position, 0x41, 0x54) {
            return false;
        }
        let total = stream.len();
        let q = data_offset(stream, position, little_endian);
        let mut p = q + 32;
        let size = read_u64(stream, little_endian, &mut p);
        size <= (stream.len() - q - 40) as u64
    }

    fn read(stream: &[u8], position: usize, little_endian: bool) -> (r: (usize, Self)) {
        let total = stream.len();
        let (pos, header) = BlockHeader::read(stream, position, little_endian);
        let (mut pos, addresses) = link_extract(stream, pos, little_endian, header.link_count);
        let next_at_addr = addresses[0];
        let file_name_addr = addresses[1];
        let mime_addr = addresses[2];
        let comment_addr = addresses[3];
        let flags = read_u16(stream, little_endian, &mut pos);
        let creator_index = read_u16(stream, little_endian, &mut pos);
        let mut reserved1 = [0u8; 4];
        read_array(stream, &mut reserved1, &mut pos);
        let mut md5_sum = [0u8; 16];
        read_array(stream, &mut md5_sum, &mut pos);
        let original_size = read_u64(stream, little_endian, &mut pos);
        let embedded_size = read_u64(stream, little_endian, &mut pos);
        let end = pos + embedded_size as usize;
        let embedded_data = bytes_to_vec(vstd::slice::slice_subrange(stream, pos, end));
        (
            pos,
            Atblock {
                next_at_addr,
                file_name_addr,
                mime_addr,
                comment_addr,
                flags,
                creator_index,
                md5_sum,
                original_size,
                embedded_size,
                embedded_data,
            },
        )
    }

    fn byte_len(&self) -> (r: usize) {
        0
    }
}

} // verus!
