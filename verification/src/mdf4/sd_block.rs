//! Signal data block (`##SD`): the values of variable length signals.
use crate::mdf4::block::Block;
use crate::mdf4::block_header::{header_fields, header_fits, length_at, BlockHeader, HEADER_LEN};
use crate::utils::bytes_to_vec;
use vstd::prelude::*;

verus! {

#[derive(Debug, Clone)]
pub struct Sdblock {
    pub header: BlockHeader,
    pub sd_data: Vec<u8>,
}

/// The block at `p` announces at least its header's length and lies inside `s`.
pub open spec fn payload_fits(s: Seq<u8>, p: int, little_endian: bool) -> bool {
    &&& header_fits(s, p)
    &&& length_at(s, p, little_endian) >= 24
    &&& p + length_at(s, p, little_endian) <= s.len()
}

/// The bytes after the header of the block at `p`, up to its announced length.
pub open spec fn payload(s: Seq<u8>, p: int, little_endian: bool) -> Seq<u8> {
    s.subrange(p + 24, p + length_at(s, p, little_endian))
}

/// Whether the block at `position` announces at least its header's length
/// and lies inside `stream`.
pub fn check_payload_fits(stream: &[u8], position: usize, little_endian: bool) -> (r: bool)
    ensures
        r == payload_fits(stream@, position as int, little_endian),
{
    if !BlockHeader::is_readable(stream, position, little_endian) {
        return false;
    }
    let (_, header) = BlockHeader::read(stream, position, little_endian);
    header.length >= 24 && header.length <= (stream.len() - position) as u64
}

/// The bytes after the header of the block at `position`, up to its length.
pub fn read_payload(stream: &[u8], position: usize, little_endian: bool) -> (r: (
    usize,
    BlockHeader,
    Vec<u8>,
))
    requires
        payload_fits(stream@, position as int, little_endian),
    ensures
        r.0 == position + length_at(stream@, position as int, little_endian),
        header_fields(stream@, position as int, little_endian, r.1),
        r.2@ == payload(stream@, position as int, little_endian),
{
    let total = stream.len();
    let (pos, header) = BlockHeader::read(stream, position, little_endian);
    let end = position + header.length as usize;
    let data = bytes_to_vec(vstd::slice::slice_subrange(stream, pos, end));
    let pos = pos + data.len();
    (pos, header, data)
}

impl Block for Sdblock {
    open spec fn spec_is_new(&self) -> bool {
        &&& self.header.id@ == seq![0x23u8, 0x23u8, 0x53u8, 0x44u8]
        &&& self.header.reserved0@ == seq![0u8, 0u8, 0u8, 0u8]
        &&& self.header.length == 24
        &&& self.header.link_count == 0
        &&& self.sd_data@ == Seq::<u8>::empty()
    }

    open spec fn spec_is_default(&self) -> bool {
        &&& self.header.spec_is_new()
        &&& self.sd_data@ == Seq::<u8>::empty()
    }

    /// The identifier is not checked.
    open spec fn spec_readable(stream: Seq<u8>, position: int, little_endian: bool) -> bool {
        payload_fits(stream, position, little_endian)
    }

    open spec fn spec_read_result(
        stream: Seq<u8>,
        position: int,
        little_endian: bool,
        end: int,
        block: Self,
    ) -> bool {
        &&& end == position + length_at(stream, position, little_endian)
        &&& header_fields(stream, position, little_endian, block.header)
        &&& block.sd_data@ == payload(stream, position, little_endian)
    }

    open spec fn spec_has_byte_len(&self) -> bool {
        self.sd_data@.len() + 24 <= usize::MAX
    }

    open spec fn spec_byte_len(&self) -> nat {
        24 + self.sd_data@.len()
    }

    fn new() -> (r: Self) {
        let header = BlockHeader::with_id([0x23u8, 0x23u8, 0x53u8, 0x44u8], 24, 0);
        assert(header.id@ =~= seq![0x23u8, 0x23u8, 0x53u8, 0x44u8]);
        Sdblock { header, sd_data: Vec::new() }
    }

    fn default() -> (r: Self) {
        Sdblock { header: BlockHeader::new(), sd_data: Vec::new() }
    }

    fn is_readable(stream: &[u8], position: usize, little_endian: bool) -> (r: bool) {
        check_payload_fits(stream, position, little_endian)
    }

    fn read(stream: &[u8], position: usize, little_endian: bool) -> (r: (usize, Self)) {
        let (pos, header, sd_data) = read_payload(stream, position, little_endian);
        (pos, Sdblock { header, sd_data })
    }

    fn byte_len(&self) -> (r: usize) {
        HEADER_LEN + self.sd_data.len()
    }
}

/// A signal data block takes, as `byte_len` says, as many bytes as reading it
/// consumes.
pub proof fn lemma_sd_byte_len_is_read_len(
    stream: Seq<u8>,
    position: int,
    little_endian: bool,
    end: int,
    block: Sdblock,
)
    requires
        Sdblock::spec_readable(stream, position, little_endian),
        Sdblock::spec_read_result(stream, position, little_endian, end, block),
    ensures
        end - position == block.spec_byte_len(),
{
}

} // verus!
