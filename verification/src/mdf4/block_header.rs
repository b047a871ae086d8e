//! The 24-byte header that starts every block of an MDF version 4 file.
use crate::mdf4::block::Block;
use crate::utils::{read_array, read_u64, u64_at};
use vstd::prelude::*;
use vstd::string::StringSliceAdditionalSpecFns;

verus! {

/// Block identifier, reserved bytes, block length and number of links.
#[derive(Debug, Clone, Copy)]
pub struct BlockHeader {
    pub id: [u8; 4],
    pub reserved0: [u8; 4],
    pub length: u64,
    pub link_count: u64,
}

/// Number of bytes of a block header.
pub const HEADER_LEN: usize = 24;

/// A whole header lies inside `s` at `p`.
pub open spec fn header_fits(s: Seq<u8>, p: int) -> bool {
    0 <= p && p + 24 <= s.len()
}

/// `h` holds the header stored at `p`.
pub open spec fn header_fields(s: Seq<u8>, p: int, little_endian: bool, h: BlockHeader) -> bool {
    &&& h.id@ == s.subrange(p, p + 4)
    &&& h.reserved0@ == s.subrange(p + 4, p + 8)
    &&& h.length == u64_at(s, p + 8, little_endian)
    &&& h.link_count == u64_at(s, p + 16, little_endian)
}

/// Number of links that the header at `p` announces.
pub open spec fn link_count_at(s: Seq<u8>, p: int, little_endian: bool) -> int {
    u64_at(s, p + 16, little_endian) as int
}

/// Block length that the header at `p` announces.
pub open spec fn length_at(s: Seq<u8>, p: int, little_endian: bool) -> int {
    u64_at(s, p + 8, little_endian) as int
}

/// The block at `p` carries the identifier `##` followed by `c` and `d`.
pub open spec fn id_at(s: Seq<u8>, p: int, c: u8, d: u8) -> bool {
    &&& s[p] == 0x23
    &&& s[p + 1] == 0x23
    &&& s[p + 2] == c
    &&& s[p + 3] == d
}

/// The header at `p` is followed by its links and then by `tail` bytes, all
/// inside `s`, and it announces at least `min_links` links.
pub open spec fn links_fit(
    s: Seq<u8>,
    p: int,
    little_endian: bool,
    min_links: int,
    tail: int,
) -> bool {
    &&& header_fits(s, p)
    &&& link_count_at(s, p, little_endian) >= min_links
    &&& p + 24 + 8 * link_count_at(s, p, little_endian) + tail <= s.len()
}

/// Position of the data section of the block at `p`: after header and links.
pub open spec fn data_start(s: Seq<u8>, p: int, little_endian: bool) -> int {
    p + 24 + 8 * link_count_at(s, p, little_endian)
}

/// Whether the block at `position` carries the identifier `##` `c` `d`.
pub fn check_id(stream: &[u8], position: usize, c: u8, d: u8) -> (r: bool)
    ensures
        r == (position + 4 <= stream@.len() && id_at(stream@, position as int, c, d)),
{
    if position > stream.len() || stream.len() - position < 4 {
        return false;
    }
    stream[position] == 0x23 && stream[position + 1] == 0x23 && stream[position + 2] == c
        && stream[position + 3] == d
}

/// Whether the header at `position` fits, announces at least `min_links`
/// links, and is followed by its links and `tail` more bytes.
pub fn check_links_fit(
    stream: &[u8],
    position: usize,
    little_endian: bool,
    min_links: u64,
    tail: usize,
) -> (r: bool)
    ensures
        r == links_fit(stream@, position as int, little_endian, min_links as int, tail as int),
{
    if position > stream.len() || stream.len() - position < HEADER_LEN {
        return false;
    }
    let mut p = position + 16;
    let count = read_u64(stream, little_endian, &mut p);
    if count < min_links {
        return false;
    }
    let room = stream.len() - position - HEADER_LEN;
    if tail > room {
        return false;
    }
    let left = (room - tail) as u64;
    count <= left / 8
}

/// Position of the data section of the block at `position`.
pub fn data_offset(stream: &[u8], position: usize, little_endian: bool) -> (r: usize)
    requires
        links_fit(stream@, position as int, little_endian, 0, 0),
    ensures
        r == data_start(stream@, position as int, little_endian),
{
    let total = stream.len();
    let mut p = position + 16;
    let count = read_u64(stream, little_endian, &mut p);
    position + HEADER_LEN + 8 * (count as usize)
}

impl BlockHeader {
    /// A header with the given four identifier bytes.
    pub fn with_id(id: [u8; 4], length: u64, link_count: u64) -> (r: Self)
        ensures
            r.id == id,
            r.reserved0@ == seq![0u8, 0u8, 0u8, 0u8],
            r.length == length,
            r.link_count == link_count,
    {
        let r = BlockHeader { id, reserved0: [0u8, 0u8, 0u8, 0u8], length, link_count };
        assert(r.reserved0@ =~= seq![0u8, 0u8, 0u8, 0u8]);
        r
    }

    /// A header whose identifier is the four bytes of `id`.
    pub fn create(id: &str, length: usize, link_count: usize) -> (r: Self)
        requires
            id.spec_bytes().len() == 4,
        ensures
            r.id@ == id.spec_bytes(),
            r.reserved0@ == seq![0u8, 0u8, 0u8, 0u8],
            r.length == length,
            r.link_count == link_count,
    {
        let bytes = id.as_bytes();
        let mut arr = [0u8; 4];
        let mut p: usize = 0;
        read_array(bytes, &mut arr, &mut p);
        assert(arr@ =~= id.spec_bytes());
        Self::with_id(arr, length as u64, link_count as u64)
    }
}

impl Block for BlockHeader {
    open spec fn spec_is_new(&self) -> bool {
        &&& self.id@ == seq![0u8, 0u8, 0u8, 0u8]
        &&& self.reserved0@ == seq![0u8, 0u8, 0u8, 0u8]
        &&& self.length == 0
        &&& self.link_count == 0
    }

    open spec fn spec_is_default(&self) -> bool {
        self.spec_is_new()
    }

    open spec fn spec_readable(stream: Seq<u8>, position: int, little_endian: bool) -> bool {
        header_fits(stream, position)
    }

    open spec fn spec_read_result(
        stream: Seq<u8>,
        position: int,
        little_endian: bool,
        end: int,
        block: Self,
    ) -> bool {
        end == position + 24 && header_fields(stream, position, little_endian, block)
    }

    open spec fn spec_has_byte_len(&self) -> bool {
        true
    }

    open spec fn spec_byte_len(&self) -> nat {
        24
    }

    fn new() -> (r: Self) {
        let r = BlockHeader { id: [0u8, 0u8, 0u8, 0u8], reserved0: [0u8, 0u8, 0u8, 0u8], length: 0, link_count: 0 };
        assert(r.id@ =~= seq![0u8, 0u8, 0u8, 0u8]);
        assert(r.reserved0@ =~= seq![0u8, 0u8, 0u8, 0u8]);
        r
    }

    fn default() -> (r: Self) {
        Self::new()
    }

    fn is_readable(stream: &[u8], position: usize, little_endian: bool) -> (r: bool) {
        position <= stream.len() && stream.len() - position >= HEADER_LEN
    }

    fn read(stream: &[u8], position: usize, little_endian: bool) -> (r: (usize, Self)) {
        let mut pos = position;
        let mut id = [0u8; 4];
        read_array(stream, &mut id, &mut pos);
        let mut reserved0 = [0u8; 4];
        read_array(stream, &mut reserved0, &mut pos);
        let length = read_u64(stream, little_endian, &mut pos);
        let link_count = read_u64(stream, little_endian, &mut pos);
        (pos, BlockHeader { id, reserved0, length, link_count })
    }

    fn byte_len(&self) -> (r: usize) {
        HEADER_LEN
    }
}

} // verus!
