//! Data group block (`##DG`): the records of one data section.
use crate::mdf4::block::{collect_chain, chain_ends, is_chain, Block, CheckedLink, LinkedBlock, UniqueLink};
use crate::mdf4::block_header::{check_links_fit, data_start, header_fields, links_fit, BlockHeader};
use crate::mdf4::cg_block::{cg_fields, cg_readable, Cgblock};
use crate::mdf4::link_extract;
use crate::utils::{read_array, read_u8, u64_at};
use vstd::prelude::*;

verus! {

#[derive(Debug, Clone, Copy)]
pub struct Dgblock {
    pub dg_dg_next: u64,
    pub dg_cg_first: u64,
    pub dg_data: u64,
    pub dg_md_comment: u64,
    pub dg_rec_id_size: u8,
    pub dg_reserved: [u8; 7],
}

/// Number of bytes after the links of a data group block.
pub const DG_DATA_LEN: usize = 8;

/// `b` holds the data group block stored at `p`.
pub open spec fn dg_fields(s: Seq<u8>, p: int, little_endian: bool, b: Dgblock) -> bool {
    let q = data_start(s, p, little_endian);
    &&& b.dg_dg_next == u64_at(s, p + 24, little_endian)
    &&& b.dg_cg_first == u64_at(s, p + 32, little_endian)
    &&& b.dg_data == u64_at(s, p + 40, little_endian)
    &&& b.dg_md_comment == u64_at(s, p + 48, little_endian)
    &&& b.dg_rec_id_size == s[q]
    &&& b.dg_reserved@ == s.subrange(q + 1, q + 8)
}

/// A data group block can be read at `p`: its identifier is not checked.
pub open spec fn dg_readable(s: Seq<u8>, p: int, little_endian: bool) -> bool {
    links_fit(s, p, little_endian, 4, 8)
}

impl Dgblock {
    /// The first channel group of this data group.
    pub fn first(&self, stream: &[u8], little_endian: bool) -> (r: Cgblock)
        requires
            cg_readable(stream@, self.dg_cg_first as int, little_endian),
        ensures
            cg_fields(stream@, self.dg_cg_first as int, little_endian, r),
    {
        let total = stream.len();
        let (_, block) = Cgblock::read(stream, self.dg_cg_first as usize, little_endian);
        block
    }

    /// The channel groups of this data group. The first group is read and
    /// then the link of that same group is followed again and again, so the
    /// reading ends only where the first group is the last of its chain; the
    /// result is then that group alone.
    pub fn read_channel_groups(self, stream: &[u8], little_endian: bool) -> (r: Vec<Cgblock>)
        requires
            cg_readable(stream@, self.dg_cg_first as int, little_endian),
            u64_at(stream@, self.dg_cg_first + 24, little_endian) == 0,
        ensures
            r@.len() == 1,
            cg_fields(stream@, self.dg_cg_first as int, little_endian, r@[0]),
    {
        let mut channel_grps: Vec<Cgblock> = Vec::new();
        let first = self.first(stream, little_endian);
        channel_grps.push(first);
        let following = first.next(stream, little_endian);
        match following {
            Some(cg) => channel_grps.push(cg),
            None => {},
        }
        channel_grps
    }

    /// This group followed by the groups that its chain of links reaches.
    pub fn list(&self, stream: &[u8], little_endian: bool) -> (r: Vec<Dgblock>)
        requires
            exists|fuel: nat|
                chain_ends::<Dgblock>(stream@, self.dg_dg_next as int, little_endian, fuel),
        ensures
            r@.len() >= 1,
            r@[0] == *self,
            is_chain::<Dgblock>(stream@, self.dg_dg_next as int, little_endian, r@.drop_first()),
    {
        collect_chain(*self, stream, little_endian)
    }
}

impl CheckedLink for Dgblock {
    fn link_readable(stream: &[u8], position: u64, little_endian: bool) -> (r: bool) {
        position <= stream.len() as u64 && <Dgblock as Block>::is_readable(
            stream,
            position as usize,
            little_endian,
        )
    }

    fn read_link(stream: &[u8], position: u64, little_endian: bool) -> (r: Self) {
        let total = stream.len();
        let (_, block) = <Dgblock as Block>::read(stream, position as usize, little_endian);
        block
    }

    fn next_link(&self) -> (r: u64) {
        self.dg_dg_next
    }
}

impl UniqueLink for Dgblock {
    proof fn lemma_block_unique(
        stream: Seq<u8>,
        position: int,
        little_endian: bool,
        a: Self,
        b: Self,
    ) {
        assert(a.dg_reserved =~= b.dg_reserved) by {
            broadcast use vstd::array::group_array_axioms;

        }
    }
}

impl LinkedBlock for Dgblock {
    open spec fn spec_next_link(&self) -> int {
        self.dg_dg_next as int
    }

    open spec fn spec_link_readable(stream: Seq<u8>, position: int, little_endian: bool) -> bool {
        dg_readable(stream, position, little_endian)
    }

    open spec fn spec_link_at(stream: Seq<u8>, position: int, little_endian: bool) -> int {
        u64_at(stream, position + 24, little_endian) as int
    }

    open spec fn spec_block_at(
        stream: Seq<u8>,
        position: int,
        little_endian: bool,
        block: Self,
    ) -> bool {
        dg_fields(stream, position, little_endian, block)
    }

    proof fn lemma_link_of_block(
        stream: Seq<u8>,
        position: int,
        little_endian: bool,
        block: Self,
    ) {
    }

    fn next(&self, stream: &[u8], little_endian: bool) -> (r: Option<Self>) {
        if self.dg_dg_next == 0 {
            None
        } else {
            let total = stream.len();
            let (_, block) = Self::read(stream, self.dg_dg_next as usize, little_endian);
            Some(block)
        }
    }
}

impl Block for Dgblock {
    open spec fn spec_is_new(&self) -> bool {
        &&& self.dg_dg_next == 0
        &&& self.dg_cg_first == 0
        &&& self.dg_data == 0
        &&& self.dg_md_comment == 0
        &&& self.dg_rec_id_size == 0
        &&& self.dg_reserved@ == Seq::new(7, |i: int| 0u8)
    }

    open spec fn spec_is_default(&self) -> bool {
        self.spec_is_new()
    }

    open spec fn spec_readable(stream: Seq<u8>, position: int, little_endian: bool) -> bool {
        dg_readable(stream, position, little_endian)
    }

    open spec fn spec_read_result(
        stream: Seq<u8>,
        position: int,
        little_endian: bool,
        end: int,
        block: Self,
    ) -> bool {
        &&& end == data_start(stream, position, little_endian) + 8
        &&& dg_fields(stream, position, little_endian, block)
    }

    open spec fn spec_has_byte_len(&self) -> bool {
        true
    }

    /// Four links and the record identifier size; the reserved bytes are not counted.
    open spec fn spec_byte_len(&self) -> nat {
        33
    }

    fn new() -> (r: Self) {
        let r = Dgblock {
            dg_dg_next: 0,
            dg_cg_first: 0,
            dg_data: 0,
            dg_md_comment: 0,
            dg_rec_id_size: 0,
            dg_reserved: [0u8, 0u8, 0u8, 0u8, 0u8, 0u8, 0u8],
        };
        assert(r.dg_reserved@ =~= Seq::new(7, |i: int| 0u8));
        r
    }

    fn default() -> (r: Self) {
        Self::new()
    }

    fn is_readable(stream: &[u8], position: usize, little_endian: bool) -> (r: bool) {
        check_links_fit(stream, position, little_endian, 4, DG_DATA_LEN)
    }

    fn read(stream: &[u8], position: usize, little_endian: bool) -> (r: (usize, Self)) {
        let (pos, header) = BlockHeader::read(stream, position, little_endian);
        let (mut pos, address) = link_extract(stream, pos, little_endian, header.link_count);
        let dg_rec_id_size = read_u8(stream, &mut pos);
        let mut dg_reserved = [0u8; 7];
        read_array(stream, &mut dg_reserved, &mut pos);
        (
            pos,
            Dgblock {
                dg_dg_next: address[0],
                dg_cg_first: address[1],
                dg_data: address[2],
                dg_md_comment: address[3],
                dg_rec_id_size,
                dg_reserved,
            },
        )
    }

    fn byte_len(&self) -> (r: usize) {
        8 + 8 + 8 + 8 + 1
    }
}

} // verus!
