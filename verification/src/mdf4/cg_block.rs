//! Channel group block (`##CG`): one kind of record of a data group.
use crate::mdf4::block::{collect_chain, chain_ends, is_chain, Block, CheckedLink, LinkedBlock, UniqueLink};
use crate::mdf4::cn_block::{cn_fields, cn_readable, same_channel, Cnblock};
use crate::mdf4::block_header::{
    check_id, check_links_fit, data_start, header_fields, id_at, link_count_at, links_fit,
    BlockHeader, HEADER_LEN,
};
use crate::mdf4::link_extract;
use crate::mdf4::tx_block::{tx_payload, Txblock};
use crate::mdf4::utils::until_nul;
use crate::utils::{read_array, read_u16, read_u32, read_u64, u16_at, u32_at, u64_at};
use vstd::prelude::*;
use vstd::utf8::encode_utf8;

verus! {

#[derive(Debug, Clone, Copy)]
pub struct Cgblock {
    pub header: BlockHeader,
    pub cg_cg_next: u64,
    pub cg_cn_first: u64,
    pub cg_tx_acq_name: u64,
    pub cg_si_acq_source: u64,
    pub cg_sr_first: u64,
    pub cg_md_comment: u64,
    pub cg_record_id: u64,
    pub cg_cycle_count: u64,
    pub cg_flags: u16,
    pub cg_path_separator: u16,
    pub cg_reserved: [u8; 4],
    pub cg_data_bytes: u32,
    pub cg_inval_bytes: u32,
}

/// Number of bytes after the links of a channel group block.
pub const CG_DATA_LEN: usize = 32;

/// `b` holds the channel group block stored at `p`.
pub open spec fn cg_fields(s: Seq<u8>, p: int, little_endian: bool, b: Cgblock) -> bool {
    let q = data_start(s, p, little_endian);
    &&& header_fields(s, p, little_endian, b.header)
    &&& b.cg_cg_next == u64_at(s, p + 24, little_endian)
    &&& b.cg_cn_first == u64_at(s, p + 32, little_endian)
    &&& b.cg_tx_acq_name == u64_at(s, p + 40, little_endian)
    &&& b.cg_si_acq_source == u64_at(s, p + 48, little_endian)
    &&& b.cg_sr_first == u64_at(s, p + 56, little_endian)
    &&& b.cg_md_comment == u64_at(s, p + 64, little_endian)
    &&& b.cg_record_id == u64_at(s, q, little_endian)
    &&& b.cg_cycle_count == u64_at(s, q + 8, little_endian)
    &&& b.cg_flags == u16_at(s, q + 16, little_endian)
    &&& b.cg_path_separator == u16_at(s, q + 18, little_endian)
    &&& b.cg_reserved@ == s.subrange(q + 20, q + 24)
    &&& b.cg_data_bytes == u32_at(s, q + 24, little_endian)
    &&& b.cg_inval_bytes == u32_at(s, q + 28, little_endian)
}

/// A channel group block can be read at `p`.
pub open spec fn cg_readable(s: Seq<u8>, p: int, little_endian: bool) -> bool {
    links_fit(s, p, little_endian, 6, 32) && id_at(s, p, 0x43, 0x47)
}

impl Cgblock {
    /// The text of the comment block, or empty text where the group has none.
    pub fn comment(&self, stream: &[u8], little_endian: bool) -> (r: String)
        requires
            self.cg_md_comment != 0 ==> Txblock::spec_readable(
                stream@,
                self.cg_md_comment as int,
                little_endian,
            ),
        ensures
            self.cg_md_comment == 0 ==> r@ == Seq::<char>::empty(),
            self.cg_md_comment != 0 ==> encode_utf8(r@) == until_nul(
                tx_payload(stream@, self.cg_md_comment as int, little_endian),
            ),
    {
        if self.cg_md_comment == 0 {
            return String::new();
        }
        let total = stream.len();
        let (_, tx_block) = Txblock::read(stream, self.cg_md_comment as usize, little_endian);
        tx_block.text()
    }

    /// The first channel of this group.
    pub fn first(&self, stream: &[u8], little_endian: bool) -> (r: Cnblock)
        requires
            cn_readable(stream@, self.cg_cn_first as int, little_endian),
        ensures
            cn_fields(stream@, self.cg_cn_first as int, little_endian, r),
    {
        let total = stream.len();
        let (_, block) = Cnblock::read(stream, self.cg_cn_first as usize, little_endian);
        block
    }

    /// The channels of this group: its first channel and those that the
    /// chain of links from it reaches.
    pub fn channels(self, stream: &[u8], little_endian: bool) -> (r: Vec<Cnblock>)
        requires
            cn_readable(stream@, self.cg_cn_first as int, little_endian),
            exists|fuel: nat|
                chain_ends::<Cnblock>(
                    stream@,
                    Cnblock::spec_link_at(stream@, self.cg_cn_first as int, little_endian),
                    little_endian,
                    fuel,
                ),
        ensures
            r@.len() >= 1,
            cn_fields(stream@, self.cg_cn_first as int, little_endian, r@[0]),
            is_chain::<Cnblock>(
                stream@,
                Cnblock::spec_link_at(stream@, self.cg_cn_first as int, little_endian),
                little_endian,
                r@.drop_first(),
            ),
    {
        let first = self.first(stream, little_endian);
        let all = first.list(stream, little_endian);
        proof {
            let f = all@[0];
            assert(same_channel(f, first));
            assert(f.cn_at_reference@ =~= first.cn_at_reference@);
        }
        all
    }

    /// This group followed by the groups that its chain of links reaches.
    pub fn list(&self, stream: &[u8], little_endian: bool) -> (r: Vec<Cgblock>)
        requires
            exists|fuel: nat|
                chain_ends::<Cgblock>(stream@, self.cg_cg_next as int, little_endian, fuel),
        ensures
            r@.len() >= 1,
            r@[0] == *self,
            is_chain::<Cgblock>(stream@, self.cg_cg_next as int, little_endian, r@.drop_first()),
    {
        collect_chain(*self, stream, little_endian)
    }
}

impl CheckedLink for Cgblock {
    fn link_readable(stream: &[u8], position: u64, little_endian: bool) -> (r: bool) {
        position <= stream.len() as u64 && <Cgblock as Block>::is_readable(
            stream,
            position as usize,
            little_endian,
        )
    }

    fn read_link(stream: &[u8], position: u64, little_endian: bool) -> (r: Self) {
        let total = stream.len();
        let (_, block) = <Cgblock as Block>::read(stream, position as usize, little_endian);
        block
    }

    fn next_link(&self) -> (r: u64) {
        self.cg_cg_next
    }
}

impl UniqueLink for Cgblock {
    proof fn lemma_block_unique(
        stream: Seq<u8>,
        position: int,
        little_endian: bool,
        a: Self,
        b: Self,
    ) {
        broadcast use vstd::array::group_array_axioms;

        assert(a.header.id =~= b.header.id);
        assert(a.header.reserved0 =~= b.header.reserved0);
        assert(a.cg_reserved =~= b.cg_reserved);
    }
}

impl LinkedBlock for Cgblock {
    open spec fn spec_next_link(&self) -> int {
        self.cg_cg_next as int
    }

    open spec fn spec_link_readable(stream: Seq<u8>, position: int, little_endian: bool) -> bool {
        cg_readable(stream, position, little_endian)
    }

    open spec fn spec_link_at(stream: Seq<u8>, position: int, little_endian: bool) -> int {
        u64_at(stream, position + 24, little_endian) as int
    }

    open spec fn spec_block_at(
        stream: Seq<u8>,
        position: int,
        little_endian: bool,
        block: Self,
    ) -> bool {
        cg_fields(stream, position, little_endian, block)
    }

    proof fn lemma_link_of_block(
        stream: Seq<u8>,
        position: int,
        little_endian: bool,
        block: Self,
    ) {
    }

    fn next(&self, stream: &[u8], little_endian: bool) -> (r: Option<Self>) {
        if self.cg_cg_next == 0 {
            None
        } else {
            let total = stream.len();
            let (_, block) = Self::read(stream, self.cg_cg_next as usize, little_endian);
            Some(block)
        }
    }
}

impl Block for Cgblock {
    open spec fn spec_is_new(&self) -> bool {
        &&& self.header.id@ == seq![0x23u8, 0x23u8, 0x43u8, 0x47u8]
        &&& self.header.reserved0@ == seq![0u8, 0u8, 0u8, 0u8]
        &&& self.header.length == 50
        &&& self.header.link_count == 0
        &&& self.cg_cg_next == 0
        &&& self.cg_cn_first == 0
        &&& self.cg_tx_acq_name == 0
        &&& self.cg_si_acq_source == 0
        &&& self.cg_sr_first == 0
        &&& self.cg_md_comment == 0
        &&& self.cg_record_id == 0
        &&& self.cg_cycle_count == 0
        &&& self.cg_flags == 0
        &&& self.cg_path_separator == 0
        &&& self.cg_reserved@ == seq![0u8, 0u8, 0u8, 0u8]
        &&& self.cg_data_bytes == 0
        &&& self.cg_inval_bytes == 0
    }

    open spec fn spec_is_default(&self) -> bool {
        self.spec_is_new()
    }

    open spec fn spec_readable(stream: Seq<u8>, position: int, little_endian: bool) -> bool {
        cg_readable(stream, position, little_endian)
    }

    open spec fn spec_read_result(
        stream: Seq<u8>,
        position: int,
        little_endian: bool,
        end: int,
        block: Self,
    ) -> bool {
        &&& end == data_start(stream, position, little_endian) + 32
        &&& cg_fields(stream, position, little_endian, block)
    }

    open spec fn spec_has_byte_len(&self) -> bool {
        true
    }

    open spec fn spec_byte_len(&self) -> nat {
        104
    }

    fn new() -> (r: Self) {
        let header = BlockHeader::with_id([0x23u8, 0x23u8, 0x43u8, 0x47u8], 50, 0);
        assert(header.id@ =~= seq![0x23u8, 0x23u8, 0x43u8, 0x47u8]);
        let r = Cgblock {
            header,
            cg_cg_next: 0,
            cg_cn_first: 0,
            cg_tx_acq_name: 0,
            cg_si_acq_source: 0,
            cg_sr_first: 0,
            cg_md_comment: 0,
            cg_record_id: 0,
            cg_cycle_count: 0,
            cg_flags: 0,
            cg_path_separator: 0,
            cg_reserved: [0u8, 0u8, 0u8, 0u8],
            cg_data_bytes: 0,
            cg_inval_bytes: 0,
        };
        assert(r.cg_reserved@ =~= seq![0u8, 0u8, 0u8, 0u8]);
        r
    }

    fn default() -> (r: Self) {
        Self::new()
    }

    fn is_readable(stream: &[u8], position: usize, little_endian: bool) -> (r: bool) {
        check_links_fit(stream, position, little_endian, 6, CG_DATA_LEN) && check_id(
            stream,
            position,
            0x43,
            0x47,
        )
    }

    fn read(stream: &[u8], position: usize, little_endian: bool) -> (r: (usize, Self)) {
        let (pos, header) = BlockHeader::read(stream, position, little_endian);
        let (mut pos, address) = link_extract(stream, pos, little_endian, header.link_count);
        let cg_cg_next = address[0];
        let cg_cn_first = address[1];
        let cg_tx_acq_name = address[2];
        let cg_si_acq_source = address[3];
        let cg_sr_first = address[4];
        let cg_md_comment = address[5];
        let cg_record_id = read_u64(stream, little_endian, &mut pos);
        let cg_cycle_count = read_u64(stream, little_endian, &mut pos);
        let cg_flags = read_u16(stream, little_endian, &mut pos);
        let cg_path_separator = read_u16(stream, little_endian, &mut pos);
        let mut cg_reserved = [0u8; 4];
        read_array(stream, &mut cg_reserved, &mut pos);
        let cg_data_bytes = read_u32(stream, little_endian, &mut pos);
        let cg_inval_bytes = read_u32(stream, little_endian, &mut pos);
        (
            pos,
            Cgblock {
                header,
                cg_cg_next,
                cg_cn_first,
                cg_tx_acq_name,
                cg_si_acq_source,
                cg_sr_first,
                cg_md_comment,
                cg_record_id,
                cg_cycle_count,
                cg_flags,
                cg_path_separator,
                cg_reserved,
                cg_data_bytes,
                cg_inval_bytes,
            },
        )
    }

    fn byte_len(&self) -> (r: usize) {
        HEADER_LEN + 6 * 8 + 8 + 8 + 2 + 2 + 4 + 4 + 4
    }
}

/// A channel group block with exactly its six links takes, as `byte_len`
/// says, as many bytes as reading it consumes.
pub proof fn lemma_cg_byte_len_is_read_len(
    stream: Seq<u8>,
    position: int,
    little_endian: bool,
    end: int,
    block: Cgblock,
)
    requires
        Cgblock::spec_read_result(stream, position, little_endian, end, block),
        link_count_at(stream, position, little_endian) == 6,
    ensures
        end - position == block.spec_byte_len(),
{
}

} // verus!
