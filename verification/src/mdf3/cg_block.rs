//! Channel group block (`CG`) of an MDF version 3 file.
use crate::mdf3::cn_block::{cn_fields, cn_readable, Cnblock};
use crate::mdf3::mdf3_block::{check_fits, check_tag, fits, tag_at, CheckedLink, LinkedBlock, Mdf3Block, UniqueLink};
use crate::mdf4::block::{chain_ends, collect_chain, is_chain};
use crate::mdf3::{tx_readable, TXBLOCK};
use crate::utils::{display_name_from, xml_parse, 
    bytes_to_vec, lemma_byte_range_values, lemma_read_written, read_array, read_u16, read_u32,
    u16_at, u32_at, uint_bytes, write_u16, write_u32,
};
use vstd::prelude::*;

verus! {

#[derive(Debug, Clone, Copy, PartialEq, Eq)]
pub struct Cgblock {
    pub block_type: [u8; 2],
    pub block_size: u16,
    pub next: u32,
    pub first: u32,
    pub comment: u32,
    pub record_id: u16,
    pub number_of_channels: u16,
    pub record_size: u16,
    pub record_number: u32,
    pub first_sample_reduction_block: u32,
}

/// Number of bytes of a channel group block.
pub const CG_LEN: usize = 30;

/// A channel group block can be read at `p`.
pub open spec fn cg_readable(s: Seq<u8>, p: int) -> bool {
    fits(s, p, 30) && tag_at(s, p, 0x43, 0x47)
}

/// `b` holds the channel group block stored at `p`.
pub open spec fn cg_fields(s: Seq<u8>, p: int, little_endian: bool, b: Cgblock) -> bool {
    &&& b.block_type@ == s.subrange(p, p + 2)
    &&& b.block_size == u16_at(s, p + 2, little_endian)
    &&& b.next == u32_at(s, p + 4, little_endian)
    &&& b.first == u32_at(s, p + 8, little_endian)
    &&& b.comment == u32_at(s, p + 12, little_endian)
    &&& b.record_id == u16_at(s, p + 16, little_endian)
    &&& b.number_of_channels == u16_at(s, p + 18, little_endian)
    &&& b.record_size == u16_at(s, p + 20, little_endian)
    &&& b.record_number == u32_at(s, p + 22, little_endian)
    &&& b.first_sample_reduction_block == u32_at(s, p + 26, little_endian)
}

impl CheckedLink for Cgblock {
    fn link_readable(stream: &[u8], position: u64, little_endian: bool) -> (r: bool) {
        position <= stream.len() as u64 && <Cgblock as Mdf3Block>::is_readable(
            stream,
            position as usize,
            little_endian,
        )
    }

    fn read_link(stream: &[u8], position: u64, little_endian: bool) -> (r: Self) {
        let total = stream.len();
        let (_, block) = <Cgblock as Mdf3Block>::read(stream, position as usize, little_endian);
        block
    }

    fn next_link(&self) -> (r: u64) {
        self.next as u64
    }
}

impl UniqueLink for Cgblock {
    proof fn lemma_block_unique(
        stream: Seq<u8>,
        position: int,
        little_endian: bool,
        a: Self,
        b: Self,
    ) {
        broadcast use vstd::array::group_array_axioms;

        assert(a.block_type =~= b.block_type);
    }
}

impl LinkedBlock for Cgblock {
    open spec fn spec_next_link(&self) -> int {
        self.next as int
    }

    open spec fn spec_link_readable(stream: Seq<u8>, position: int, little_endian: bool) -> bool {
        cg_readable(stream, position)
    }

    open spec fn spec_link_at(stream: Seq<u8>, position: int, little_endian: bool) -> int {
        u32_at(stream, position + 4, little_endian) as int
    }

    open spec fn spec_block_at(
        stream: Seq<u8>,
        position: int,
        little_endian: bool,
        block: Self,
    ) -> bool {
        cg_fields(stream, position, little_endian, block)
    }

    proof fn lemma_link_of_block(
        stream: Seq<u8>,
        position: int,
        little_endian: bool,
        block: Self,
    ) {
    }

    fn next(&self, stream: &[u8], little_endian: bool) -> (r: Option<Self>) {
        if self.next == 0 {
            None
        } else {
            let total = stream.len();
            let (_, block) = Self::read(stream, self.next as usize, little_endian);
            Some(block)
        }
    }
}

impl Mdf3Block for Cgblock {
    open spec fn spec_readable(stream: Seq<u8>, position: int, little_endian: bool) -> bool {
        cg_readable(stream, position)
    }

    open spec fn spec_read_result(
        stream: Seq<u8>,
        position: int,
        little_endian: bool,
        end: int,
        block: Self,
    ) -> bool {
        end == position + 30 && cg_fields(stream, position, little_endian, block)
    }

    open spec fn spec_writable(&self) -> bool {
        true
    }

    /// The fields in the order in which the block stores them.
    open spec fn spec_write(&self, little_endian: bool) -> Seq<u8> {
        self.block_type@ + uint_bytes(self.block_size as nat, 2, little_endian) + uint_bytes(
            self.next as nat,
            4,
            little_endian,
        ) + uint_bytes(self.first as nat, 4, little_endian) + uint_bytes(
            self.comment as nat,
            4,
            little_endian,
        ) + uint_bytes(self.record_id as nat, 2, little_endian) + uint_bytes(
            self.number_of_channels as nat,
            2,
            little_endian,
        ) + uint_bytes(self.record_size as nat, 2, little_endian) + uint_bytes(
            self.record_number as nat,
            4,
            little_endian,
        ) + uint_bytes(self.first_sample_reduction_block as nat, 4, little_endian)
    }

    fn is_readable(stream: &[u8], position: usize, little_endian: bool) -> (r: bool) {
        check_fits(stream, position, CG_LEN) && check_tag(stream, position, 0x43, 0x47)
    }

    fn read(stream: &[u8], position: usize, little_endian: bool) -> (r: (usize, Self)) {
        let mut pos = position;
        let mut block_type = [0u8; 2];
        read_array(stream, &mut block_type, &mut pos);
        let block_size = read_u16(stream, little_endian, &mut pos);
        let next = read_u32(stream, little_endian, &mut pos);
        let first = read_u32(stream, little_endian, &mut pos);
        let comment = read_u32(stream, little_endian, &mut pos);
        let record_id = read_u16(stream, little_endian, &mut pos);
        let number_of_channels = read_u16(stream, little_endian, &mut pos);
        let record_size = read_u16(stream, little_endian, &mut pos);
        let record_number = read_u32(stream, little_endian, &mut pos);
        let first_sample_reduction_block = read_u32(stream, little_endian, &mut pos);
        (
            pos,
            Cgblock {
                block_type,
                block_size,
                next,
                first,
                comment,
                record_id,
                number_of_channels,
                record_size,
                record_number,
                first_sample_reduction_block,
            },
        )
    }

    fn write(&self, start_position: usize, little_endian: bool) -> (r: Vec<u8>) {
        let mut array = bytes_to_vec(&self.block_type);
        let mut part = write_u16(self.block_size, little_endian);
        array.append(&mut part);
        let mut part = write_u32(self.next, little_endian);
        array.append(&mut part);
        let mut part = write_u32(self.first, little_endian);
        array.append(&mut part);
        let mut part = write_u32(self.comment, little_endian);
        array.append(&mut part);
        let mut part = write_u16(self.record_id, little_endian);
        array.append(&mut part);
        let mut part = write_u16(self.number_of_channels, little_endian);
        array.append(&mut part);
        let mut part = write_u16(self.record_size, little_endian);
        array.append(&mut part);
        let mut part = write_u32(self.record_number, little_endian);
        array.append(&mut part);
        let mut part = write_u32(self.first_sample_reduction_block, little_endian);
        array.append(&mut part);
        array
    }
}

impl Cgblock {
    /// The first channel of this group; there must be one.
    pub fn first_channel(&self, stream: &[u8], little_endian: bool) -> (r: Cnblock)
        requires
            self.first != 0,
            cn_readable(stream@, self.first as int, little_endian),
        ensures
            cn_fields(stream@, self.first as int, little_endian, r),
    {
        let total = stream.len();
        let (_, cn) = Cnblock::read(stream, self.first as usize, little_endian);
        cn
    }

    /// The display name in the XML text of the group's comment block.
    pub fn comment(&self, stream: &[u8], little_endian: bool) -> (r: String)
        requires
            tx_readable(stream@, self.comment as int, little_endian),
        ensures
            exists|tx: TXBLOCK|
                crate::mdf3::tx_fields(stream@, self.comment as int, little_endian, tx)
                    && r@ == display_name_from(xml_parse(tx.text@), false, Seq::empty()),
    {
        let total = stream.len();
        let (tx, _) = TXBLOCK::read(stream, self.comment as usize, little_endian);
        let ghost t = tx;
        let name = tx.name();
        assert(crate::mdf3::tx_fields(stream@, self.comment as int, little_endian, t));
        name
    }

    /// Writes nothing: channel groups are serialised through the block
    /// trait.
    pub fn write() {
    }

    /// The channels of this group, in the order of their chain.
    pub fn channels(self, stream: &[u8], little_endian: bool) -> (r: Vec<Cnblock>)
        requires
            self.first != 0,
            exists|fuel: nat| chain_ends::<Cnblock>(stream@, self.first as int, little_endian, fuel),
        ensures
            is_chain::<Cnblock>(stream@, self.first as int, little_endian, r@),
    {
        let ghost fuel = choose|fuel: nat|
            chain_ends::<Cnblock>(stream@, self.first as int, little_endian, fuel);
        let first_channel = self.first_channel(stream, little_endian);
        assert(chain_ends::<Cnblock>(
            stream@,
            first_channel.spec_next_link(),
            little_endian,
            (fuel - 1) as nat,
        ));
        let all = collect_chain(first_channel, stream, little_endian);
        assert(all@ =~= seq![all@[0]] + all@.drop_first());
        all
    }

    /// Number of bytes of all records of this group.
    pub fn data_length(&self) -> (r: usize)
        requires
            self.record_number * self.record_size <= usize::MAX,
        ensures
            r == self.record_number * self.record_size,
    {
        self.record_number as usize * self.record_size as usize
    }

    pub fn record_number(&self) -> (r: usize)
        ensures
            r == self.record_number,
    {
        self.record_number as usize
    }

    pub fn record_size(&self) -> (r: usize)
        ensures
            r == self.record_size,
    {
        self.record_size as usize
    }

    /// This group followed by the groups that its chain of links reaches.
    pub fn list(&self, stream: &[u8], little_endian: bool) -> (r: Vec<Cgblock>)
        requires
            exists|fuel: nat| chain_ends::<Cgblock>(stream@, self.next as int, little_endian, fuel),
        ensures
            r@.len() >= 1,
            r@[0] == *self,
            is_chain::<Cgblock>(stream@, self.next as int, little_endian, r@.drop_first()),
    {
        collect_chain(*self, stream, little_endian)
    }
}

/// Reading what `write` gives yields the block that was written.
pub proof fn lemma_cg_write_read(b: Cgblock, little_endian: bool)
    requires
        b.block_type@ == seq![0x43u8, 0x47u8],
    ensures
        cg_readable(b.spec_write(little_endian), 0),
        forall|c: Cgblock| cg_fields(b.spec_write(little_endian), 0, little_endian, c) ==> c == b,
{
    let w = b.spec_write(little_endian);
    lemma_byte_range_values();
    assert(w.len() == 30);
    assert(w.subrange(0, 2) =~= b.block_type@);
    assert(w.subrange(2, 4) =~= uint_bytes(b.block_size as nat, 2, little_endian));
    assert(w.subrange(4, 8) =~= uint_bytes(b.next as nat, 4, little_endian));
    assert(w.subrange(8, 12) =~= uint_bytes(b.first as nat, 4, little_endian));
    assert(w.subrange(12, 16) =~= uint_bytes(b.comment as nat, 4, little_endian));
    assert(w.subrange(16, 18) =~= uint_bytes(b.record_id as nat, 2, little_endian));
    assert(w.subrange(18, 20) =~= uint_bytes(b.number_of_channels as nat, 2, little_endian));
    assert(w.subrange(20, 22) =~= uint_bytes(b.record_size as nat, 2, little_endian));
    assert(w.subrange(22, 26) =~= uint_bytes(b.record_number as nat, 4, little_endian));
    assert(w.subrange(26, 30) =~= uint_bytes(
        b.first_sample_reduction_block as nat,
        4,
        little_endian,
    ));
    lemma_read_written(w, 2, b.block_size as nat, 2, little_endian);
    lemma_read_written(w, 4, b.next as nat, 4, little_endian);
    lemma_read_written(w, 8, b.first as nat, 4, little_endian);
    lemma_read_written(w, 12, b.comment as nat, 4, little_endian);
    lemma_read_written(w, 16, b.record_id as nat, 2, little_endian);
    lemma_read_written(w, 18, b.number_of_channels as nat, 2, little_endian);
    lemma_read_written(w, 20, b.record_size as nat, 2, little_endian);
    lemma_read_written(w, 22, b.record_number as nat, 4, little_endian);
    lemma_read_written(w, 26, b.first_sample_reduction_block as nat, 4, little_endian);
    assert(w[0] == b.block_type@[0]);
    assert(w[1] == b.block_type@[1]);
    assert forall|c: Cgblock| cg_fields(w, 0, little_endian, c) implies c == b by {
        assert(c.block_type =~= b.block_type);
    }
}

} // verus!
