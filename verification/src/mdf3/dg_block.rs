//! Data group block (`DG`) of an MDF version 3 file.
use crate::mdf3::cg_block::{cg_fields, cg_readable, Cgblock};
use crate::mdf3::mdf3_block::{check_fits, check_tag, fits, tag_at, CheckedLink, LinkedBlock, Mdf3Block, UniqueLink};
use crate::mdf4::block::{chain_ends, collect_chain, is_chain};
use crate::utils::{
    bytes_to_vec, lemma_byte_range_values, lemma_read_written, read_array, read_u16, read_u32,
    u16_at, u32_at, uint_bytes, write_u16, write_u32,
};
use vstd::prelude::*;

verus! {

#[derive(Debug, Clone, Copy, PartialEq, Eq)]
pub struct Dgblock {
    pub block_type: [u8; 2],
    pub block_size: u16,
    pub next: u32,
    pub first: u32,
    pub trigger_block: u32,
    pub data_block: u32,
    pub group_number: u16,
    pub id_number: u16,
    pub reserved: u32,
}

/// Number of bytes of a data group block.
pub const DG_LEN: usize = 28;

/// A data group block can be read at `p`.
pub open spec fn dg_readable(s: Seq<u8>, p: int) -> bool {
    fits(s, p, 28) && tag_at(s, p, 0x44, 0x47)
}

/// `b` holds the data group block stored at `p`.
pub open spec fn dg_fields(s: Seq<u8>, p: int, little_endian: bool, b: Dgblock) -> bool {
    &&& b.block_type@ == s.subrange(p, p + 2)
    &&& b.block_size == u16_at(s, p + 2, little_endian)
    &&& b.next == u32_at(s, p + 4, little_endian)
    &&& b.first == u32_at(s, p + 8, little_endian)
    &&& b.trigger_block == u32_at(s, p + 12, little_endian)
    &&& b.data_block == u32_at(s, p + 16, little_endian)
    &&& b.group_number == u16_at(s, p + 20, little_endian)
    &&& b.id_number == u16_at(s, p + 22, little_endian)
    &&& b.reserved == u32_at(s, p + 24, little_endian)
}

impl CheckedLink for Dgblock {
    fn link_readable(stream: &[u8], position: u64, little_endian: bool) -> (r: bool) {
        position <= stream.len() as u64 && <Dgblock as Mdf3Block>::is_readable(
            stream,
            position as usize,
            little_endian,
        )
    }

    fn read_link(stream: &[u8], position: u64, little_endian: bool) -> (r: Self) {
        let total = stream.len();
        let (_, block) = <Dgblock as Mdf3Block>::read(stream, position as usize, little_endian);
        block
    }

    fn next_link(&self) -> (r: u64) {
        self.next as u64
    }
}

impl UniqueLink for Dgblock {
    proof fn lemma_block_unique(
        stream: Seq<u8>,
        position: int,
        little_endian: bool,
        a: Self,
        b: Self,
    ) {
        broadcast use vstd::array::group_array_axioms;

        assert(a.block_type =~= b.block_type);
    }
}

impl LinkedBlock for Dgblock {
    open spec fn spec_next_link(&self) -> int {
        self.next as int
    }

    open spec fn spec_link_readable(stream: Seq<u8>, position: int, little_endian: bool) -> bool {
        dg_readable(stream, position)
    }

    open spec fn spec_link_at(stream: Seq<u8>, position: int, little_endian: bool) -> int {
        u32_at(stream, position + 4, little_endian) as int
    }

    open spec fn spec_block_at(
        stream: Seq<u8>,
        position: int,
        little_endian: bool,
        block: Self,
    ) -> bool {
        dg_fields(stream, position, little_endian, block)
    }

    proof fn lemma_link_of_block(
        stream: Seq<u8>,
        position: int,
        little_endian: bool,
        block: Self,
    ) {
    }

    fn next(&self, stream: &[u8], little_endian: bool) -> (r: Option<Self>) {
        if self.next == 0 {
            None
        } else {
            let total = stream.len();
            let (_, block) = Self::read(stream, self.next as usize, little_endian);
            Some(block)
        }
    }
}

impl Mdf3Block for Dgblock {
    open spec fn spec_readable(stream: Seq<u8>, position: int, little_endian: bool) -> bool {
        dg_readable(stream, position)
    }

    open spec fn spec_read_result(
        stream: Seq<u8>,
        position: int,
        little_endian: bool,
        end: int,
        block: Self,
    ) -> bool {
        end == position + 28 && dg_fields(stream, position, little_endian, block)
    }

    open spec fn spec_writable(&self) -> bool {
        true
    }

    /// The fields in the order in which the block stores them.
    open spec fn spec_write(&self, little_endian: bool) -> Seq<u8> {
        self.block_type@ + uint_bytes(self.block_size as nat, 2, little_endian) + uint_bytes(
            self.next as nat,
            4,
            little_endian,
        ) + uint_bytes(self.first as nat, 4, little_endian) + uint_bytes(
            self.trigger_block as nat,
            4,
            little_endian,
        ) + uint_bytes(self.data_block as nat, 4, little_endian) + uint_bytes(
            self.group_number as nat,
            2,
            little_endian,
        ) + uint_bytes(self.id_number as nat, 2, little_endian) + uint_bytes(
            self.reserved as nat,
            4,
            little_endian,
        )
    }

    fn is_readable(stream: &[u8], position: usize, little_endian: bool) -> (r: bool) {
        check_fits(stream, position, DG_LEN) && check_tag(stream, position, 0x44, 0x47)
    }

    fn read(stream: &[u8], position: usize, little_endian: bool) -> (r: (usize, Self)) {
        let mut pos = position;
        let mut block_type = [0u8; 2];
        read_array(stream, &mut block_type, &mut pos);
        let block_size = read_u16(stream, little_endian, &mut pos);
        let next = read_u32(stream, little_endian, &mut pos);
        let first = read_u32(stream, little_endian, &mut pos);
        let trigger_block = read_u32(stream, little_endian, &mut pos);
        let data_block = read_u32(stream, little_endian, &mut pos);
        let group_number = read_u16(stream, little_endian, &mut pos);
        let id_number = read_u16(stream, little_endian, &mut pos);
        let reserved = read_u32(stream, little_endian, &mut pos);
        (
            pos,
            Dgblock {
                block_type,
                block_size,
                next,
                first,
                trigger_block,
                data_block,
                group_number,
                id_number,
                reserved,
            },
        )
    }

    fn write(&self, start_position: usize, little_endian: bool) -> (r: Vec<u8>) {
        let mut array = bytes_to_vec(&self.block_type);
        let mut part = write_u16(self.block_size, little_endian);
        array.append(&mut part);
        let mut part = write_u32(self.next, little_endian);
        array.append(&mut part);
        let mut part = write_u32(self.first, little_endian);
        array.append(&mut part);
        let mut part = write_u32(self.trigger_block, little_endian);
        array.append(&mut part);
        let mut part = write_u32(self.data_block, little_endian);
        array.append(&mut part);
        let mut part = write_u16(self.group_number, little_endian);
        array.append(&mut part);
        let mut part = write_u16(self.id_number, little_endian);
        array.append(&mut part);
        let mut part = write_u32(self.reserved, little_endian);
        array.append(&mut part);
        array
    }
}

impl Dgblock {
    /// Where the records of this data group start in the file.
    pub fn data_location(&self) -> (r: usize)
        ensures
            r == self.data_block,
    {
        self.data_block as usize
    }

    /// The first channel group of this data group; there must be one.
    pub fn first_channel_group(&self, stream: &[u8], little_endian: bool) -> (r: Cgblock)
        requires
            self.first != 0,
            cg_readable(stream@, self.first as int),
        ensures
            cg_fields(stream@, self.first as int, little_endian, r),
    {
        let total = stream.len();
        let (_, cg) = Cgblock::read(stream, self.first as usize, little_endian);
        cg
    }

    /// The data groups of the chain that starts at `position` (none when it is 0).
    pub fn read_all(stream: &[u8], little_endian: bool, position: usize) -> (r: Vec<Self>)
        requires
            exists|fuel: nat| chain_ends::<Dgblock>(stream@, position as int, little_endian, fuel),
        ensures
            is_chain::<Dgblock>(stream@, position as int, little_endian, r@),
    {
        if position == 0 {
            let none: Vec<Self> = Vec::new();
            assert(is_chain::<Dgblock>(stream@, 0, little_endian, none@));
            return none;
        }
        let ghost fuel = choose|fuel: nat|
            chain_ends::<Dgblock>(stream@, position as int, little_endian, fuel);
        let (_, first) = Dgblock::read(stream, position, little_endian);
        assert(chain_ends::<Dgblock>(
            stream@,
            first.spec_next_link(),
            little_endian,
            (fuel - 1) as nat,
        ));
        let all = collect_chain(first, stream, little_endian);
        assert(all@ =~= seq![all@[0]] + all@.drop_first());
        all
    }

    /// The channel groups of this data group, in the order of their chain.
    pub fn read_channel_groups(self, stream: &[u8], little_endian: bool) -> (r: Vec<Cgblock>)
        requires
            self.first != 0,
            exists|fuel: nat| chain_ends::<Cgblock>(stream@, self.first as int, little_endian, fuel),
        ensures
            is_chain::<Cgblock>(stream@, self.first as int, little_endian, r@),
    {
        let ghost fuel = choose|fuel: nat|
            chain_ends::<Cgblock>(stream@, self.first as int, little_endian, fuel);
        let first_group = self.first_channel_group(stream, little_endian);
        assert(chain_ends::<Cgblock>(
            stream@,
            first_group.next as int,
            little_endian,
            (fuel - 1) as nat,
        ));
        let all = first_group.list(stream, little_endian);
        assert(all@ =~= seq![all@[0]] + all@.drop_first());
        all
    }

    /// This group followed by the groups that its chain of links reaches.
    pub fn list(&self, stream: &[u8], little_endian: bool) -> (r: Vec<Dgblock>)
        requires
            exists|fuel: nat| chain_ends::<Dgblock>(stream@, self.next as int, little_endian, fuel),
        ensures
            r@.len() >= 1,
            r@[0] == *self,
            is_chain::<Dgblock>(stream@, self.next as int, little_endian, r@.drop_first()),
    {
        collect_chain(*self, stream, little_endian)
    }
}

/// Reading what `write` gives yields the block that was written.
pub proof fn lemma_dg_write_read(b: Dgblock, little_endian: bool)
    requires
        b.block_type@ == seq![0x44u8, 0x47u8],
    ensures
        dg_readable(b.spec_write(little_endian), 0),
        forall|c: Dgblock| dg_fields(b.spec_write(little_endian), 0, little_endian, c) ==> c == b,
{
    let w = b.spec_write(little_endian);
    lemma_byte_range_values();
    assert(w.len() == 28);
    assert(w.subrange(0, 2) =~= b.block_type@);
    assert(w.subrange(2, 4) =~= uint_bytes(b.block_size as nat, 2, little_endian));
    assert(w.subrange(4, 8) =~= uint_bytes(b.next as nat, 4, little_endian));
    assert(w.subrange(8, 12) =~= uint_bytes(b.first as nat, 4, little_endian));
    assert(w.subrange(12, 16) =~= uint_bytes(b.trigger_block as nat, 4, little_endian));
    assert(w.subrange(16, 20) =~= uint_bytes(b.data_block as nat, 4, little_endian));
    assert(w.subrange(20, 22) =~= uint_bytes(b.group_number as nat, 2, little_endian));
    assert(w.subrange(22, 24) =~= uint_bytes(b.id_number as nat, 2, little_endian));
    assert(w.subrange(24, 28) =~= uint_bytes(b.reserved as nat, 4, little_endian));
    lemma_read_written(w, 2, b.block_size as nat, 2, little_endian);
    lemma_read_written(w, 4, b.next as nat, 4, little_endian);
    lemma_read_written(w, 8, b.first as nat, 4, little_endian);
    lemma_read_written(w, 12, b.trigger_block as nat, 4, little_endian);
    lemma_read_written(w, 16, b.data_block as nat, 4, little_endian);
    lemma_read_written(w, 20, b.group_number as nat, 2, little_endian);
    lemma_read_written(w, 22, b.id_number as nat, 2, little_endian);
    lemma_read_written(w, 24, b.reserved as nat, 4, little_endian);
    assert(w[0] == b.block_type@[0]);
    assert(w[1] == b.block_type@[1]);
    assert forall|c: Dgblock| dg_fields(w, 0, little_endian, c) implies c == b by {
        assert(c.block_type =~= b.block_type);
    }
}

} // verus!
