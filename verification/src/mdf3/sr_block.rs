//! Sample reduction block (`SR`) of an MDF version 3 file. The time interval
//! is kept as the IEEE 754 bits stored in the file.
use crate::mdf3::mdf3_block::{check_fits, check_tag, fits, tag_at, LinkedBlock, Mdf3Block};
use crate::mdf4::block::{chain_ends, collect_chain, is_chain};
use crate::utils::{
    bytes_to_vec, lemma_byte_range_values, lemma_read_written, read_array, read_u16, read_u32,
    read_u64, u16_at, u32_at, u64_at, uint_bytes, write_u16, write_u32, write_u64,
};
use vstd::prelude::*;

verus! {

#[derive(Debug, Clone, Copy)]
pub struct Srblock {
    pub block_type: [u8; 2],
    pub block_size: u16,
    pub next: u32,
    pub data_block: u32,
    pub samples_reduced_number: u32,
    pub time_interval_length: u64,
}

/// Number of bytes of a sample reduction block.
pub const SR_LEN: usize = 24;

/// A sample reduction block can be read at `p`.
pub open spec fn sr_readable(s: Seq<u8>, p: int) -> bool {
    fits(s, p, 24) && tag_at(s, p, 0x53, 0x52)
}

/// `b` holds the sample reduction block stored at `p`.
pub open spec fn sr_fields(s: Seq<u8>, p: int, little_endian: bool, b: Srblock) -> bool {
    &&& b.block_type@ == s.subrange(p, p + 2)
    &&& b.block_size == u16_at(s, p + 2, little_endian)
    &&& b.next == u32_at(s, p + 4, little_endian)
    &&& b.data_block == u32_at(s, p + 8, little_endian)
    &&& b.samples_reduced_number == u32_at(s, p + 12, little_endian)
    &&& b.time_interval_length == u64_at(s, p + 16, little_endian)
}

impl LinkedBlock for Srblock {
    open spec fn spec_next_link(&self) -> int {
        self.next as int
    }

    open spec fn spec_link_readable(stream: Seq<u8>, position: int, little_endian: bool) -> bool {
        sr_readable(stream, position)
    }

    open spec fn spec_link_at(stream: Seq<u8>, position: int, little_endian: bool) -> int {
        u32_at(stream, position + 4, little_endian) as int
    }

    open spec fn spec_block_at(
        stream: Seq<u8>,
        position: int,
        little_endian: bool,
        block: Self,
    ) -> bool {
        sr_fields(stream, position, little_endian, block)
    }

    proof fn lemma_link_of_block(
        stream: Seq<u8>,
        position: int,
        little_endian: bool,
        block: Self,
    ) {
    }

    fn next(&self, stream: &[u8], little_endian: bool) -> (r: Option<Self>) {
        if self.next == 0 {
            None
        } else {
            let total = stream.len();
            let (_, block) = Self::read(stream, self.next as usize, little_endian);
            Some(block)
        }
    }
}

impl Mdf3Block for Srblock {
    open spec fn spec_readable(stream: Seq<u8>, position: int, little_endian: bool) -> bool {
        sr_readable(stream, position)
    }

    open spec fn spec_read_result(
        stream: Seq<u8>,
        position: int,
        little_endian: bool,
        end: int,
        block: Self,
    ) -> bool {
        end == position + 24 && sr_fields(stream, position, little_endian, block)
    }

    open spec fn spec_writable(&self) -> bool {
        true
    }

    open spec fn spec_write(&self, little_endian: bool) -> Seq<u8> {
        self.block_type@ + uint_bytes(self.block_size as nat, 2, little_endian) + uint_bytes(
            self.next as nat,
            4,
            little_endian,
        ) + uint_bytes(self.data_block as nat, 4, little_endian) + uint_bytes(
            self.samples_reduced_number as nat,
            4,
            little_endian,
        ) + uint_bytes(self.time_interval_length as nat, 8, little_endian)
    }

    fn is_readable(stream: &[u8], position: usize, little_endian: bool) -> (r: bool) {
        check_fits(stream, position, SR_LEN) && check_tag(stream, position, 0x53, 0x52)
    }

    fn read(stream: &[u8], position: usize, little_endian: bool) -> (r: (usize, Self)) {
        let mut pos = position;
        let mut block_type = [0u8; 2];
        read_array(stream, &mut block_type, &mut pos);
        let block_size = read_u16(stream, little_endian, &mut pos);
        let next = read_u32(stream, little_endian, &mut pos);
        let data_block = read_u32(stream, little_endian, &mut pos);
        let samples_reduced_number = read_u32(stream, little_endian, &mut pos);
        let time_interval_length = read_u64(stream, little_endian, &mut pos);
        (
            pos,
            Srblock {
                block_type,
                block_size,
                next,
                data_block,
                samples_reduced_number,
                time_interval_length,
            },
        )
    }

    fn write(&self, start_position: usize, little_endian: bool) -> (r: Vec<u8>) {
        let mut array = bytes_to_vec(&self.block_type);
        let mut part = write_u16(self.block_size, little_endian);
        array.append(&mut part);
        let mut part = write_u32(self.next, little_endian);
        array.append(&mut part);
        let mut part = write_u32(self.data_block, little_endian);
        array.append(&mut part);
        let mut part = write_u32(self.samples_reduced_number, little_endian);
        array.append(&mut part);
        let mut part = write_u64(self.time_interval_length, little_endian);
        array.append(&mut part);
        array
    }
}

impl Srblock {
    /// This block followed by the blocks that its chain of links reaches.
    pub fn list(&self, stream: &[u8], little_endian: bool) -> (r: Vec<Srblock>)
        requires
            exists|fuel: nat| chain_ends::<Srblock>(stream@, self.next as int, little_endian, fuel),
        ensures
            r@.len() >= 1,
            r@[0] == *self,
            is_chain::<Srblock>(stream@, self.next as int, little_endian, r@.drop_first()),
    {
        collect_chain(*self, stream, little_endian)
    }
}

/// Reading what `write` gives yields the block that was written.
pub proof fn lemma_sr_write_read(b: Srblock, little_endian: bool)
    requires
        b.block_type@ == seq![0x53u8, 0x52u8],
    ensures
        sr_readable(b.spec_write(little_endian), 0),
        forall|c: Srblock| sr_fields(b.spec_write(little_endian), 0, little_endian, c) ==> c == b,
{
    let w = b.spec_write(little_endian);
    lemma_byte_range_values();
    assert(w.len() == 24);
    assert(w.subrange(0, 2) =~= b.block_type@);
    assert(w.subrange(2, 4) =~= uint_bytes(b.block_size as nat, 2, little_endian));
    assert(w.subrange(4, 8) =~= uint_bytes(b.next as nat, 4, little_endian));
    assert(w.subrange(8, 12) =~= uint_bytes(b.data_block as nat, 4, little_endian));
    assert(w.subrange(12, 16) =~= uint_bytes(b.samples_reduced_number as nat, 4, little_endian));
    assert(w.subrange(16, 24) =~= uint_bytes(b.time_interval_length as nat, 8, little_endian));
    lemma_read_written(w, 2, b.block_size as nat, 2, little_endian);
    lemma_read_written(w, 4, b.next as nat, 4, little_endian);
    lemma_read_written(w, 8, b.data_block as nat, 4, little_endian);
    lemma_read_written(w, 12, b.samples_reduced_number as nat, 4, little_endian);
    lemma_read_written(w, 16, b.time_interval_length as nat, 8, little_endian);
    assert(w[0] == b.block_type@[0]);
    assert(w[1] == b.block_type@[1]);
    assert forall|c: Srblock| sr_fields(w, 0, little_endian, c) implies c == b by {
        assert(c.block_type =~= b.block_type);
    }
}

} // verus!
