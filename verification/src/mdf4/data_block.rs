//! The kinds of block that hold a data group's records.
use crate::mdf4::block::{Block, DataBlock};
use crate::mdf4::block_header::{check_id, id_at};
use crate::mdf4::dl_block::{dl_fields, Dlblock};
use crate::mdf4::dt_block::{dt_fields, Dtblock};
use crate::mdf4::dz_block::{dz_fields, Dzblock};
use vstd::prelude::*;

verus! {

#[derive(Debug, Clone)]
pub enum DataBlockType {
    Block(Dtblock),
    BlockComp(Dzblock),
    List(Dlblock),
}

impl DataBlockType {
    /// The records can be had: a data block's are its bytes, a zipped block's
    /// its inflated bytes; a data list has none of its own.
    pub open spec fn spec_has_data(&self) -> bool {
        match self {
            DataBlockType::Block(b) => b.spec_has_data(),
            DataBlockType::BlockComp(b) => b.spec_has_data(),
            DataBlockType::List(_) => false,
        }
    }

    /// The records of the block.
    pub open spec fn spec_data(&self) -> Seq<u8> {
        match self {
            DataBlockType::Block(b) => b.spec_data(),
            DataBlockType::BlockComp(b) => b.spec_data(),
            DataBlockType::List(_) => Seq::empty(),
        }
    }

    pub fn data_array(&self, stream: &[u8], little_endian: bool) -> (r: Vec<u8>)
        requires
            self.spec_has_data(),
        ensures
            r@ == self.spec_data(),
    {
        match self {
            DataBlockType::Block(block) => block.data_array(stream, little_endian),
            DataBlockType::BlockComp(block) => block.data_array(stream, little_endian),
            DataBlockType::List(_) => Vec::new(),
        }
    }

    /// The block at `position` is a data block, a zipped data block or a data
    /// list, and can be read as such.
    pub open spec fn spec_readable(stream: Seq<u8>, position: int, little_endian: bool) -> bool {
        ||| Dtblock::spec_readable(stream, position, little_endian)
        ||| Dzblock::spec_readable(stream, position, little_endian)
        ||| Dlblock::spec_readable(stream, position, little_endian)
    }

    /// `r` is the block at `position`, read as its identifier says.
    pub open spec fn spec_read_result(stream: Seq<u8>, position: int, little_endian: bool, r: Self) -> bool {
        match r {
            DataBlockType::Block(b) => id_at(stream, position, 0x44, 0x54) && dt_fields(
                stream,
                position,
                little_endian,
                b,
            ),
            DataBlockType::BlockComp(b) => id_at(stream, position, 0x44, 0x5A) && dz_fields(
                stream,
                position,
                little_endian,
                b,
            ),
            DataBlockType::List(b) => id_at(stream, position, 0x44, 0x4C) && dl_fields(
                stream,
                position,
                little_endian,
                b,
            ),
        }
    }

    /// Whether the block at `position` can be read as one of the three kinds.
    pub fn is_readable(stream: &[u8], position: usize, little_endian: bool) -> (r: bool)
        ensures
            r == Self::spec_readable(stream@, position as int, little_endian),
    {
        Dtblock::is_readable(stream, position, little_endian) || Dzblock::is_readable(
            stream,
            position,
            little_endian,
        ) || Dlblock::is_readable(stream, position, little_endian)
    }

    /// Reads the block at `position` as its identifier says.
    pub fn read(stream: &[u8], position: usize, little_endian: bool) -> (r: Self)
        requires
            Self::spec_readable(stream@, position as int, little_endian),
        ensures
            Self::spec_read_result(stream@, position as int, little_endian, r),
    {
        if check_id(stream, position, 0x44, 0x54) {
            let (end, block) = Dtblock::read(stream, position, little_endian);
            let r = DataBlockType::Block(block);
            assert(Self::spec_read_result(stream@, position as int, little_endian, r));
            r
        } else if check_id(stream, position, 0x44, 0x5A) {
            let (end, block) = Dzblock::read(stream, position, little_endian);
            let r = DataBlockType::BlockComp(block);
            assert(Self::spec_read_result(stream@, position as int, little_endian, r));
            r
        } else {
            let (end, block) = Dlblock::read(stream, position, little_endian);
            let r = DataBlockType::List(block);
            assert(Self::spec_read_result(stream@, position as int, little_endian, r));
            r
        }
    }
}

} // verus!
