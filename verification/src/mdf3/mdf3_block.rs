//! What the blocks of an MDF version 3 file offer: reading at a position and
//! writing back in a byte order.
use vstd::prelude::*;

pub use crate::mdf4::block::{CheckedLink, LinkedBlock, UniqueLink};

verus! {

/// `n` bytes from `p` lie inside `s`.
pub open spec fn fits(s: Seq<u8>, p: int, n: int) -> bool {
    0 <= p && p + n <= s.len()
}

/// The block at `p` starts with the two type bytes `a` and `b`.
pub open spec fn tag_at(s: Seq<u8>, p: int, a: u8, b: u8) -> bool {
    s[p] == a && s[p + 1] == b
}

/// Whether `n` bytes from `position` lie inside `stream`.
pub fn check_fits(stream: &[u8], position: usize, n: usize) -> (r: bool)
    ensures
        r == fits(stream@, position as int, n as int),
{
    position <= stream.len() && stream.len() - position >= n
}

/// Whether the block at `position` starts with the type bytes `a` and `b`.
pub fn check_tag(stream: &[u8], position: usize, a: u8, b: u8) -> (r: bool)
    ensures
        r == (fits(stream@, position as int, 2) && tag_at(stream@, position as int, a, b)),
{
    check_fits(stream, position, 2) && stream[position] == a && stream[position + 1] == b
}


/// A block of an MDF version 3 file.
pub trait Mdf3Block: Sized {
    /// The bytes at `position` hold a block of this kind that `read` accepts.
    spec fn spec_readable(stream: Seq<u8>, position: int, little_endian: bool) -> bool;

    /// Reading at `position` gives `block` and stops at `end`.
    spec fn spec_read_result(
        stream: Seq<u8>,
        position: int,
        little_endian: bool,
        end: int,
        block: Self,
    ) -> bool;

    /// `write` is defined for this block.
    spec fn spec_writable(&self) -> bool;

    /// The bytes that `write` gives.
    spec fn spec_write(&self, little_endian: bool) -> Seq<u8>;

    /// Whether `read` accepts the bytes at `position`.
    fn is_readable(stream: &[u8], position: usize, little_endian: bool) -> (r: bool)
        ensures
            r == Self::spec_readable(stream@, position as int, little_endian),
    ;

    fn read(stream: &[u8], position: usize, little_endian: bool) -> (r: (usize, Self))
        requires
            Self::spec_readable(stream@, position as int, little_endian),
        ensures
            Self::spec_read_result(stream@, position as int, little_endian, r.0 as int, r.1),
    ;

    fn write(&self, start_position: usize, little_endian: bool) -> (r: Vec<u8>)
        requires
            self.spec_writable(),
        ensures
            r@ == self.spec_write(little_endian),
    ;
}

} // verus!
