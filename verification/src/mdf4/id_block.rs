//! Identification block: the first 64 bytes of an MDF version 4 file.
use crate::mdf4::block::Block;
use crate::utils::{read_array, read_u16, u16_at};
use vstd::prelude::*;

verus! {

#[derive(Debug, Clone, Copy)]
pub struct Idblock {
    pub id_file: [u8; 8],
    pub id_vers: [u8; 8],
    pub id_prog: [u8; 8],
    pub id_reserved1: [u8; 4],
    pub id_ver: u16,
    pub id_reserved2: [u8; 34],
}

/// Number of bytes of the identification block.
pub const ID_BLOCK_LEN: usize = 64;

/// `b` holds the identification block that starts `s`; its version number is
/// always stored least significant byte first.
pub open spec fn id_fields(s: Seq<u8>, b: Idblock) -> bool {
    &&& b.id_file@ == s.subrange(0, 8)
    &&& b.id_vers@ == s.subrange(8, 16)
    &&& b.id_prog@ == s.subrange(16, 24)
    &&& b.id_reserved1@ == s.subrange(24, 28)
    &&& b.id_ver == u16_at(s, 28, true)
    &&& b.id_reserved2@ == s.subrange(30, 64)
}

impl Block for Idblock {
    open spec fn spec_is_new(&self) -> bool {
        &&& self.id_file@ == Seq::new(8, |i: int| 0u8)
        &&& self.id_vers@ == Seq::new(8, |i: int| 0u8)
        &&& self.id_prog@ == Seq::new(8, |i: int| 0u8)
        &&& self.id_reserved1@ == Seq::new(4, |i: int| 0u8)
        &&& self.id_ver == 0
        &&& self.id_reserved2@ == Seq::new(34, |i: int| 0u8)
    }

    open spec fn spec_is_default(&self) -> bool {
        self.spec_is_new()
    }

    /// The block is read from the start of the file, wherever `position` points.
    open spec fn spec_readable(stream: Seq<u8>, position: int, little_endian: bool) -> bool {
        stream.len() >= 64
    }

    open spec fn spec_read_result(
        stream: Seq<u8>,
        position: int,
        little_endian: bool,
        end: int,
        block: Self,
    ) -> bool {
        end == 64 && id_fields(stream, block)
    }

    open spec fn spec_has_byte_len(&self) -> bool {
        true
    }

    open spec fn spec_byte_len(&self) -> nat {
        64
    }

    fn new() -> (r: Self) {
        let r = Idblock {
            id_file: [0u8; 8],
            id_vers: [0u8; 8],
            id_prog: [0u8; 8],
            id_reserved1: [0u8; 4],
            id_ver: 0,
            id_reserved2: [0u8; 34],
        };
        assert(r.id_file@ =~= Seq::new(8, |i: int| 0u8));
        assert(r.id_vers@ =~= Seq::new(8, |i: int| 0u8));
        assert(r.id_prog@ =~= Seq::new(8, |i: int| 0u8));
        assert(r.id_reserved1@ =~= Seq::new(4, |i: int| 0u8));
        assert(r.id_reserved2@ =~= Seq::new(34, |i: int| 0u8));
        r
    }

    fn default() -> (r: Self) {
        Self::new()
    }

    fn is_readable(stream: &[u8], position: usize, little_endian: bool) -> (r: bool) {
        stream.len() >= ID_BLOCK_LEN
    }

    fn read(stream: &[u8], position: usize, little_endian: bool) -> (r: (usize, Self)) {
        let mut pos: usize = 0;
        let mut id_file = [0u8; 8];
        read_array(stream, &mut id_file, &mut pos);
        let mut id_vers = [0u8; 8];
        read_array(stream, &mut id_vers, &mut pos);
        let mut id_prog = [0u8; 8];
        read_array(stream, &mut id_prog, &mut pos);
        let mut id_reserved1 = [0u8; 4];
        read_array(stream, &mut id_reserved1, &mut pos);
        let id_ver = read_u16(stream, true, &mut pos);
        let mut id_reserved2 = [0u8; 34];
        read_array(stream, &mut id_reserved2, &mut pos);
        (pos, Idblock { id_file, id_vers, id_prog, id_reserved1, id_ver, id_reserved2 })
    }

    fn byte_len(&self) -> (r: usize) {
        ID_BLOCK_LEN
    }
}

} // verus!
