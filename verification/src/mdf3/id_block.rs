//! Identification block: the first 64 bytes of an MDF version 3 file.
use crate::utils::{
    bytes_to_vec, lemma_byte_range_values, lemma_read_written, read_array, read_u16, u16_at,
    uint_bytes, write_u16,
};
use vstd::prelude::*;

verus! {

#[derive(Debug, Clone, Copy, PartialEq, Eq)]
pub struct Idblock {
    pub file_id: [u8; 8],
    pub format_id: [u8; 8],
    pub program_id: [u8; 8],
    pub default_byte_order: u16,
    pub default_float_format: u16,
    pub version_number: u16,
    pub code_page_number: u16,
    pub reserved1: [u8; 2],
    pub reserved2: [u8; 30],
}

/// The file identifier `MDF     ` that every MDF file starts with.
pub open spec fn mdf_magic() -> Seq<u8> {
    seq![0x4Du8, 0x44u8, 0x46u8, 0x20u8, 0x20u8, 0x20u8, 0x20u8, 0x20u8]
}

/// `s` starts with an identification block.
pub open spec fn id_readable(s: Seq<u8>) -> bool {
    s.len() >= 64 && s.subrange(0, 8) == mdf_magic()
}

/// `b` holds the identification block that starts `s`. The byte order code
/// is read least significant byte first; code 0 makes the file little endian,
/// and the later numbers are read in the file's byte order.
pub open spec fn id_fields(s: Seq<u8>, b: Idblock) -> bool {
    let little_endian = u16_at(s, 24, true) == 0;
    &&& b.file_id@ == s.subrange(0, 8)
    &&& b.format_id@ == s.subrange(8, 16)
    &&& b.program_id@ == s.subrange(16, 24)
    &&& b.default_byte_order == u16_at(s, 24, true)
    &&& b.default_float_format == u16_at(s, 26, little_endian)
    &&& b.version_number == u16_at(s, 28, little_endian)
    &&& b.code_page_number == u16_at(s, 30, little_endian)
    &&& b.reserved1@ == s.subrange(32, 34)
    &&& b.reserved2@ == s.subrange(34, 64)
}

/// Whether `stream` starts with an identification block.
pub fn is_id_block(stream: &[u8]) -> (r: bool)
    ensures
        r == id_readable(stream@),
{
    if stream.len() < 64 {
        return false;
    }
    let ok = stream[0] == 0x4D && stream[1] == 0x44 && stream[2] == 0x46 && stream[3] == 0x20
        && stream[4] == 0x20 && stream[5] == 0x20 && stream[6] == 0x20 && stream[7] == 0x20;
    assert(ok == (stream@.subrange(0, 8) =~= mdf_magic()));
    ok
}

impl Idblock {
    /// The 64 bytes that encode the block, numbers in the given byte order.
    pub open spec fn spec_write(self, little_endian: bool) -> Seq<u8> {
        self.file_id@ + self.format_id@ + self.program_id@ + uint_bytes(
            self.default_byte_order as nat,
            2,
            little_endian,
        ) + uint_bytes(self.default_float_format as nat, 2, little_endian) + uint_bytes(
            self.version_number as nat,
            2,
            little_endian,
        ) + uint_bytes(self.code_page_number as nat, 2, little_endian) + self.reserved1@
            + self.reserved2@
    }

    pub fn write(&self, little_endian: bool) -> (r: Vec<u8>)
        ensures
            r@ == self.spec_write(little_endian),
    {
        let mut array = bytes_to_vec(&self.file_id);
        let mut part = bytes_to_vec(&self.format_id);
        array.append(&mut part);
        let mut part = bytes_to_vec(&self.program_id);
        array.append(&mut part);
        let mut part = write_u16(self.default_byte_order, little_endian);
        array.append(&mut part);
        let mut part = write_u16(self.default_float_format, little_endian);
        array.append(&mut part);
        let mut part = write_u16(self.version_number, little_endian);
        array.append(&mut part);
        let mut part = write_u16(self.code_page_number, little_endian);
        array.append(&mut part);
        let mut part = bytes_to_vec(&self.reserved1);
        array.append(&mut part);
        let mut part = bytes_to_vec(&self.reserved2);
        array.append(&mut part);
        array
    }

    pub fn new(
        file_id: [u8; 8],
        format_id: [u8; 8],
        program_id: [u8; 8],
        default_byte_order: u16,
        default_float_format: u16,
        version_number: u16,
        code_page_number: u16,
    ) -> (r: Self)
        ensures
            r.file_id == file_id,
            r.format_id == format_id,
            r.program_id == program_id,
            r.default_byte_order == default_byte_order,
            r.default_float_format == default_float_format,
            r.version_number == version_number,
            r.code_page_number == code_page_number,
            r.reserved1@ == Seq::new(2, |i: int| 0u8),
            r.reserved2@ == Seq::new(30, |i: int| 0u8),
    {
        let r = Idblock {
            file_id,
            format_id,
            program_id,
            default_byte_order,
            default_float_format,
            version_number,
            code_page_number,
            reserved1: [0u8; 2],
            reserved2: [0u8; 30],
        };
        assert(r.reserved1@ =~= Seq::new(2, |i: int| 0u8));
        assert(r.reserved2@ =~= Seq::new(30, |i: int| 0u8));
        r
    }

    pub fn default() -> (r: Self)
        ensures
            r.file_id@ == Seq::new(8, |i: int| 0u8),
            r.format_id@ == Seq::new(8, |i: int| 0u8),
            r.program_id@ == Seq::new(8, |i: int| 0u8),
            r.default_byte_order == 0,
            r.default_float_format == 0,
            r.version_number == 0,
            r.code_page_number == 0,
            r.reserved1@ == Seq::new(2, |i: int| 0u8),
            r.reserved2@ == Seq::new(30, |i: int| 0u8),
    {
        let r = Self::new([0u8; 8], [0u8; 8], [0u8; 8], 0u16, 0u16, 0u16, 0u16);
        assert(r.file_id@ =~= Seq::new(8, |i: int| 0u8));
        assert(r.format_id@ =~= Seq::new(8, |i: int| 0u8));
        assert(r.program_id@ =~= Seq::new(8, |i: int| 0u8));
        r
    }

    /// Reads the block at the start of `stream`; gives the block, the position
    /// after it, and whether the file is little endian.
    pub fn read(stream: &[u8]) -> (r: (Idblock, usize, bool))
        requires
            id_readable(stream@),
        ensures
            id_fields(stream@, r.0),
            r.1 == 64,
            r.2 == (r.0.default_byte_order == 0),
    {
        let mut position: usize = 0;
        let mut file_id = [0u8; 8];
        read_array(stream, &mut file_id, &mut position);
        let mut format_id = [0u8; 8];
        read_array(stream, &mut format_id, &mut position);
        let mut program_id = [0u8; 8];
        read_array(stream, &mut program_id, &mut position);
        let default_byte_order = read_u16(stream, true, &mut position);
        let little_endian = default_byte_order == 0;
        let default_float_format = read_u16(stream, little_endian, &mut position);
        let version_number = read_u16(stream, little_endian, &mut position);
        let code_page_number = read_u16(stream, little_endian, &mut position);
        let mut reserved1 = [0u8; 2];
        read_array(stream, &mut reserved1, &mut position);
        let mut reserved2 = [0u8; 30];
        read_array(stream, &mut reserved2, &mut position);
        (
            Idblock {
                file_id,
                format_id,
                program_id,
                default_byte_order,
                default_float_format,
                version_number,
                code_page_number,
                reserved1,
                reserved2,
            },
            position,
            little_endian,
        )
    }
}

/// Reading what `write` gives, in little endian, yields the block that was
/// written, for a block that starts with the file identifier and declares
/// little endian byte order.
pub proof fn lemma_id_write_read(b: Idblock)
    requires
        b.file_id@ == mdf_magic(),
        b.default_byte_order == 0,
    ensures
        id_readable(b.spec_write(true)),
        forall|c: Idblock| id_fields(b.spec_write(true), c) ==> c == b,
{
    let w = b.spec_write(true);
    lemma_byte_range_values();
    assert(w.len() == 64);
    assert(w.subrange(0, 8) =~= b.file_id@);
    assert(w.subrange(8, 16) =~= b.format_id@);
    assert(w.subrange(16, 24) =~= b.program_id@);
    assert(w.subrange(24, 26) =~= uint_bytes(b.default_byte_order as nat, 2, true));
    assert(w.subrange(26, 28) =~= uint_bytes(b.default_float_format as nat, 2, true));
    assert(w.subrange(28, 30) =~= uint_bytes(b.version_number as nat, 2, true));
    assert(w.subrange(30, 32) =~= uint_bytes(b.code_page_number as nat, 2, true));
    assert(w.subrange(32, 34) =~= b.reserved1@);
    assert(w.subrange(34, 64) =~= b.reserved2@);
    lemma_read_written(w, 24, b.default_byte_order as nat, 2, true);
    lemma_read_written(w, 26, b.default_float_format as nat, 2, true);
    lemma_read_written(w, 28, b.version_number as nat, 2, true);
    lemma_read_written(w, 30, b.code_page_number as nat, 2, true);
    assert forall|c: Idblock| id_fields(w, c) implies c == b by {
        assert(c.file_id =~= b.file_id);
        assert(c.format_id =~= b.format_id);
        assert(c.program_id =~= b.program_id);
        assert(c.reserved1 =~= b.reserved1);
        assert(c.reserved2 =~= b.reserved2);
    }
}

} // verus!
