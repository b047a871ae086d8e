//! Metadata block (`##MD`): XML text.
use crate::mdf4::block_header::{header_fits, id_at, length_at, BlockHeader, check_id, HEADER_LEN};
use crate::mdf4::block::Block;
use crate::mdf4::utils::{is_text, lemma_until_nul_prefix, str_from_u8, until_nul};
use vstd::prelude::*;
use vstd::string::StringSliceAdditionalSpecFns;
use vstd::utf8::{encode_utf8, valid_utf8};

verus! {

#[derive(Debug, Clone)]
pub struct Mdblock {
    pub md_data: String,
}

/// The bytes that hold the text of the block at `p`: from the end of its
/// header, as many as its length less 10.
pub open spec fn md_payload(s: Seq<u8>, p: int, little_endian: bool) -> Seq<u8> {
    s.subrange(p + 24, p + 14 + length_at(s, p, little_endian))
}

/// A metadata block can be read at `p`: its text lies inside `s` and is
/// UTF-8 up to its first zero byte.
pub open spec fn md_readable(s: Seq<u8>, p: int, little_endian: bool) -> bool {
    &&& header_fits(s, p)
    &&& id_at(s, p, 0x4D, 0x44)
    &&& length_at(s, p, little_endian) >= 10
    &&& p + 14 + length_at(s, p, little_endian) <= s.len()
    &&& valid_utf8(until_nul(md_payload(s, p, little_endian)))
}

impl Mdblock {
    pub fn new() -> (r: Self)
        ensures
            r.md_data@ == Seq::<char>::empty(),
    {
        Mdblock { md_data: String::new() }
    }

    pub fn default() -> (r: Self)
        ensures
            r.md_data@ == Seq::<char>::empty(),
    {
        Self::new()
    }

    /// Whether a metadata block can be read at `position`.
    pub fn is_readable(stream: &[u8], position: usize, little_endian: bool) -> (r: bool)
        ensures
            r == md_readable(stream@, position as int, little_endian),
    {
        if !BlockHeader::is_readable(stream, position, little_endian) {
            return false;
        }
        if !check_id(stream, position, 0x4D, 0x44) {
            return false;
        }
        let (_, header) = BlockHeader::read(stream, position, little_endian);
        if header.length < 10 || header.length > (stream.len() - position - 14) as u64 {
            return false;
        }
        let end = position + 14 + header.length as usize;
        is_text(vstd::slice::slice_subrange(stream, position + HEADER_LEN, end))
    }

    /// Reads the block at `position`; the position handed back is that after
    /// the header moved on by the length in bytes of the text.
    pub fn read(stream: &[u8], position: usize, little_endian: bool) -> (r: (usize, Self))
        requires
            md_readable(stream@, position as int, little_endian),
        ensures
            encode_utf8(r.1.md_data@) == until_nul(md_payload(stream@, position as int, little_endian)),
            r.0 == position + 24 + until_nul(md_payload(stream@, position as int, little_endian)).len(),
    {
        let total = stream.len();
        let (pos, header) = BlockHeader::read(stream, position, little_endian);
        let end = pos + (header.length as usize - 10);
        let payload = vstd::slice::slice_subrange(stream, pos, end);
        let md_data = str_from_u8(payload);
        proof {
            lemma_until_nul_prefix(payload@);
        }
        let len = md_data.as_str().len();
        (pos + len, Mdblock { md_data })
    }
}

} // verus!
