//! Text block (`##TX`): a zero-terminated UTF-8 text.
use crate::mdf4::block::Block;
use crate::mdf4::block_header::{
    check_id, header_fields, header_fits, id_at, length_at, BlockHeader, HEADER_LEN,
};
use crate::mdf4::utils::{is_text, str_from_u8, until_nul};
use vstd::prelude::*;
use vstd::string::StringSliceAdditionalSpecFns;
use vstd::utf8::{encode_utf8, valid_utf8};

verus! {

#[derive(Debug, Clone)]
pub struct Txblock {
    pub header: BlockHeader,
    pub tx_data: String,
}

/// The bytes after the header of the block at `p`, up to the block's end.
pub open spec fn tx_payload(s: Seq<u8>, p: int, little_endian: bool) -> Seq<u8> {
    s.subrange(p + 24, p + length_at(s, p, little_endian))
}

impl Txblock {
    pub fn text(&self) -> (r: String)
        ensures
            r@ == self.tx_data@,
    {
        self.tx_data.clone()
    }
}

impl Block for Txblock {
    open spec fn spec_is_new(&self) -> bool {
        &&& self.header.id@ == seq![0x23u8, 0x23u8, 0x54u8, 0x58u8]
        &&& self.header.reserved0@ == seq![0u8, 0u8, 0u8, 0u8]
        &&& self.header.length == 24
        &&& self.header.link_count == 0
        &&& self.tx_data@ == Seq::<char>::empty()
    }

    open spec fn spec_is_default(&self) -> bool {
        self.spec_is_new()
    }

    open spec fn spec_readable(stream: Seq<u8>, position: int, little_endian: bool) -> bool {
        &&& header_fits(stream, position)
        &&& id_at(stream, position, 0x54, 0x58)
        &&& length_at(stream, position, little_endian) >= 24
        &&& position + length_at(stream, position, little_endian) <= stream.len()
        &&& valid_utf8(until_nul(tx_payload(stream, position, little_endian)))
    }

    open spec fn spec_read_result(
        stream: Seq<u8>,
        position: int,
        little_endian: bool,
        end: int,
        block: Self,
    ) -> bool {
        &&& end == position + length_at(stream, position, little_endian)
        &&& header_fields(stream, position, little_endian, block.header)
        &&& encode_utf8(block.tx_data@) == until_nul(tx_payload(stream, position, little_endian))
    }

    open spec fn spec_has_byte_len(&self) -> bool {
        encode_utf8(self.tx_data@).len() + 25 <= usize::MAX
    }

    open spec fn spec_byte_len(&self) -> nat {
        24 + encode_utf8(self.tx_data@).len() + 1
    }

    fn new() -> (r: Self) {
        let header = BlockHeader::with_id([0x23u8, 0x23u8, 0x54u8, 0x58u8], 24, 0);
        assert(header.id@ =~= seq![0x23u8, 0x23u8, 0x54u8, 0x58u8]);
        Txblock { header, tx_data: String::new() }
    }

    fn default() -> (r: Self) {
        Self::new()
    }

    fn is_readable(stream: &[u8], position: usize, little_endian: bool) -> (r: bool) {
        if !BlockHeader::is_readable(stream, position, little_endian) {
            return false;
        }
        if !check_id(stream, position, 0x54, 0x58) {
            return false;
        }
        let (_, header) = BlockHeader::read(stream, position, little_endian);
        if header.length < 24 || header.length > (stream.len() - position) as u64 {
            return false;
        }
        let end = position + header.length as usize;
        let payload = vstd::slice::slice_subrange(stream, position + HEADER_LEN, end);
        is_text(payload)
    }

    fn read(stream: &[u8], position: usize, little_endian: bool) -> (r: (usize, Self)) {
        let total = stream.len();
        let (pos, header) = BlockHeader::read(stream, position, little_endian);
        assert(header.length <= total);
        let length = header.length as usize - HEADER_LEN;
        let payload = vstd::slice::slice_subrange(stream, pos, pos + length);
        let tx_data = str_from_u8(payload);
        (pos + length, Txblock { header, tx_data })
    }

    fn byte_len(&self) -> (r: usize) {
        HEADER_LEN + self.tx_data.as_str().len() + 1
    }
}

/// A text block whose text runs up to a single closing zero byte at its end
/// takes, as `byte_len` says, as many bytes as reading it consumes.
pub proof fn lemma_tx_byte_len_is_read_len(
    stream: Seq<u8>,
    position: int,
    little_endian: bool,
    end: int,
    block: Txblock,
)
    requires
        Txblock::spec_read_result(stream, position, little_endian, end, block),
        length_at(stream, position, little_endian) == 24 + until_nul(
            tx_payload(stream, position, little_endian),
        ).len() + 1,
    ensures
        end - position == block.spec_byte_len(),
{
}

} // verus!
