//! Channel block (`CN`) of an MDF version 3 file. The three floating point
//! fields are kept as the IEEE 754 bits stored in the file.
use crate::mdf3::mdf3_block::{check_fits, check_tag, fits, tag_at, CheckedLink, LinkedBlock, Mdf3Block, UniqueLink};
use crate::mdf3::{blank_high_bytes, lemma_blanked_text_is_utf8, tx_raw_text, tx_readable, TXBLOCK};
use crate::mdf4::utils::utf8_text;
use crate::record::{DataTypeRead, MAX_DATA_TYPE_CODE};
use crate::utils::{read_array, read_u16, read_u32, read_u64, u16_at, u32_at, u64_at};
use vstd::prelude::*;
use vstd::string::StringExecFns;
use vstd::utf8::{decode_utf8, encode_utf8};

verus! {

#[derive(Debug, Clone, Copy)]
pub struct Cnblock {
    pub block_type: [u8; 2],
    pub block_size: u16,
    pub next: u32,
    pub conversion_formula: u32,
    pub source_ext: u32,
    pub dependency: u32,
    pub comment: u32,
    pub channel_type: u16,
    pub short_name: [u8; 32],
    pub desc: [u8; 128],
    pub start_offset: u16,
    pub bit_number: u16,
    pub data_type: DataTypeRead,
    pub value_range_valid: u16,
    pub signal_min: u64,
    pub signal_max: u64,
    pub sample_rate: u64,
    pub long_name: u32,
    pub display_name: u32,
    pub addition_byte_offset: u16,
}

/// Number of bytes of a channel block.
pub const CN_LEN: usize = 228;

/// A channel block can be read at `p`: it fits, carries type `CN`, and its
/// data type code is one MDF version 3 defines.
pub open spec fn cn_readable(s: Seq<u8>, p: int, little_endian: bool) -> bool {
    &&& fits(s, p, 228)
    &&& tag_at(s, p, 0x43, 0x4E)
    &&& u16_at(s, p + 190, little_endian) <= MAX_DATA_TYPE_CODE
}

/// `b` holds the channel block stored at `p`.
pub open spec fn cn_fields(s: Seq<u8>, p: int, little_endian: bool, b: Cnblock) -> bool {
    &&& b.block_type@ == s.subrange(p, p + 2)
    &&& b.block_size == u16_at(s, p + 2, little_endian)
    &&& b.next == u32_at(s, p + 4, little_endian)
    &&& b.conversion_formula == u32_at(s, p + 8, little_endian)
    &&& b.source_ext == u32_at(s, p + 12, little_endian)
    &&& b.dependency == u32_at(s, p + 16, little_endian)
    &&& b.comment == u32_at(s, p + 20, little_endian)
    &&& b.channel_type == u16_at(s, p + 24, little_endian)
    &&& b.short_name@ == s.subrange(p + 26, p + 58)
    &&& b.desc@ == s.subrange(p + 58, p + 186)
    &&& b.start_offset == u16_at(s, p + 186, little_endian)
    &&& b.bit_number == u16_at(s, p + 188, little_endian)
    &&& b.data_type == DataTypeRead::spec_new(u16_at(s, p + 190, little_endian), little_endian)
    &&& b.value_range_valid == u16_at(s, p + 192, little_endian)
    &&& b.signal_min == u64_at(s, p + 194, little_endian)
    &&& b.signal_max == u64_at(s, p + 202, little_endian)
    &&& b.sample_rate == u64_at(s, p + 210, little_endian)
    &&& b.long_name == u32_at(s, p + 218, little_endian)
    &&& b.display_name == u32_at(s, p + 222, little_endian)
    &&& b.addition_byte_offset == u16_at(s, p + 226, little_endian)
}

/// Reads the channel block at `position`.
pub(crate) fn read_cn(stream: &[u8], position: usize, little_endian: bool) -> (r: (usize, Cnblock))
    requires
        cn_readable(stream@, position as int, little_endian),
    ensures
        r.0 == position + 228,
        cn_fields(stream@, position as int, little_endian, r.1),
{
    let mut pos = position;
    let mut block_type = [0u8; 2];
    read_array(stream, &mut block_type, &mut pos);
    let block_size = read_u16(stream, little_endian, &mut pos);
    let next = read_u32(stream, little_endian, &mut pos);
    let conversion_formula = read_u32(stream, little_endian, &mut pos);
    let source_ext = read_u32(stream, little_endian, &mut pos);
    let dependency = read_u32(stream, little_endian, &mut pos);
    let comment = read_u32(stream, little_endian, &mut pos);
    let channel_type = read_u16(stream, little_endian, &mut pos);
    let mut short_name = [0u8; 32];
    read_array(stream, &mut short_name, &mut pos);
    let mut desc = [0u8; 128];
    read_array(stream, &mut desc, &mut pos);
    let start_offset = read_u16(stream, little_endian, &mut pos);
    let bit_number = read_u16(stream, little_endian, &mut pos);
    let datatype = read_u16(stream, little_endian, &mut pos);
    let data_type = DataTypeRead::new(datatype, little_endian);
    let value_range_valid = read_u16(stream, little_endian, &mut pos);
    let signal_min = read_u64(stream, little_endian, &mut pos);
    let signal_max = read_u64(stream, little_endian, &mut pos);
    let sample_rate = read_u64(stream, little_endian, &mut pos);
    let long_name = read_u32(stream, little_endian, &mut pos);
    let display_name = read_u32(stream, little_endian, &mut pos);
    let addition_byte_offset = read_u16(stream, little_endian, &mut pos);
    (
        pos,
        Cnblock {
            block_type,
            block_size,
            next,
            conversion_formula,
            source_ext,
            dependency,
            comment,
            channel_type,
            short_name,
            desc,
            start_offset,
            bit_number,
            data_type,
            value_range_valid,
            signal_min,
            signal_max,
            sample_rate,
            long_name,
            display_name,
            addition_byte_offset,
        },
    )
}

/// Whether a channel block can be read at `position`.
pub(crate) fn cn_is_readable(stream: &[u8], position: usize, little_endian: bool) -> (r: bool)
    ensures
        r == cn_readable(stream@, position as int, little_endian),
{
    if !check_fits(stream, position, CN_LEN) || !check_tag(stream, position, 0x43, 0x4E) {
        return false;
    }
    let total = stream.len();
    let mut pos = position + 190;
    let datatype = read_u16(stream, little_endian, &mut pos);
    datatype <= MAX_DATA_TYPE_CODE
}

/// The text of a channel's long name block, once its high bytes are blanked.
pub open spec fn long_name_text(s: Seq<u8>, p: int, little_endian: bool) -> Seq<u8> {
    blank_high_bytes(tx_raw_text(s, p, little_endian))
}

/// The name of a channel: `time` for the time channel, else the text of its
/// long name block, else empty text.
pub open spec fn channel_name(s: Seq<u8>, little_endian: bool, channel_type: u16, long_name: u32) -> Seq<char> {
    if channel_type == 1 {
        seq!['t', 'i', 'm', 'e']
    } else if long_name != 0 {
        decode_utf8(long_name_text(s, long_name as int, little_endian))
    } else {
        Seq::empty()
    }
}

/// The name of a channel can be had: the long name block, where one is
/// needed, can be read. Its blanked text is always UTF-8
/// (`lemma_blanked_text_is_utf8`).
pub open spec fn channel_name_readable(
    s: Seq<u8>,
    little_endian: bool,
    channel_type: u16,
    long_name: u32,
) -> bool {
    channel_type != 1 && long_name != 0 ==> tx_readable(s, long_name as int, little_endian)
}

/// The name of a channel, as `channel_name` gives it.
pub(crate) fn read_channel_name(
    stream: &[u8],
    little_endian: bool,
    channel_type: u16,
    long_name: u32,
) -> (r: String)
    requires
        channel_name_readable(stream@, little_endian, channel_type, long_name),
    ensures
        r@ == channel_name(stream@, little_endian, channel_type, long_name),
{
    broadcast use vstd::utf8::encode_utf8_decode_utf8;

    if channel_type == 1 {
        let name = String::from_str("time");
        proof {
            reveal_strlit("time");
        }
        assert(name@ =~= seq!['t', 'i', 'm', 'e']);
        name
    } else if long_name != 0 {
        let total = stream.len();
        let (tx, _) = TXBLOCK::read(stream, long_name as usize, little_endian);
        proof {
            lemma_blanked_text_is_utf8(tx_raw_text(stream@, long_name as int, little_endian));
        }
        match utf8_text(tx.text.as_slice()) {
            Some(name) => name,
            None => String::new(),
        }
    } else {
        String::new()
    }
}

impl CheckedLink for Cnblock {
    fn link_readable(stream: &[u8], position: u64, little_endian: bool) -> (r: bool) {
        position <= stream.len() as u64 && <Cnblock as Mdf3Block>::is_readable(
            stream,
            position as usize,
            little_endian,
        )
    }

    fn read_link(stream: &[u8], position: u64, little_endian: bool) -> (r: Self) {
        let total = stream.len();
        let (_, block) = <Cnblock as Mdf3Block>::read(stream, position as usize, little_endian);
        block
    }

    fn next_link(&self) -> (r: u64) {
        self.next as u64
    }
}

impl UniqueLink for Cnblock {
    proof fn lemma_block_unique(
        stream: Seq<u8>,
        position: int,
        little_endian: bool,
        a: Self,
        b: Self,
    ) {
        broadcast use vstd::array::group_array_axioms;

        assert(a.block_type =~= b.block_type);
        assert(a.short_name =~= b.short_name);
        assert(a.desc =~= b.desc);
    }
}

impl LinkedBlock for Cnblock {
    open spec fn spec_next_link(&self) -> int {
        self.next as int
    }

    open spec fn spec_link_readable(stream: Seq<u8>, position: int, little_endian: bool) -> bool {
        cn_readable(stream, position, little_endian)
    }

    open spec fn spec_link_at(stream: Seq<u8>, position: int, little_endian: bool) -> int {
        u32_at(stream, position + 4, little_endian) as int
    }

    open spec fn spec_block_at(
        stream: Seq<u8>,
        position: int,
        little_endian: bool,
        block: Self,
    ) -> bool {
        cn_fields(stream, position, little_endian, block)
    }

    proof fn lemma_link_of_block(
        stream: Seq<u8>,
        position: int,
        little_endian: bool,
        block: Self,
    ) {
    }

    fn next(&self, stream: &[u8], little_endian: bool) -> (r: Option<Self>) {
        if self.next == 0 {
            None
        } else {
            let total = stream.len();
            let (_, block) = read_cn(stream, self.next as usize, little_endian);
            Some(block)
        }
    }
}

impl Mdf3Block for Cnblock {
    open spec fn spec_readable(stream: Seq<u8>, position: int, little_endian: bool) -> bool {
        cn_readable(stream, position, little_endian)
    }

    open spec fn spec_read_result(
        stream: Seq<u8>,
        position: int,
        little_endian: bool,
        end: int,
        block: Self,
    ) -> bool {
        end == position + 228 && cn_fields(stream, position, little_endian, block)
    }

    /// Channel blocks have no serialisation.
    open spec fn spec_writable(&self) -> bool {
        false
    }

    open spec fn spec_write(&self, little_endian: bool) -> Seq<u8> {
        Seq::empty()
    }

    fn is_readable(stream: &[u8], position: usize, little_endian: bool) -> (r: bool) {
        cn_is_readable(stream, position, little_endian)
    }

    fn read(stream: &[u8], position: usize, little_endian: bool) -> (r: (usize, Self)) {
        read_cn(stream, position, little_endian)
    }

    fn write(&self, start_position: usize, little_endian: bool) -> (r: Vec<u8>) {
        Vec::new()
    }
}

impl Cnblock {
    /// Writes nothing: channel blocks are not serialised.
    pub fn write() {
    }

    /// The channel's name: `time` for the time channel, else the text of its
    /// long name block.
    pub fn name(self, stream: &[u8], little_endian: bool) -> (r: String)
        requires
            channel_name_readable(stream@, little_endian, self.channel_type, self.long_name),
        ensures
            r@ == channel_name(stream@, little_endian, self.channel_type, self.long_name),
    {
        read_channel_name(stream, little_endian, self.channel_type, self.long_name)
    }

    /// This channel followed by the channels that its chain of links reaches.
    pub fn list(&self, stream: &[u8], little_endian: bool) -> (r: Vec<Cnblock>)
        requires
            exists|fuel: nat| crate::mdf4::block::chain_ends::<Cnblock>(stream@, self.next as int, little_endian, fuel),
        ensures
            r@.len() >= 1,
            r@[0] == *self,
            crate::mdf4::block::is_chain::<Cnblock>(stream@, self.next as int, little_endian, r@.drop_first()),
    {
        crate::mdf4::block::collect_chain(*self, stream, little_endian)
    }
}

} // verus!
