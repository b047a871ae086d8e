//! Blocks of MDF version 3 files.
use crate::mdf3::cc_block::{cc_fields, cc_readable, Ccblock};
use crate::mdf3::cd_block::{
    cd_dims_start, dependencies_fields, dependencies_readable, dependency_count, read_dependencies,
};
use crate::mdf3::cg_block::{cg_fields, cg_readable, Cgblock};
use crate::mdf3::cn_block::{
    channel_name, channel_name_readable, cn_fields, cn_readable, read_channel_name, read_cn,
    Cnblock,
};
use crate::mdf3::dg_block::{dg_fields, dg_readable, Dgblock};
pub use crate::mdf3::event::Event;
use crate::mdf3::id_block::{id_fields, id_readable, Idblock};
use crate::mdf3::mdf3_block::{fits, tag_at, LinkedBlock, Mdf3Block};
use crate::mdf4::block::{chain_ends, collect_chain, is_chain};
use crate::record::DataTypeRead;
use crate::utils::{
    display_name_from, extract_name, i16_at, read_array, read_i16, read_u16, read_u32, read_u64,
    u16_at, u32_at, u64_at, xml_parse,
};
use vstd::prelude::*;
use vstd::utf8::{is_leading_byte_width_1, partial_valid_utf8_extend_ascii_block, valid_utf8};

pub use crate::mdf3::conversion::{
    ConversionExponetial, ConversionLinear, ConversionLog, ConversionPoly, ConversionRational,
    ConversionTabular, ConversionTextFormula, ConversionTextRangeTable, ConversionTextTable,
    TableEntry, Table, Text, TextRange, TextTableEntry,
};
pub use crate::mdf3::conversion_data::ConversionData;
pub use crate::mdf3::date::DateStruct;
pub use crate::mdf3::signals::Signals;
pub use crate::mdf3::time::TimeStruct;

pub mod mdf3_block;
pub mod id_block;
pub mod signals;
pub mod dg_block;
pub mod cg_block;
pub mod cn_block;
pub mod conversion_data;
pub mod parameters;
pub mod channel_type;
pub mod date;
pub mod time;
pub mod conversion;
pub mod event;
pub mod sr_block;
pub mod cc_block;
pub mod cd_block;
pub mod cc_types;
pub mod mdf3_file;

pub use crate::mdf3::mdf3_file::MDF3;

verus! {

/// Text bytes with every byte from 128 up, none of which is ASCII, replaced by
/// a space, so that the text is valid UTF-8.
pub open spec fn blank_high_bytes(b: Seq<u8>) -> Seq<u8> {
    b.map_values(|c: u8| if c >= 128 { 32u8 } else { c })
}

/// Blanking leaves only ASCII bytes, so the text of every text block is
/// valid UTF-8, whatever bytes the file held.
pub proof fn lemma_blanked_text_is_utf8(b: Seq<u8>)
    ensures
        valid_utf8(blank_high_bytes(b)),
{
    let t = blank_high_bytes(b);
    assert(t.subrange(0, 0) =~= Seq::<u8>::empty());
    assert forall|i: int| 0 <= 0 <= i < t.len() <= t.len() implies #[trigger] is_leading_byte_width_1(
        t[i],
    ) by {}
    partial_valid_utf8_extend_ascii_block(t, 0, t.len() as int);
    assert(t.subrange(0, t.len() as int) =~= t);
}

/// Text block (`TX`): a block size and the text that fills the block.
#[derive(Debug, Clone)]
pub struct TXBLOCK {
    pub block_type: [u8; 2],
    pub block_size: u16,
    pub text: Vec<u8>,
}

/// A text block can be read at `p`: its size covers the four bytes of type
/// and size, and its text lies inside `s`.
pub open spec fn tx_readable(s: Seq<u8>, p: int, little_endian: bool) -> bool {
    &&& fits(s, p, 4)
    &&& tag_at(s, p, 0x54, 0x58)
    &&& u16_at(s, p + 2, little_endian) >= 5
    &&& p + u16_at(s, p + 2, little_endian) - 1 <= s.len()
}

/// The bytes of the text of the block at `p`, as stored.
pub open spec fn tx_raw_text(s: Seq<u8>, p: int, little_endian: bool) -> Seq<u8> {
    s.subrange(p + 4, p + u16_at(s, p + 2, little_endian) - 1)
}

/// `b` holds the text block stored at `p`.
pub open spec fn tx_fields(s: Seq<u8>, p: int, little_endian: bool, b: TXBLOCK) -> bool {
    &&& b.block_type@ == s.subrange(p, p + 2)
    &&& b.block_size == u16_at(s, p + 2, little_endian)
    &&& b.text@ == blank_high_bytes(tx_raw_text(s, p, little_endian))
}

impl TXBLOCK {
    /// Whether a text block can be read at `position`.
    pub fn is_readable(stream: &[u8], position: usize, little_endian: bool) -> (r: bool)
        ensures
            r == tx_readable(stream@, position as int, little_endian),
    {
        if position > stream.len() || stream.len() - position < 4 {
            return false;
        }
        if stream[position] != 0x54 || stream[position + 1] != 0x58 {
            return false;
        }
        let mut pos = position + 2;
        let block_size = read_u16(stream, little_endian, &mut pos);
        block_size >= 5 && block_size as usize - 1 <= stream.len() - position
    }

    /// Reads the block at `position`; bytes of the text from 128 up become spaces.
    pub fn read(stream: &[u8], position: usize, little_endian: bool) -> (r: (TXBLOCK, usize))
        requires
            tx_readable(stream@, position as int, little_endian),
        ensures
            tx_fields(stream@, position as int, little_endian, r.0),
            r.1 == position + r.0.block_size - 1,
    {
        let total = stream.len();
        let mut pos = position;
        let mut block_type = [0u8; 2];
        read_array(stream, &mut block_type, &mut pos);
        let block_size = read_u16(stream, little_endian, &mut pos);
        let end = pos + (block_size as usize - 5);
        let ghost raw = stream@.subrange(pos as int, end as int);
        let mut text: Vec<u8> = Vec::new();
        let mut i = pos;
        while i < end
            invariant
                pos <= i <= end,
                end <= stream@.len(),
                raw == stream@.subrange(pos as int, end as int),
                text@ == blank_high_bytes(raw.subrange(0, i - pos)),
            decreases end - i,
        {
            let c = stream[i];
            let kept = if 128 <= c {
                32u8
            } else {
                c
            };
            text.push(kept);
            i = i + 1;
            assert(text@ =~= blank_high_bytes(raw.subrange(0, i - pos)));
        }
        assert(raw.subrange(0, end - pos) =~= raw);
        let len = text.len();
        (TXBLOCK { block_type, block_size, text }, pos + len)
    }

    /// The display name that the block's XML text holds.
    pub fn name(self) -> (r: String)
        ensures
            r@ == display_name_from(xml_parse(self.text@), false, Seq::empty()),
    {
        extract_name(self.text.as_slice())
    }
}

/// Identification block, as the whole-file reader keeps it.
#[derive(Debug, Clone)]
pub struct IDBLOCK {
    pub file_id: [u8; 8],
    pub format_id: [u8; 8],
    pub program_id: [u8; 8],
    pub default_byte_order: u16,
    pub default_float_format: u16,
    pub version_number: u16,
    pub code_page_number: u16,
    pub reserved1: [u8; 2],
    pub reserved2: [u8; 30],
}

impl IDBLOCK {
    /// The same fields as an identification block of the block modules.
    pub open spec fn model(self) -> Idblock {
        Idblock {
            file_id: self.file_id,
            format_id: self.format_id,
            program_id: self.program_id,
            default_byte_order: self.default_byte_order,
            default_float_format: self.default_float_format,
            version_number: self.version_number,
            code_page_number: self.code_page_number,
            reserved1: self.reserved1,
            reserved2: self.reserved2,
        }
    }

    /// Reads the block at the start of `stream`; gives the block, the position
    /// after it, and whether the file is little endian.
    pub fn read(stream: &[u8]) -> (r: (IDBLOCK, usize, bool))
        requires
            id_readable(stream@),
        ensures
            id_fields(stream@, r.0.model()),
            r.1 == 64,
            r.2 == (r.0.default_byte_order == 0),
    {
        let (b, position, little_endian) = Idblock::read(stream);
        (
            IDBLOCK {
                file_id: b.file_id,
                format_id: b.format_id,
                program_id: b.program_id,
                default_byte_order: b.default_byte_order,
                default_float_format: b.default_float_format,
                version_number: b.version_number,
                code_page_number: b.code_page_number,
                reserved1: b.reserved1,
                reserved2: b.reserved2,
            },
            position,
            little_endian,
        )
    }
}

/// Header block (`HD`): file-wide information, and where the block was read.
#[derive(Debug, Clone, Copy)]
pub struct HDBLOCK {
    pub position: usize,
    pub block_type: [u8; 2],
    pub block_size: u16,
    pub data_group_block: u32,
    pub file_comment: u32,
    pub program_block: u32,
    pub data_group_number: u16,
    pub date: [u8; 10],
    pub time: [u8; 8],
    pub author: [u8; 32],
    pub department: [u8; 32],
    pub project: [u8; 32],
    pub subject: [u8; 32],
    pub timestamp: u64,
    pub utc_time_offset: i16,
    pub time_quality: u16,
    pub timer_id: [u8; 32],
}

/// A header block can be read at `p`.
pub open spec fn hd_readable(s: Seq<u8>, p: int) -> bool {
    fits(s, p, 208) && tag_at(s, p, 0x48, 0x44)
}

/// `b` holds the header block stored at `p`.
pub open spec fn hd_fields(s: Seq<u8>, p: int, little_endian: bool, b: HDBLOCK) -> bool {
    &&& b.position == p
    &&& b.block_type@ == s.subrange(p, p + 2)
    &&& b.block_size == u16_at(s, p + 2, little_endian)
    &&& b.data_group_block == u32_at(s, p + 4, little_endian)
    &&& b.file_comment == u32_at(s, p + 8, little_endian)
    &&& b.program_block == u32_at(s, p + 12, little_endian)
    &&& b.data_group_number == u16_at(s, p + 16, little_endian)
    &&& b.date@ == s.subrange(p + 18, p + 28)
    &&& b.time@ == s.subrange(p + 28, p + 36)
    &&& b.author@ == s.subrange(p + 36, p + 68)
    &&& b.department@ == s.subrange(p + 68, p + 100)
    &&& b.project@ == s.subrange(p + 100, p + 132)
    &&& b.subject@ == s.subrange(p + 132, p + 164)
    &&& b.timestamp == u64_at(s, p + 164, little_endian)
    &&& b.utc_time_offset == i16_at(s, p + 172, little_endian)
    &&& b.time_quality == u16_at(s, p + 174, little_endian)
    &&& b.timer_id@ == s.subrange(p + 176, p + 208)
}

impl HDBLOCK {
    /// Reads the header block at `position`; gives it and the position after it.
    pub fn read(stream: &[u8], position: usize, little_endian: bool) -> (r: (HDBLOCK, usize))
        requires
            hd_readable(stream@, position as int),
        ensures
            hd_fields(stream@, position as int, little_endian, r.0),
            r.1 == position + 208,
    {
        let mut pos = position;
        let mut block_type = [0u8; 2];
        read_array(stream, &mut block_type, &mut pos);
        let block_size = read_u16(stream, little_endian, &mut pos);
        let data_group_block = read_u32(stream, little_endian, &mut pos);
        let file_comment = read_u32(stream, little_endian, &mut pos);
        let program_block = read_u32(stream, little_endian, &mut pos);
        let data_group_number = read_u16(stream, little_endian, &mut pos);
        let mut date = [0u8; 10];
        read_array(stream, &mut date, &mut pos);
        let mut time = [0u8; 8];
        read_array(stream, &mut time, &mut pos);
        let mut author = [0u8; 32];
        read_array(stream, &mut author, &mut pos);
        let mut department = [0u8; 32];
        read_array(stream, &mut department, &mut pos);
        let mut project = [0u8; 32];
        read_array(stream, &mut project, &mut pos);
        let mut subject = [0u8; 32];
        read_array(stream, &mut subject, &mut pos);
        let timestamp = read_u64(stream, little_endian, &mut pos);
        let utc_time_offset = read_i16(stream, little_endian, &mut pos);
        let time_quality = read_u16(stream, little_endian, &mut pos);
        let mut timer_id = [0u8; 32];
        read_array(stream, &mut timer_id, &mut pos);
        (
            HDBLOCK {
                position,
                block_type,
                block_size,
                data_group_block,
                file_comment,
                program_block,
                data_group_number,
                date,
                time,
                author,
                department,
                project,
                subject,
                timestamp,
                utc_time_offset,
                time_quality,
                timer_id,
            },
            pos,
        )
    }
}

/// Program block (`PR`): data private to the program that wrote the file.
#[derive(Debug, Clone)]
pub struct PRBLOCK {
    pub block_type: [u8; 2],
    pub block_size: u16,
    pub program_data: Vec<u8>,
}

/// A program block can be read at `p`. Its data is taken from `p + 6` up to
/// the block size less `p + 6`, which must not lie before it.
pub open spec fn pr_readable(s: Seq<u8>, p: int, little_endian: bool) -> bool {
    let size = u16_at(s, p + 2, little_endian) as int;
    &&& fits(s, p, 4)
    &&& tag_at(s, p, 0x50, 0x52)
    &&& p + 6 <= size - (p + 6)
    &&& size - (p + 6) <= s.len()
}

/// Bytes of program data with every byte from 128 up replaced by a space.
pub open spec fn blank_non_ascii(b: Seq<u8>) -> Seq<u8> {
    b.map_values(|c: u8| if c >= 128 { 32u8 } else { c })
}

impl PRBLOCK {
    /// Reads the program block at `position`; gives it and the position after
    /// its data.
    pub fn read(stream: &[u8], position: usize, little_endian: bool) -> (r: (PRBLOCK, usize))
        requires
            pr_readable(stream@, position as int, little_endian),
        ensures
            r.0.block_type@ == stream@.subrange(position as int, position + 2),
            r.0.block_size == u16_at(stream@, position + 2, little_endian),
            r.0.program_data@ == blank_non_ascii(
                stream@.subrange(position + 6, r.0.block_size - (position + 6)),
            ),
            r.1 == r.0.block_size - (position + 6),
    {
        let total = stream.len();
        let mut pos = position;
        let mut block_type = [0u8; 2];
        read_array(stream, &mut block_type, &mut pos);
        let block_size = read_u16(stream, little_endian, &mut pos);
        pos = pos + 2;
        let end = block_size as usize - pos;
        let ghost raw = stream@.subrange(pos as int, end as int);
        let mut program_data: Vec<u8> = Vec::new();
        let mut i = pos;
        while i < end
            invariant
                pos <= i <= end,
                end <= stream@.len(),
                raw == stream@.subrange(pos as int, end as int),
                program_data@ == blank_non_ascii(raw.subrange(0, i - pos)),
            decreases end - i,
        {
            let c = stream[i];
            let kept = if 128 <= c {
                32u8
            } else {
                c
            };
            program_data.push(kept);
            i = i + 1;
            assert(program_data@ =~= blank_non_ascii(raw.subrange(0, i - pos)));
        }
        assert(raw.subrange(0, end - pos) =~= raw);
        let len = program_data.len();
        (PRBLOCK { block_type, block_size, program_data }, pos + len)
    }
}

/// Data group block, as the whole-file reader keeps it.
#[derive(Debug, Clone, Copy)]
pub struct DGBLOCK {
    pub block_type: [u8; 2],
    pub block_size: u16,
    pub next: u32,
    pub first: u32,
    pub trigger_block: u32,
    pub data_block: u32,
    pub group_number: u16,
    pub id_number: u16,
    pub reserved: u32,
}

impl DGBLOCK {
    /// The same fields as a data group block of the block modules.
    pub open spec fn model(self) -> Dgblock {
        Dgblock {
            block_type: self.block_type,
            block_size: self.block_size,
            next: self.next,
            first: self.first,
            trigger_block: self.trigger_block,
            data_block: self.data_block,
            group_number: self.group_number,
            id_number: self.id_number,
            reserved: self.reserved,
        }
    }

    /// Reads the data group block at `*position` and moves the position past it.
    pub fn read(stream: &[u8], little_endian: bool, position: &mut usize) -> (r: Self)
        requires
            dg_readable(stream@, *old(position) as int),
        ensures
            dg_fields(stream@, *old(position) as int, little_endian, r.model()),
            *final(position) == *old(position) + 28,
    {
        let (end, b) = Dgblock::read(stream, *position, little_endian);
        *position = end;
        DGBLOCK {
            block_type: b.block_type,
            block_size: b.block_size,
            next: b.next,
            first: b.first,
            trigger_block: b.trigger_block,
            data_block: b.data_block,
            group_number: b.group_number,
            id_number: b.id_number,
            reserved: b.reserved,
        }
    }

    /// The data groups of the chain that starts at `position`, in order.
    pub fn read_all(stream: &[u8], little_endian: bool, position: usize) -> (r: Vec<Self>)
        requires
            exists|fuel: nat| chain_ends::<Dgblock>(stream@, position as int, little_endian, fuel),
        ensures
            is_chain::<Dgblock>(stream@, position as int, little_endian, r@.map_values(|b: DGBLOCK| b.model())),
    {
        let mut all: Vec<Self> = Vec::new();
        let mut next_dg = position;
        let ghost mut fuel = choose|fuel: nat|
            chain_ends::<Dgblock>(stream@, position as int, little_endian, fuel);
        let ghost start = position as int;
        proof {
            assert forall|rest: Seq<Dgblock>| #[trigger] is_chain::<Dgblock>(stream@, start, little_endian, rest) implies is_chain::<Dgblock>(
                stream@,
                start,
                little_endian,
                all@.map_values(|b: DGBLOCK| b.model()) + rest,
            ) by {
                assert(all@.map_values(|b: DGBLOCK| b.model()) + rest =~= rest);
            }
        }
        while next_dg != 0
            invariant
                chain_ends::<Dgblock>(stream@, next_dg as int, little_endian, fuel),
                forall|rest: Seq<Dgblock>|
                    #[trigger] is_chain::<Dgblock>(stream@, next_dg as int, little_endian, rest) ==> is_chain::<Dgblock>(
                        stream@,
                        start,
                        little_endian,
                        all@.map_values(|b: DGBLOCK| b.model()) + rest,
                    ),
            decreases fuel,
        {
            let ghost here = next_dg as int;
            let ghost before = all@.map_values(|b: DGBLOCK| b.model());
            let dg_block = DGBLOCK::read(stream, little_endian, &mut next_dg);
            next_dg = dg_block.next as usize;
            all.push(dg_block);
            proof {
                let m = dg_block.model();
                assert(all@.map_values(|b: DGBLOCK| b.model()) =~= before.push(m));
                assert forall|rest: Seq<Dgblock>|
                    #[trigger] is_chain::<Dgblock>(stream@, next_dg as int, little_endian, rest) implies is_chain::<Dgblock>(
                    stream@,
                    start,
                    little_endian,
                    all@.map_values(|b: DGBLOCK| b.model()) + rest,
                ) by {
                    let longer = seq![m] + rest;
                    assert(longer.drop_first() =~= rest);
                    assert(is_chain::<Dgblock>(stream@, here, little_endian, longer));
                    assert(all@.map_values(|b: DGBLOCK| b.model()) + rest =~= before + longer);
                }
                fuel = (fuel - 1) as nat;
            }
        }
        proof {
            assert(is_chain::<Dgblock>(stream@, 0, little_endian, Seq::<Dgblock>::empty()));
            assert(all@.map_values(|b: DGBLOCK| b.model()) + Seq::<Dgblock>::empty() =~= all@.map_values(
                |b: DGBLOCK| b.model(),
            ));
        }
        all
    }
}

impl DGBLOCK {
    /// The channel groups of this data group, in the order of their chain
    /// (none when the group has no first channel group).
    pub fn read_channel_groups(self, stream: &[u8], little_endian: bool) -> (r: Vec<CGBLOCK>)
        requires
            exists|fuel: nat| chain_ends::<Cgblock>(stream@, self.first as int, little_endian, fuel),
        ensures
            is_chain::<Cgblock>(stream@, self.first as int, little_endian, r@.map_values(|b: CGBLOCK| b.model())),
    {
        if self.first == 0 {
            let none: Vec<CGBLOCK> = Vec::new();
            assert(none@.map_values(|b: CGBLOCK| b.model()) =~= Seq::<Cgblock>::empty());
            return none;
        }
        let ghost fuel = choose|fuel: nat|
            chain_ends::<Cgblock>(stream@, self.first as int, little_endian, fuel);
        let total = stream.len();
        let (_, first) = Cgblock::read(stream, self.first as usize, little_endian);
        assert(chain_ends::<Cgblock>(
            stream@,
            first.spec_next_link(),
            little_endian,
            (fuel - 1) as nat,
        ));
        let chain = collect_chain(first, stream, little_endian);
        assert(chain@ =~= seq![chain@[0]] + chain@.drop_first());
        let mut out: Vec<CGBLOCK> = Vec::new();
        let mut i: usize = 0;
        while i < chain.len()
            invariant
                i <= chain@.len(),
                out@.map_values(|b: CGBLOCK| b.model()) == chain@.subrange(0, i as int),
            decreases chain@.len() - i,
        {
            let c = chain[i];
            let ghost prev = out@;
            let item = CGBLOCK::from_model(c);
            out.push(item);
            assert(out@.map_values(|b: CGBLOCK| b.model()) =~= prev.map_values(|b: CGBLOCK| b.model()).push(
                item.model(),
            ));
            i = i + 1;
            assert(out@.map_values(|b: CGBLOCK| b.model()) =~= chain@.subrange(0, i as int));
        }
        assert(chain@.subrange(0, chain@.len() as int) =~= chain@);
        out
    }
}

/// Channel group block, as the whole-file reader keeps it.
#[derive(Debug, Clone, Copy)]
pub struct CGBLOCK {
    pub block_type: [u8; 2],
    pub block_size: u16,
    pub next: u32,
    pub first: u32,
    pub comment: u32,
    pub record_id: u16,
    pub channel_number: u16,
    pub record_size: u16,
    pub record_number: u32,
    pub first_sample_reduction_block: u32,
}

impl CGBLOCK {
    /// The same fields as a channel group block of the block modules.
    pub open spec fn model(self) -> Cgblock {
        Cgblock {
            block_type: self.block_type,
            block_size: self.block_size,
            next: self.next,
            first: self.first,
            comment: self.comment,
            record_id: self.record_id,
            number_of_channels: self.channel_number,
            record_size: self.record_size,
            record_number: self.record_number,
            first_sample_reduction_block: self.first_sample_reduction_block,
        }
    }

    fn from_model(b: Cgblock) -> (r: CGBLOCK)
        ensures
            r.model() == b,
    {
        CGBLOCK {
            block_type: b.block_type,
            block_size: b.block_size,
            next: b.next,
            first: b.first,
            comment: b.comment,
            record_id: b.record_id,
            channel_number: b.number_of_channels,
            record_size: b.record_size,
            record_number: b.record_number,
            first_sample_reduction_block: b.first_sample_reduction_block,
        }
    }

    /// Reads the channel group block at `position`; gives it and the position after it.
    pub fn read(stream: &[u8], little_endian: bool, position: usize) -> (r: (CGBLOCK, usize))
        requires
            cg_readable(stream@, position as int),
        ensures
            cg_fields(stream@, position as int, little_endian, r.0.model()),
            r.1 == position + 30,
    {
        let (end, b) = Cgblock::read(stream, position, little_endian);
        (CGBLOCK::from_model(b), end)
    }

    /// The channels of this group, in the order of their chain (none when the
    /// group has no first channel).
    pub fn channels(self, stream: &[u8], little_endian: bool) -> (r: Vec<CNBLOCK>)
        requires
            exists|fuel: nat| chain_ends::<Cnblock>(stream@, self.first as int, little_endian, fuel),
        ensures
            is_chain::<Cnblock>(stream@, self.first as int, little_endian, r@.map_values(|b: CNBLOCK| b.model())),
    {
        if self.first == 0 {
            let none: Vec<CNBLOCK> = Vec::new();
            assert(none@.map_values(|b: CNBLOCK| b.model()) =~= Seq::<Cnblock>::empty());
            return none;
        }
        let ghost fuel = choose|fuel: nat|
            chain_ends::<Cnblock>(stream@, self.first as int, little_endian, fuel);
        let total = stream.len();
        let (_, first) = read_cn(stream, self.first as usize, little_endian);
        assert(chain_ends::<Cnblock>(
            stream@,
            first.spec_next_link(),
            little_endian,
            (fuel - 1) as nat,
        ));
        let chain = collect_chain(first, stream, little_endian);
        assert(chain@ =~= seq![chain@[0]] + chain@.drop_first());
        let mut out: Vec<CNBLOCK> = Vec::new();
        let mut i: usize = 0;
        while i < chain.len()
            invariant
                i <= chain@.len(),
                out@.map_values(|b: CNBLOCK| b.model()) == chain@.subrange(0, i as int),
            decreases chain@.len() - i,
        {
            let c = chain[i];
            let ghost prev = out@;
            let item = CNBLOCK::from_model(c);
            out.push(item);
            assert(out@.map_values(|b: CNBLOCK| b.model()) =~= prev.map_values(|b: CNBLOCK| b.model()).push(
                item.model(),
            ));
            i = i + 1;
            assert(out@.map_values(|b: CNBLOCK| b.model()) =~= chain@.subrange(0, i as int));
        }
        assert(chain@.subrange(0, chain@.len() as int) =~= chain@);
        out
    }
}

/// Channel block, as the whole-file reader keeps it. The three floating point
/// fields are kept as the IEEE 754 bits stored in the file.
#[derive(Debug, Clone, Copy)]
pub struct CNBLOCK {
    pub block_type: [u8; 2],
    pub block_size: u16,
    pub next: u32,
    pub conversion_formula: u32,
    pub source_ext: u32,
    pub dependency: u32,
    pub comment: u32,
    pub channel_type: u16,
    pub short_name: [u8; 32],
    pub desc: [u8; 128],
    pub start_offset: u16,
    pub bit_number: u16,
    pub data_type: DataTypeRead,
    pub value_range_valid: u16,
    pub signal_min: u64,
    pub signal_max: u64,
    pub sample_rate: u64,
    pub long_name: u32,
    pub display_name: u32,
    pub addition_byte_offset: u16,
}

impl CNBLOCK {
    /// The same fields as a channel block of the block modules.
    pub open spec fn model(self) -> Cnblock {
        Cnblock {
            block_type: self.block_type,
            block_size: self.block_size,
            next: self.next,
            conversion_formula: self.conversion_formula,
            source_ext: self.source_ext,
            dependency: self.dependency,
            comment: self.comment,
            channel_type: self.channel_type,
            short_name: self.short_name,
            desc: self.desc,
            start_offset: self.start_offset,
            bit_number: self.bit_number,
            data_type: self.data_type,
            value_range_valid: self.value_range_valid,
            signal_min: self.signal_min,
            signal_max: self.signal_max,
            sample_rate: self.sample_rate,
            long_name: self.long_name,
            display_name: self.display_name,
            addition_byte_offset: self.addition_byte_offset,
        }
    }

    fn from_model(b: Cnblock) -> (r: CNBLOCK)
        ensures
            r.model() == b,
    {
        CNBLOCK {
            block_type: b.block_type,
            block_size: b.block_size,
            next: b.next,
            conversion_formula: b.conversion_formula,
            source_ext: b.source_ext,
            dependency: b.dependency,
            comment: b.comment,
            channel_type: b.channel_type,
            short_name: b.short_name,
            desc: b.desc,
            start_offset: b.start_offset,
            bit_number: b.bit_number,
            data_type: b.data_type,
            value_range_valid: b.value_range_valid,
            signal_min: b.signal_min,
            signal_max: b.signal_max,
            sample_rate: b.sample_rate,
            long_name: b.long_name,
            display_name: b.display_name,
            addition_byte_offset: b.addition_byte_offset,
        }
    }

    /// Reads the channel block at `position`; gives it and the position after
    /// it. Its data type code must be one that MDF version 3 defines.
    pub fn read(stream: &[u8], little_endian: bool, position: usize) -> (r: (CNBLOCK, usize))
        requires
            cn_readable(stream@, position as int, little_endian),
        ensures
            cn_fields(stream@, position as int, little_endian, r.0.model()),
            r.1 == position + 228,
    {
        let (end, b) = read_cn(stream, position, little_endian);
        (CNBLOCK::from_model(b), end)
    }

    /// The channel's name: `time` for the time channel, else the text of its
    /// long name block.
    pub fn name(self, stream: &[u8], little_endian: bool) -> (r: String)
        requires
            channel_name_readable(stream@, little_endian, self.channel_type, self.long_name),
        ensures
            r@ == channel_name(stream@, little_endian, self.channel_type, self.long_name),
    {
        read_channel_name(stream, little_endian, self.channel_type, self.long_name)
    }
}

/// Conversion block, as the whole-file reader keeps it, read from the start
/// of its bytes. The physical range is kept as IEEE 754 bits.
#[derive(Debug, Clone)]
pub struct CCBLOCK {
    pub block_type: [u8; 2],
    pub block_size: u16,
    pub physical_range_valid: u16,
    pub physical_min: u64,
    pub physical_max: u64,
    pub unit: [u8; 20],
    pub conversion_type: u16,
    pub size_info: u16,
    pub conversion_data: ConversionData,
}

impl CCBLOCK {
    /// The same fields as a conversion block of the block modules.
    pub open spec fn model(self) -> Ccblock {
        Ccblock {
            block_type: self.block_type,
            block_size: self.block_size,
            physical_range_valid: self.physical_range_valid,
            physical_min: self.physical_min,
            physical_max: self.physical_max,
            unit: self.unit,
            conversion_type: self.conversion_type,
            size_info: self.size_info,
            conversion_data: self.conversion_data,
        }
    }

    /// Reads the conversion block at the start of `stream`; the position
    /// after it counts one byte of conversion data.
    pub fn read(stream: &[u8], little_endian: bool) -> (r: (CCBLOCK, usize))
        requires
            cc_readable(stream@, 0),
        ensures
            cc_fields(stream@, 0, little_endian, r.0.model()),
            r.1 == 47,
    {
        let (end, b) = Ccblock::read(stream, 0, little_endian);
        (
            CCBLOCK {
                block_type: b.block_type,
                block_size: b.block_size,
                physical_range_valid: b.physical_range_valid,
                physical_min: b.physical_min,
                physical_max: b.physical_max,
                unit: b.unit,
                conversion_type: b.conversion_type,
                size_info: b.size_info,
                conversion_data: b.conversion_data,
            },
            end,
        )
    }
}

/// The parametric conversion formulas, as the whole-file reader names them.
#[derive(Debug, Clone, Copy, PartialEq, Eq, Structural)]
pub enum Parameters {
    ConversionLinear,
    ConversionPoly,
    ConversionExponetial,
    ConversionLog,
    ConversionRational,
}

impl Parameters {
    /// Always the linear formula, with its ten bytes counted.
    pub fn read(_data: &[u8], _little_endian: bool) -> (r: (Parameters, usize))
        ensures
            r.0 == Parameters::ConversionLinear,
            r.1 == 10,
    {
        (Parameters::ConversionLinear, 10)
    }
}

/// Channel dependency block, as the whole-file reader keeps it, read from the
/// start of its bytes without a check of its type.
#[derive(Debug, Clone)]
pub struct CDBLOCK {
    pub block_type: [u8; 2],
    pub block_size: u16,
    pub dependency_type: u16,
    pub signal_number: u16,
    pub groups: Vec<Signals>,
    pub dims: Vec<u16>,
}

impl CDBLOCK {
    /// Reads the dependency block at the start of `stream`; gives it and the
    /// position after its dimensions.
    pub fn read(stream: &[u8], little_endian: bool) -> (r: (CDBLOCK, usize))
        requires
            fits(stream@, 0, 8),
            dependencies_readable(
                stream@,
                0,
                little_endian,
                u16_at(stream@, 6, little_endian),
                u16_at(stream@, 4, little_endian),
            ),
        ensures
            r.0.block_type@ == stream@.subrange(0, 2),
            r.0.block_size == u16_at(stream@, 2, little_endian),
            r.0.dependency_type == u16_at(stream@, 4, little_endian),
            r.0.signal_number == u16_at(stream@, 6, little_endian),
            dependencies_fields(
                stream@,
                0,
                little_endian,
                r.0.signal_number,
                r.0.dependency_type,
                r.0.groups@,
                r.0.dims@,
            ),
            r.1 == cd_dims_start(0, r.0.signal_number) + 2 * (dependency_count(r.0.dependency_type) - 1),
    {
        let mut position: usize = 0;
        let mut block_type = [0u8; 2];
        read_array(stream, &mut block_type, &mut position);
        let block_size = read_u16(stream, little_endian, &mut position);
        let dependency_type = read_u16(stream, little_endian, &mut position);
        let signal_number = read_u16(stream, little_endian, &mut position);
        let (groups, dims, end) = read_dependencies(
            stream,
            0,
            little_endian,
            signal_number,
            dependency_type,
        );
        (CDBLOCK { block_type, block_size, dependency_type, signal_number, groups, dims }, end)
    }
}

/// Channel extension block, read from the start of its bytes.
#[derive(Debug, Clone)]
pub struct CEBLOCK {
    pub block_type: [u8; 2],
    pub block_size: u16,
    pub extension_type: u16,
    pub additional: Vec<u8>,
}

impl CEBLOCK {
    /// Reads the extension block at the start of `stream`: the extension data
    /// runs from byte 6 to the block size. The position handed back is 6.
    pub fn read(stream: &[u8], little_endian: bool) -> (r: (CEBLOCK, usize))
        requires
            stream@.len() >= 6,
            6 <= u16_at(stream@, 2, little_endian) <= stream@.len(),
        ensures
            r.0.block_type@ == stream@.subrange(0, 2),
            r.0.block_size == u16_at(stream@, 2, little_endian),
            r.0.extension_type == u16_at(stream@, 4, little_endian),
            r.0.additional@ == stream@.subrange(6, r.0.block_size as int),
            r.1 == 6,
    {
        let mut position: usize = 0;
        let mut block_type = [0u8; 2];
        read_array(stream, &mut block_type, &mut position);
        let block_size = read_u16(stream, little_endian, &mut position);
        let extension_type = read_u16(stream, little_endian, &mut position);
        let rest = vstd::slice::slice_subrange(stream, position, block_size as usize);
        let additional = crate::utils::bytes_to_vec(rest);
        (CEBLOCK { block_type, block_size, extension_type, additional }, position)
    }
}

/// `x` doubled `k` times.
pub open spec fn doubled(x: int, k: nat) -> int
    decreases k,
{
    if k == 0 {
        x
    } else {
        2 * doubled(x, (k - 1) as nat)
    }
}

proof fn lemma_doubled_monotone(x: int, i: nat, j: nat)
    requires
        x >= 0,
        i <= j,
    ensures
        0 <= doubled(x, i) <= doubled(x, j),
    decreases j,
{
    if i < j {
        lemma_doubled_monotone(x, i, (j - 1) as nat);
    } else if j > 0 {
        lemma_doubled_monotone(x, 0, (j - 1) as nat);
    }
}

/// Trigger block (`TR`): a comment link and the trigger events.
#[derive(Debug, Clone)]
pub struct TRBLOCK {
    pub block_type: [u8; 2],
    pub block_size: u16,
    pub trigger_comment: u32,
    pub trigger_events_number: u16,
    pub events: Vec<Event>,
}

/// A trigger block can be read at `p`. The size is read at twice the
/// position after the type, the comment link at twice the position after the
/// size; the `n` events are read at `p + 10`, then each at twice the position
/// of the one before.
pub open spec fn tr_readable(s: Seq<u8>, p: int, little_endian: bool) -> bool {
    let n = u16_at(s, p + 8, little_endian) as nat;
    &&& fits(s, p, 10)
    &&& tag_at(s, p, 0x54, 0x52)
    &&& 2 * p + 12 <= s.len()
    &&& n >= 1 ==> doubled(p + 10, (n - 1) as nat) + 24 <= s.len()
    &&& doubled(p + 10, n) <= usize::MAX
}

/// Reads the `no_events` events at `position`, each at twice the position of
/// the one before; gives them and `position`.
fn read_events(stream: &[u8], position: usize, little_endian: bool, no_events: u16) -> (r: (
    Vec<Event>,
    usize,
))
    requires
        position > 0,
        no_events >= 1 ==> doubled(position as int, (no_events - 1) as nat) + 24 <= stream@.len(),
        doubled(position as int, no_events as nat) <= usize::MAX,
    ensures
        r.0@.len() == no_events,
        forall|k: int|
            0 <= k < no_events ==> #[trigger] r.0@[k] == Event::spec_read(
                stream@,
                doubled(position as int, k as nat),
                little_endian,
            ),
        r.1 == position,
{
    let mut events: Vec<Event> = Vec::new();
    let mut pos1 = position;
    let mut i: u16 = 0;
    while i < no_events
        invariant
            position > 0,
            no_events >= 1 ==> doubled(position as int, (no_events - 1) as nat) + 24 <= stream@.len(),
            doubled(position as int, no_events as nat) <= usize::MAX,
            i <= no_events,
            pos1 == doubled(position as int, i as nat),
            events@.len() == i,
            forall|k: int|
                0 <= k < i ==> #[trigger] events@[k] == Event::spec_read(
                    stream@,
                    doubled(position as int, k as nat),
                    little_endian,
                ),
        decreases no_events - i,
    {
        proof {
            lemma_doubled_monotone(position as int, i as nat, (no_events - 1) as nat);
            lemma_doubled_monotone(position as int, (i + 1) as nat, no_events as nat);
        }
        let (event, pos) = Event::read(stream, pos1, little_endian);
        events.push(event);
        pos1 = pos1 + pos;
        i = i + 1;
    }
    (events, position)
}

impl TRBLOCK {
    /// Reads the trigger block at `position`; gives it and the position of its
    /// first event.
    pub fn read(stream: &[u8], little_endian: bool, position: usize) -> (r: (TRBLOCK, usize))
        requires
            tr_readable(stream@, position as int, little_endian),
        ensures
            r.0.block_type@ == stream@.subrange(position as int, position + 2),
            r.0.block_size == u16_at(stream@, 2 * position + 4, little_endian),
            r.0.trigger_comment == u32_at(stream@, 2 * position + 8, little_endian),
            r.0.trigger_events_number == u16_at(stream@, position + 8, little_endian),
            r.0.events@.len() == r.0.trigger_events_number,
            forall|k: int|
                0 <= k < r.0.trigger_events_number ==> #[trigger] r.0.events@[k] == Event::spec_read(
                    stream@,
                    doubled(position + 10, k as nat),
                    little_endian,
                ),
            r.1 == position + 10,
    {
        let total = stream.len();
        let mut pos = position;
        let mut block_type = [0u8; 2];
        read_array(stream, &mut block_type, &mut pos);
        let rest = vstd::slice::slice_subrange(stream, pos, stream.len());
        let at = pos;
        let block_size = read_u16(rest, little_endian, &mut pos);
        proof {
            crate::utils::lemma_uint_ext(rest@, at as int, stream@, 2 * at, 2);
        }
        let rest = vstd::slice::slice_subrange(stream, pos, stream.len());
        let at = pos;
        let trigger_comment = read_u32(rest, little_endian, &mut pos);
        proof {
            crate::utils::lemma_uint_ext(rest@, at as int, stream@, 2 * at, 4);
        }
        let trigger_events_number = read_u16(stream, little_endian, &mut pos);
        let (events, pos) = read_events(stream, pos, little_endian, trigger_events_number);
        (TRBLOCK { block_type, block_size, trigger_comment, trigger_events_number, events }, pos)
    }
}

} // verus!
