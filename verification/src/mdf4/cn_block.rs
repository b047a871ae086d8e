//! Channel block (`##CN`) of an MDF version 4 file. The six floating point
//! limits are kept as the IEEE 754 bits stored in the file.
use crate::mdf4::block::{chain_ends, collect_chain, is_chain, Block, CheckedLink, LinkedBlock};
use crate::mdf4::block_header::{
    check_id, check_links_fit, data_offset, data_start, header_fields, id_at, link_count_at,
    links_fit, BlockHeader, HEADER_LEN,
};
use crate::mdf4::mdf4_enums::{ChannelType, DataType, SyncType};
use crate::mdf4::tx_block::{tx_payload, Txblock};
use crate::mdf4::utils::until_nul;
use crate::mdf4::{link_extract, links_at, take_links};
use crate::utils::{read_u16, read_u32, read_u64, read_u8, u16_at, u32_at, u64_at};
use vstd::prelude::*;
use vstd::string::StringExecFns;
use vstd::utf8::encode_utf8;

verus! {

#[derive(Debug, Clone)]
pub struct Cnblock {
    pub header: BlockHeader,
    pub cn_cn_next: u64,
    pub cn_composition: u64,
    pub cn_tx_name: u64,
    pub cn_si_source: u64,
    pub cn_cc_conversion: u64,
    pub cn_data: u64,
    pub cn_md_unit: u64,
    pub cn_md_comment: u64,
    pub cn_at_reference: Vec<u64>,
    pub cn_default_x: Vec<u64>,
    pub channel_type: ChannelType,
    pub sync_type: SyncType,
    pub data_type: DataType,
    pub bit_offset: u8,
    pub byte_offset: u32,
    pub bit_count: u32,
    pub flags: u32,
    pub pos_invalidation_bit: u32,
    pub precision: u8,
    pub reserved1: u8,
    pub attachment_nr: u16,
    pub min_raw_value: u64,
    pub max_raw_value: u64,
    pub lower_limit: u64,
    pub upper_limit: u64,
    pub lower_ext_limit: u64,
    pub upper_ext_limit: u64,
}

/// The flag that marks a channel with a default X axis.
pub const DEFAULT_X_FLAG: u32 = 4096;

/// Number of default X links that a channel with these flags has.
pub open spec fn default_x_count(flags: u32) -> int {
    if flags == DEFAULT_X_FLAG {
        3
    } else {
        0
    }
}

/// A channel block can be read at `p`: its codes name a channel type, a
/// sync type and a data type, and it links to its attachments and, where
/// its flags ask for it, to a default X axis.
pub open spec fn cn_readable(s: Seq<u8>, p: int, little_endian: bool) -> bool {
    let q = data_start(s, p, little_endian);
    &&& links_fit(s, p, little_endian, 8, 72)
    &&& id_at(s, p, 0x43, 0x4E)
    &&& s[q] <= 6
    &&& s[q + 1] <= 4
    &&& s[q + 2] <= 13
    &&& link_count_at(s, p, little_endian) >= 8 + u16_at(s, q + 22, little_endian) + default_x_count(
        u32_at(s, q + 12, little_endian),
    )
}

/// `b` holds the channel block stored at `p`.
pub open spec fn cn_fields(s: Seq<u8>, p: int, little_endian: bool, b: Cnblock) -> bool {
    let q = data_start(s, p, little_endian);
    let links = links_at(s, p + 24, little_endian, link_count_at(s, p, little_endian) as nat);
    let at_end = 8 + b.attachment_nr;
    &&& link_count_at(s, p, little_endian) >= 8
    &&& header_fields(s, p, little_endian, b.header)
    &&& b.cn_cn_next == links[0]
    &&& b.cn_composition == links[1]
    &&& b.cn_tx_name == links[2]
    &&& b.cn_si_source == links[3]
    &&& b.cn_cc_conversion == links[4]
    &&& b.cn_data == links[5]
    &&& b.cn_md_unit == links[6]
    &&& b.cn_md_comment == links[7]
    &&& b.cn_at_reference@ == links.subrange(8, at_end)
    &&& b.cn_default_x@ == links.subrange(at_end, at_end + default_x_count(b.flags))
    &&& b.channel_type == ChannelType::spec_new(s[q])
    &&& b.sync_type == SyncType::spec_new(s[q + 1])
    &&& b.data_type == DataType::spec_new(s[q + 2])
    &&& b.bit_offset == s[q + 3]
    &&& b.byte_offset == u32_at(s, q + 4, little_endian)
    &&& b.bit_count == u32_at(s, q + 8, little_endian)
    &&& b.flags == u32_at(s, q + 12, little_endian)
    &&& b.pos_invalidation_bit == u32_at(s, q + 16, little_endian)
    &&& b.precision == s[q + 20]
    &&& b.reserved1 == s[q + 21]
    &&& b.attachment_nr == u16_at(s, q + 22, little_endian)
    &&& b.min_raw_value == u64_at(s, q + 24, little_endian)
    &&& b.max_raw_value == u64_at(s, q + 32, little_endian)
    &&& b.lower_limit == u64_at(s, q + 40, little_endian)
    &&& b.upper_limit == u64_at(s, q + 48, little_endian)
    &&& b.lower_ext_limit == u64_at(s, q + 56, little_endian)
    &&& b.upper_ext_limit == u64_at(s, q + 64, little_endian)
}

/// `a` and `b` hold the same values.
pub open spec fn same_channel(a: Cnblock, b: Cnblock) -> bool {
    &&& a.header == b.header
    &&& a.cn_cn_next == b.cn_cn_next
    &&& a.cn_composition == b.cn_composition
    &&& a.cn_tx_name == b.cn_tx_name
    &&& a.cn_si_source == b.cn_si_source
    &&& a.cn_cc_conversion == b.cn_cc_conversion
    &&& a.cn_data == b.cn_data
    &&& a.cn_md_unit == b.cn_md_unit
    &&& a.cn_md_comment == b.cn_md_comment
    &&& a.cn_at_reference@ == b.cn_at_reference@
    &&& a.cn_default_x@ == b.cn_default_x@
    &&& a.channel_type == b.channel_type
    &&& a.sync_type == b.sync_type
    &&& a.data_type == b.data_type
    &&& a.bit_offset == b.bit_offset
    &&& a.byte_offset == b.byte_offset
    &&& a.bit_count == b.bit_count
    &&& a.flags == b.flags
    &&& a.pos_invalidation_bit == b.pos_invalidation_bit
    &&& a.precision == b.precision
    &&& a.reserved1 == b.reserved1
    &&& a.attachment_nr == b.attachment_nr
    &&& a.min_raw_value == b.min_raw_value
    &&& a.max_raw_value == b.max_raw_value
    &&& a.lower_limit == b.lower_limit
    &&& a.upper_limit == b.upper_limit
    &&& a.lower_ext_limit == b.lower_ext_limit
    &&& a.upper_ext_limit == b.upper_ext_limit
}

impl Cnblock {
    /// The bit offset of the channel (the field named for the byte offset
    /// is not what this gives).
    pub fn byte_offset(&self) -> (r: usize)
        ensures
            r == self.bit_offset,
    {
        self.bit_offset as usize
    }

    pub fn data_type(&self) -> (r: DataType)
        ensures
            r == self.data_type,
    {
        self.data_type
    }

    pub fn data_type_len(&self) -> (r: usize)
        ensures
            r == self.data_type.byte_width(),
    {
        self.data_type.len()
    }

    pub fn channel_type(&self) -> (r: ChannelType)
        ensures
            r == self.channel_type,
    {
        self.channel_type
    }

    /// The channel's name: `time` for the master channel, else the text of
    /// its name block, else empty text.
    pub fn comment(self, stream: &[u8], little_endian: bool) -> (r: String)
        requires
            self.channel_type != ChannelType::Master && self.cn_tx_name != 0
                ==> Txblock::spec_readable(stream@, self.cn_tx_name as int, little_endian),
        ensures
            self.channel_type == ChannelType::Master ==> r@ == seq!['t', 'i', 'm', 'e'],
            self.channel_type != ChannelType::Master && self.cn_tx_name == 0 ==> r@ == Seq::<
                char,
            >::empty(),
            self.channel_type != ChannelType::Master && self.cn_tx_name != 0 ==> encode_utf8(r@)
                == until_nul(tx_payload(stream@, self.cn_tx_name as int, little_endian)),
    {
        if self.channel_type == ChannelType::Master {
            let name = String::from_str("time");
            proof {
                reveal_strlit("time");
            }
            assert(name@ =~= seq!['t', 'i', 'm', 'e']);
            name
        } else if self.cn_tx_name != 0 {
            let total = stream.len();
            let (_, tx) = Txblock::read(stream, self.cn_tx_name as usize, little_endian);
            tx.text()
        } else {
            String::new()
        }
    }

    /// A copy holding the same values.
    pub fn duplicate(&self) -> (r: Cnblock)
        ensures
            same_channel(r, *self),
    {
        let at = take_links(&self.cn_at_reference, 0, self.cn_at_reference.len());
        let dx = take_links(&self.cn_default_x, 0, self.cn_default_x.len());
        assert(self.cn_at_reference@.subrange(0, self.cn_at_reference@.len() as int) =~= self.cn_at_reference@);
        assert(self.cn_default_x@.subrange(0, self.cn_default_x@.len() as int) =~= self.cn_default_x@);
        Cnblock {
            header: self.header,
            cn_cn_next: self.cn_cn_next,
            cn_composition: self.cn_composition,
            cn_tx_name: self.cn_tx_name,
            cn_si_source: self.cn_si_source,
            cn_cc_conversion: self.cn_cc_conversion,
            cn_data: self.cn_data,
            cn_md_unit: self.cn_md_unit,
            cn_md_comment: self.cn_md_comment,
            cn_at_reference: at,
            cn_default_x: dx,
            channel_type: self.channel_type,
            sync_type: self.sync_type,
            data_type: self.data_type,
            bit_offset: self.bit_offset,
            byte_offset: self.byte_offset,
            bit_count: self.bit_count,
            flags: self.flags,
            pos_invalidation_bit: self.pos_invalidation_bit,
            precision: self.precision,
            reserved1: self.reserved1,
            attachment_nr: self.attachment_nr,
            min_raw_value: self.min_raw_value,
            max_raw_value: self.max_raw_value,
            lower_limit: self.lower_limit,
            upper_limit: self.upper_limit,
            lower_ext_limit: self.lower_ext_limit,
            upper_ext_limit: self.upper_ext_limit,
        }
    }

    /// This channel followed by the channels that its chain of links reaches.
    pub fn list(&self, stream: &[u8], little_endian: bool) -> (r: Vec<Cnblock>)
        requires
            exists|fuel: nat| chain_ends::<Cnblock>(stream@, self.cn_cn_next as int, little_endian, fuel),
        ensures
            r@.len() >= 1,
            same_channel(r@[0], *self),
            is_chain::<Cnblock>(stream@, self.cn_cn_next as int, little_endian, r@.drop_first()),
    {
        let first = self.duplicate();
        collect_chain(first, stream, little_endian)
    }
}

/// Two readings of the channel chain at `p` hold the same values, channel
/// by channel.
pub proof fn lemma_cn_chains_agree(
    s: Seq<u8>,
    p: int,
    little_endian: bool,
    a: Seq<Cnblock>,
    b: Seq<Cnblock>,
)
    requires
        is_chain::<Cnblock>(s, p, little_endian, a),
        is_chain::<Cnblock>(s, p, little_endian, b),
    ensures
        a.len() == b.len(),
        forall|k: int| 0 <= k < a.len() ==> same_channel(#[trigger] a[k], b[k]),
    decreases a.len(),
{
    broadcast use vstd::array::group_array_axioms;

    if p != 0 {
        assert(a[0].header.id =~= b[0].header.id);
        assert(a[0].header.reserved0 =~= b[0].header.reserved0);
        assert(same_channel(a[0], b[0]));
        lemma_cn_chains_agree(s, a[0].cn_cn_next as int, little_endian, a.drop_first(), b.drop_first());
        assert forall|k: int| 0 <= k < a.len() implies same_channel(#[trigger] a[k], b[k]) by {
            if k > 0 {
                assert(a[k] == a.drop_first()[k - 1]);
                assert(b[k] == b.drop_first()[k - 1]);
            }
        }
    }
}

impl CheckedLink for Cnblock {
    fn link_readable(stream: &[u8], position: u64, little_endian: bool) -> (r: bool) {
        position <= stream.len() as u64 && <Cnblock as Block>::is_readable(
            stream,
            position as usize,
            little_endian,
        )
    }

    fn read_link(stream: &[u8], position: u64, little_endian: bool) -> (r: Self) {
        let total = stream.len();
        let (_, block) = <Cnblock as Block>::read(stream, position as usize, little_endian);
        block
    }

    fn next_link(&self) -> (r: u64) {
        self.cn_cn_next
    }
}

impl LinkedBlock for Cnblock {
    open spec fn spec_next_link(&self) -> int {
        self.cn_cn_next as int
    }

    open spec fn spec_link_readable(stream: Seq<u8>, position: int, little_endian: bool) -> bool {
        cn_readable(stream, position, little_endian)
    }

    open spec fn spec_link_at(stream: Seq<u8>, position: int, little_endian: bool) -> int {
        u64_at(stream, position + 24, little_endian) as int
    }

    open spec fn spec_block_at(
        stream: Seq<u8>,
        position: int,
        little_endian: bool,
        block: Self,
    ) -> bool {
        cn_fields(stream, position, little_endian, block)
    }

    proof fn lemma_link_of_block(
        stream: Seq<u8>,
        position: int,
        little_endian: bool,
        block: Self,
    ) {
    }

    fn next(&self, stream: &[u8], little_endian: bool) -> (r: Option<Self>) {
        if self.cn_cn_next == 0 {
            None
        } else {
            let total = stream.len();
            let (_, block) = Self::read(stream, self.cn_cn_next as usize, little_endian);
            Some(block)
        }
    }
}

impl Block for Cnblock {
    open spec fn spec_is_new(&self) -> bool {
        &&& self.header.id@ == seq![0x23u8, 0x23u8, 0x43u8, 0x4Eu8]
        &&& self.header.reserved0@ == seq![0u8, 0u8, 0u8, 0u8]
        &&& self.header.length == 50
        &&& self.header.link_count == 0
        &&& self.cn_cn_next == 0
        &&& self.cn_composition == 0
        &&& self.cn_tx_name == 0
        &&& self.cn_si_source == 0
        &&& self.cn_cc_conversion == 0
        &&& self.cn_data == 0
        &&& self.cn_md_unit == 0
        &&& self.cn_md_comment == 0
        &&& self.cn_at_reference@ == Seq::<u64>::empty()
        &&& self.cn_default_x@ == Seq::<u64>::empty()
        &&& self.channel_type == ChannelType::FixedLength
        &&& self.sync_type == SyncType::Angle
        &&& self.data_type == DataType::ByteArray
        &&& self.bit_offset == 0
        &&& self.byte_offset == 0
        &&& self.bit_count == 0
        &&& self.flags == 0
        &&& self.pos_invalidation_bit == 0
        &&& self.precision == 0
        &&& self.reserved1 == 0
        &&& self.attachment_nr == 0
        &&& self.min_raw_value == 0
        &&& self.max_raw_value == 0
        &&& self.lower_limit == 0
        &&& self.upper_limit == 0
        &&& self.lower_ext_limit == 0
        &&& self.upper_ext_limit == 0
    }

    open spec fn spec_is_default(&self) -> bool {
        self.spec_is_new()
    }

    open spec fn spec_readable(stream: Seq<u8>, position: int, little_endian: bool) -> bool {
        cn_readable(stream, position, little_endian)
    }

    open spec fn spec_read_result(
        stream: Seq<u8>,
        position: int,
        little_endian: bool,
        end: int,
        block: Self,
    ) -> bool {
        &&& end == data_start(stream, position, little_endian) + 72
        &&& cn_fields(stream, position, little_endian, block)
    }

    open spec fn spec_has_byte_len(&self) -> bool {
        160 + 8 * (self.cn_at_reference@.len() + self.cn_default_x@.len()) <= usize::MAX
    }

    /// Header, eight links, the fixed fields, and the attachment and default
    /// X links.
    open spec fn spec_byte_len(&self) -> nat {
        160 + 8 * (self.cn_at_reference@.len() + self.cn_default_x@.len())
    }

    fn new() -> (r: Self) {
        let header = BlockHeader::with_id([0x23u8, 0x23u8, 0x43u8, 0x4Eu8], 50, 0);
        assert(header.id@ =~= seq![0x23u8, 0x23u8, 0x43u8, 0x4Eu8]);
        Cnblock {
            header,
            cn_cn_next: 0,
            cn_composition: 0,
            cn_tx_name: 0,
            cn_si_source: 0,
            cn_cc_conversion: 0,
            cn_data: 0,
            cn_md_unit: 0,
            cn_md_comment: 0,
            cn_at_reference: Vec::new(),
            cn_default_x: Vec::new(),
            channel_type: ChannelType::FixedLength,
            sync_type: SyncType::Angle,
            data_type: DataType::ByteArray,
            bit_offset: 0,
            byte_offset: 0,
            bit_count: 0,
            flags: 0,
            pos_invalidation_bit: 0,
            precision: 0,
            reserved1: 0,
            attachment_nr: 0,
            min_raw_value: 0,
            max_raw_value: 0,
            lower_limit: 0,
            upper_limit: 0,
            lower_ext_limit: 0,
            upper_ext_limit: 0,
        }
    }

    fn default() -> (r: Self) {
        Self::new()
    }

    fn is_readable(stream: &[u8], position: usize, little_endian: bool) -> (r: bool) {
        if !check_links_fit(stream, position, little_endian, 8, 72) {
            return false;
        }
        if !check_id(stream, position, 0x43, 0x4E) {
            return false;
        }
        let total = stream.len();
        let q = data_offset(stream, position, little_endian);
        let mut p = q + 12;
        let flags = read_u32(stream, little_endian, &mut p);
        let mut p = q + 22;
        let attachment_nr = read_u16(stream, little_endian, &mut p);
        let mut c = position + 16;
        let link_count = read_u64(stream, little_endian, &mut c);
        let extra: u64 = if flags == DEFAULT_X_FLAG {
            3
        } else {
            0
        };
        &&& stream[q] <= 6
        &&& stream[q + 1] <= 4
        &&& stream[q + 2] <= 13
        &&& link_count - 8 >= attachment_nr as u64 + extra
    }

    fn read(stream: &[u8], position: usize, little_endian: bool) -> (r: (usize, Self)) {
        let total = stream.len();
        let (pos, header) = BlockHeader::read(stream, position, little_endian);
        let (mut pos, addresses) = link_extract(stream, pos, little_endian, header.link_count);
        let channel_type = ChannelType::new(read_u8(stream, &mut pos));
        let sync_type = SyncType::new(read_u8(stream, &mut pos));
        let data_type = DataType::new(read_u8(stream, &mut pos));
        let bit_offset = read_u8(stream, &mut pos);
        let byte_offset = read_u32(stream, little_endian, &mut pos);
        let bit_count = read_u32(stream, little_endian, &mut pos);
        let flags = read_u32(stream, little_endian, &mut pos);
        let pos_invalidation_bit = read_u32(stream, little_endian, &mut pos);
        let precision = read_u8(stream, &mut pos);
        let reserved1 = read_u8(stream, &mut pos);
        let attachment_nr = read_u16(stream, little_endian, &mut pos);
        let min_raw_value = read_u64(stream, little_endian, &mut pos);
        let max_raw_value = read_u64(stream, little_endian, &mut pos);
        let lower_limit = read_u64(stream, little_endian, &mut pos);
        let upper_limit = read_u64(stream, little_endian, &mut pos);
        let lower_ext_limit = read_u64(stream, little_endian, &mut pos);
        let upper_ext_limit = read_u64(stream, little_endian, &mut pos);
        let cn_at_reference = take_links(&addresses, 8, attachment_nr as usize);
        let default_x = flags == DEFAULT_X_FLAG;
        let cn_default_x = if default_x {
            take_links(&addresses, 8 + attachment_nr as usize, 3)
        } else {
            Vec::new()
        };
        assert(cn_default_x@ =~= addresses@.subrange(
            8 + attachment_nr as int,
            8 + attachment_nr + default_x_count(flags),
        ));
        (
            pos,
            Cnblock {
                header,
                cn_cn_next: addresses[0],
                cn_composition: addresses[1],
                cn_tx_name: addresses[2],
                cn_si_source: addresses[3],
                cn_cc_conversion: addresses[4],
                cn_data: addresses[5],
                cn_md_unit: addresses[6],
                cn_md_comment: addresses[7],
                cn_at_reference,
                cn_default_x,
                channel_type,
                sync_type,
                data_type,
                bit_offset,
                byte_offset,
                bit_count,
                flags,
                pos_invalidation_bit,
                precision,
                reserved1,
                attachment_nr,
                min_raw_value,
                max_raw_value,
                lower_limit,
                upper_limit,
                lower_ext_limit,
                upper_ext_limit,
            },
        )
    }

    fn byte_len(&self) -> (r: usize) {
        let mut length = HEADER_LEN + 8 * 8 + 1 + 1 + 1 + 1 + 4 + 4 + 4 + 4 + 1 + 1 + 2 + 8 * 6;
        if self.cn_at_reference.len() > 0 {
            length = length + 8 * self.cn_at_reference.len();
        }
        if self.cn_default_x.len() > 0 {
            length = length + 8 * self.cn_default_x.len();
        }
        length
    }
}

/// A channel block read with exactly the links it uses takes, as `byte_len`
/// says, as many bytes as reading it consumes.
pub proof fn lemma_cn_byte_len_is_read_len(
    stream: Seq<u8>,
    position: int,
    little_endian: bool,
    end: int,
    block: Cnblock,
)
    requires
        Cnblock::spec_readable(stream, position, little_endian),
        Cnblock::spec_read_result(stream, position, little_endian, end, block),
        link_count_at(stream, position, little_endian) == 8 + block.attachment_nr + default_x_count(
            block.flags,
        ),
    ensures
        end - position == block.spec_byte_len(),
{
}

} // verus!
