//! Event block (`##EV`): something that happened during the measurement.
//! The synchronisation factor is kept as the IEEE 754 bits stored in the file.
use crate::mdf4::block::Block;
use crate::mdf4::block_header::{
    check_links_fit, data_offset, data_start, header_fields, link_count_at, links_fit, BlockHeader,
};
use crate::mdf4::mdf4_enums::{EventCause, EventSyncType, EventType, RangeType};
use crate::mdf4::{link_extract, links_at, take_links};
use crate::utils::{
    i64_at, read_array, read_i64, read_u16, read_u32, read_u64, read_u8, u16_at, u32_at, u64_at,
};
use vstd::prelude::*;

verus! {

#[derive(Debug, Clone)]
pub struct EVBlock {
    pub header: BlockHeader,
    pub ev_ev_next: u64,
    pub ev_ev_parent: u64,
    pub ev_ev_range: u64,
    pub ev_tx_name: u64,
    pub ev_md_comment: u64,
    pub ev_scope: Vec<u64>,
    pub ev_at_reference: Vec<u64>,
    pub ev_type: EventType,
    pub ev_sync_type: EventSyncType,
    pub ev_range_type: RangeType,
    pub ev_cause: EventCause,
    pub ev_flags: u8,
    pub ev_reserved: [u8; 3],
    pub ev_scope_count: u32,
    pub ev_attachment_count: u16,
    pub ev_creator_index: u16,
    pub ev_sync_base_value: i64,
    pub ev_sync_factor: u64,
}

/// An event block can be read at `p`: its codes name an event type, a sync
/// type, a range type and a cause, and it links to its scope and attachments.
/// Its identifier is not checked.
pub open spec fn ev_readable(s: Seq<u8>, p: int, little_endian: bool) -> bool {
    let q = data_start(s, p, little_endian);
    &&& links_fit(s, p, little_endian, 5, 32)
    &&& s[q] <= 6
    &&& 1 <= s[q + 1] <= 4
    &&& s[q + 2] <= 2
    &&& s[q + 3] <= 4
    &&& link_count_at(s, p, little_endian) >= 5 + u32_at(s, q + 8, little_endian) + u16_at(
        s,
        q + 12,
        little_endian,
    )
}

/// `b` holds the event block stored at `p`.
pub open spec fn ev_fields(s: Seq<u8>, p: int, little_endian: bool, b: EVBlock) -> bool {
    let q = data_start(s, p, little_endian);
    let links = links_at(s, p + 24, little_endian, link_count_at(s, p, little_endian) as nat);
    let scope_end = 5 + b.ev_scope_count;
    &&& header_fields(s, p, little_endian, b.header)
    &&& b.ev_ev_next == links[0]
    &&& b.ev_ev_parent == links[1]
    &&& b.ev_ev_range == links[2]
    &&& b.ev_tx_name == links[3]
    &&& b.ev_md_comment == links[4]
    &&& b.ev_scope@ == links.subrange(5, scope_end)
    &&& b.ev_at_reference@ == links.subrange(scope_end, scope_end + b.ev_attachment_count)
    &&& b.ev_type == EventType::spec_new(s[q])
    &&& b.ev_sync_type == EventSyncType::spec_new(s[q + 1])
    &&& b.ev_range_type == RangeType::spec_new(s[q + 2])
    &&& b.ev_cause == EventCause::spec_new(s[q + 3])
    &&& b.ev_flags == s[q + 4]
    &&& b.ev_reserved@ == s.subrange(q + 5, q + 8)
    &&& b.ev_scope_count == u32_at(s, q + 8, little_endian)
    &&& b.ev_attachment_count == u16_at(s, q + 12, little_endian)
    &&& b.ev_creator_index == u16_at(s, q + 14, little_endian)
    &&& b.ev_sync_base_value == i64_at(s, q + 16, little_endian)
    &&& b.ev_sync_factor == u64_at(s, q + 24, little_endian)
}

impl Block for EVBlock {
    open spec fn spec_is_new(&self) -> bool {
        &&& self.header.id@ == seq![0x23u8, 0x23u8, 0x45u8, 0x56u8]
        &&& self.header.reserved0@ == seq![0u8, 0u8, 0u8, 0u8]
        &&& self.header.length == 50
        &&& self.header.link_count == 0
        &&& self.ev_ev_next == 0
        &&& self.ev_ev_parent == 0
        &&& self.ev_ev_range == 0
        &&& self.ev_tx_name == 0
        &&& self.ev_md_comment == 0
        &&& self.ev_scope@ == Seq::<u64>::empty()
        &&& self.ev_at_reference@ == Seq::<u64>::empty()
        &&& self.ev_type == EventType::AcquistionInterrupt
        &&& self.ev_sync_type == EventSyncType::Index
        &&& self.ev_range_type == RangeType::Point
        &&& self.ev_cause == EventCause::Error
        &&& self.ev_flags == 0
        &&& self.ev_reserved@ == seq![0u8, 0u8, 0u8]
        &&& self.ev_scope_count == 0
        &&& self.ev_attachment_count == 0
        &&& self.ev_creator_index == 0
        &&& self.ev_sync_base_value == 0
        &&& self.ev_sync_factor == 0
    }

    open spec fn spec_is_default(&self) -> bool {
        self.spec_is_new()
    }

    open spec fn spec_readable(stream: Seq<u8>, position: int, little_endian: bool) -> bool {
        ev_readable(stream, position, little_endian)
    }

    open spec fn spec_read_result(
        stream: Seq<u8>,
        position: int,
        little_endian: bool,
        end: int,
        block: Self,
    ) -> bool {
        &&& end == data_start(stream, position, little_endian) + 32
        &&& ev_fields(stream, position, little_endian, block)
    }

    /// This block kind has no defined byte length.
    open spec fn spec_has_byte_len(&self) -> bool {
        false
    }

    open spec fn spec_byte_len(&self) -> nat {
        0
    }

    fn new() -> (r: Self) {
        let header = BlockHeader::with_id([0x23u8, 0x23u8, 0x45u8, 0x56u8], 50, 0);
        assert(header.id@ =~= seq![0x23u8, 0x23u8, 0x45u8, 0x56u8]);
        let r = EVBlock {
            header,
            ev_ev_next: 0,
            ev_ev_parent: 0,
            ev_ev_range: 0,
            ev_tx_name: 0,
            ev_md_comment: 0,
            ev_scope: Vec::new(),
            ev_at_reference: Vec::new(),
            ev_type: EventType::AcquistionInterrupt,
            ev_sync_type: EventSyncType::Index,
            ev_range_type: RangeType::Point,
            ev_cause: EventCause::Error,
            ev_flags: 0,
            ev_reserved: [0u8, 0u8, 0u8],
            ev_scope_count: 0,
            ev_attachment_count: 0,
            ev_creator_index: 0,
            ev_sync_base_value: 0,
            ev_sync_factor: 0,
        };
        assert(r.ev_reserved@ =~= seq![0u8, 0u8, 0u8]);
        r
    }

    fn default() -> (r: Self) {
        Self::new()
    }

    fn is_readable(stream: &[u8], position: usize, little_endian: bool) -> (r: bool) {
        if !check_links_fit(stream, position, little_endian, 5, 32) {
            return false;
        }
        let total = stream.len();
        let q = data_offset(stream, position, little_endian);
        let mut p = q + 8;
        let scope_count = read_u32(stream, little_endian, &mut p);
        let attachment_count = read_u16(stream, little_endian, &mut p);
        let mut c = position + 16;
        let link_count = read_u64(stream, little_endian, &mut c);
        &&& stream[q] <= 6
        &&& 1 <= stream[q + 1] && stream[q + 1] <= 4
        &&& stream[q + 2] <= 2
        &&& stream[q + 3] <= 4
        &&& link_count - 5 >= scope_count as u64 + attachment_count as u64
    }

    fn read(stream: &[u8], position: usize, little_endian: bool) -> (r: (usize, Self)) {
        let total = stream.len();
        let (pos, header) = BlockHeader::read(stream, position, little_endian);
        let (mut pos, address) = link_extract(stream, pos, little_endian, header.link_count);
        let ev_type = EventType::new(read_u8(stream, &mut pos));
        let ev_sync_type = EventSyncType::new(read_u8(stream, &mut pos));
        let ev_range_type = RangeType::new(read_u8(stream, &mut pos));
        let ev_cause = EventCause::new(read_u8(stream, &mut pos));
        let ev_flags = read_u8(stream, &mut pos);
        let mut ev_reserved = [0u8; 3];
        read_array(stream, &mut ev_reserved, &mut pos);
        let ev_scope_count = read_u32(stream, little_endian, &mut pos);
        let ev_attachment_count = read_u16(stream, little_endian, &mut pos);
        let ev_creator_index = read_u16(stream, little_endian, &mut pos);
        let ev_sync_base_value = read_i64(stream, little_endian, &mut pos);
        let ev_sync_factor = read_u64(stream, little_endian, &mut pos);
        let ev_scope = take_links(&address, 5, ev_scope_count as usize);
        let ev_at_reference = take_links(
            &address,
            5 + ev_scope_count as usize,
            ev_attachment_count as usize,
        );
        (
            pos,
            EVBlock {
                header,
                ev_ev_next: address[0],
                ev_ev_parent: address[1],
                ev_ev_range: address[2],
                ev_tx_name: address[3],
                ev_md_comment: address[4],
                ev_scope,
                ev_at_reference,
                ev_type,
                ev_sync_type,
                ev_range_type,
                ev_cause,
                ev_flags,
                ev_reserved,
                ev_scope_count,
                ev_attachment_count,
                ev_creator_index,
                ev_sync_base_value,
                ev_sync_factor,
            },
        )
    }

    fn byte_len(&self) -> (r: usize) {
        0
    }
}

} // verus!
