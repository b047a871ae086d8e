//! A trigger event: trigger time and the times before and after it. The
//! times are kept as the IEEE 754 bits stored in the file.
use crate::utils::{
    lemma_byte_range_values, lemma_read_written, read_u64, u64_at, uint_bytes, write_u64,
};
use vstd::prelude::*;

verus! {

#[derive(Debug, Clone, Copy, PartialEq, Eq, Structural)]
pub struct Event {
    pub trigger_time: u64,
    pub pre_trigger_time: u64,
    pub post_trigger_time: u64,
}

impl Event {
    /// The 24 bytes that encode the event in the given byte order.
    pub open spec fn spec_write(self, little_endian: bool) -> Seq<u8> {
        uint_bytes(self.trigger_time as nat, 8, little_endian) + uint_bytes(
            self.pre_trigger_time as nat,
            8,
            little_endian,
        ) + uint_bytes(self.post_trigger_time as nat, 8, little_endian)
    }

    /// The event stored at `p`.
    pub open spec fn spec_read(s: Seq<u8>, p: int, little_endian: bool) -> Event {
        Event {
            trigger_time: u64_at(s, p, little_endian),
            pre_trigger_time: u64_at(s, p + 8, little_endian),
            post_trigger_time: u64_at(s, p + 16, little_endian),
        }
    }

    pub fn write(&self, little_endian: bool) -> (r: Vec<u8>)
        ensures
            r@ == self.spec_write(little_endian),
    {
        let mut array: Vec<u8> = Vec::new();
        let mut part = write_u64(self.trigger_time, little_endian);
        array.append(&mut part);
        let mut part = write_u64(self.pre_trigger_time, little_endian);
        array.append(&mut part);
        let mut part = write_u64(self.post_trigger_time, little_endian);
        array.append(&mut part);
        array
    }

    /// Reads the event at `position`; the position handed back is
    /// `position` itself, not the end of the event.
    pub fn read(stream: &[u8], position: usize, little_endian: bool) -> (r: (Event, usize))
        requires
            position + 24 <= stream@.len(),
        ensures
            r.0 == Self::spec_read(stream@, position as int, little_endian),
            r.1 == position,
    {
        let total = stream.len();
        let mut pos = position;
        let trigger_time = read_u64(stream, little_endian, &mut pos);
        let pre_trigger_time = read_u64(stream, little_endian, &mut pos);
        let post_trigger_time = read_u64(stream, little_endian, &mut pos);
        (Event { trigger_time, pre_trigger_time, post_trigger_time }, position)
    }
}

/// Reading what `write` gives yields the event that was written.
pub proof fn lemma_event_write_read(e: Event, little_endian: bool)
    ensures
        e.spec_write(little_endian).len() == 24,
        Event::spec_read(e.spec_write(little_endian), 0, little_endian) == e,
{
    let w = e.spec_write(little_endian);
    lemma_byte_range_values();
    assert(w.subrange(0, 8) =~= uint_bytes(e.trigger_time as nat, 8, little_endian));
    assert(w.subrange(8, 16) =~= uint_bytes(e.pre_trigger_time as nat, 8, little_endian));
    assert(w.subrange(16, 24) =~= uint_bytes(e.post_trigger_time as nat, 8, little_endian));
    lemma_read_written(w, 0, e.trigger_time as nat, 8, little_endian);
    lemma_read_written(w, 8, e.pre_trigger_time as nat, 8, little_endian);
    lemma_read_written(w, 16, e.post_trigger_time as nat, 8, little_endian);
}

} // verus!
