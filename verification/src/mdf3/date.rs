//! A date as MDF version 3 stores it: milliseconds, minute, hour, day, month, year.
use crate::utils::{read_u16, read_u8, u16_at};
use vstd::prelude::*;

verus! {

#[derive(Debug, Clone, Copy, PartialEq, Eq, Structural)]
pub struct DateStruct {
    pub ms: u16,
    pub min: u8,
    pub hour: u8,
    pub day: u8,
    pub month: u8,
    pub year: u8,
}

impl DateStruct {
    /// Writes nothing: this structure is not serialised.
    pub fn write() {
    }

    /// Reads the date from the start of `stream`.
    pub fn read(stream: &[u8], little_endian: bool) -> (r: (DateStruct, usize))
        requires
            stream@.len() >= 7,
        ensures
            r.0.ms == u16_at(stream@, 0, little_endian),
            r.0.min == stream@[2],
            r.0.hour == stream@[3],
            r.0.day == stream@[4],
            r.0.month == stream@[5],
            r.0.year == stream@[6],
            r.1 == 7,
    {
        let mut position: usize = 0;
        let ms = read_u16(stream, little_endian, &mut position);
        let min = read_u8(stream, &mut position);
        let hour = read_u8(stream, &mut position);
        let day = read_u8(stream, &mut position);
        let month = read_u8(stream, &mut position);
        let year = read_u8(stream, &mut position);
        (DateStruct { ms, min, hour, day, month, year }, position)
    }
}

} // verus!
