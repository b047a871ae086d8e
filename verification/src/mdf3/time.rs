//! A time as MDF version 3 stores it: milliseconds and days.
use crate::utils::{read_u32, read_u8, u32_at};
use vstd::prelude::*;

verus! {

#[derive(Debug, Clone, Copy, PartialEq, Eq, Structural)]
pub struct TimeStruct {
    pub ms: u32,
    pub days: u8,
}

impl TimeStruct {
    /// Writes nothing: this structure is not serialised.
    pub fn write() {
    }

    /// Reads the time from the start of `stream`.
    pub fn read(stream: &[u8], little_endian: bool) -> (r: (TimeStruct, usize))
        requires
            stream@.len() >= 5,
        ensures
            r.0.ms == u32_at(stream@, 0, little_endian),
            r.0.days == stream@[4],
            r.1 == 5,
    {
        let mut position: usize = 0;
        let ms = read_u32(stream, little_endian, &mut position);
        let days = read_u8(stream, &mut position);
        (TimeStruct { ms, days }, position)
    }
}

} // verus!
