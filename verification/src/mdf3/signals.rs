//! The three numbers that name one signal of a channel dependency.
use crate::utils::{lemma_byte_range_values, lemma_read_written, read_u32, u32_at, uint_bytes, write_u32};
use vstd::prelude::*;

verus! {

#[derive(Debug, Clone, Copy, PartialEq, Eq, Structural)]
pub struct Signals {
    pub data_group: u32,
    pub channel_group: u32,
    pub channel: u32,
}

impl Signals {
    /// The twelve bytes that encode the three numbers in the given byte order.
    pub open spec fn spec_write(self, little_endian: bool) -> Seq<u8> {
        uint_bytes(self.data_group as nat, 4, little_endian) + uint_bytes(
            self.channel_group as nat,
            4,
            little_endian,
        ) + uint_bytes(self.channel as nat, 4, little_endian)
    }

    /// The numbers that the first twelve bytes of `s` encode.
    pub open spec fn spec_read(s: Seq<u8>, little_endian: bool) -> Signals {
        Signals {
            data_group: u32_at(s, 0, little_endian),
            channel_group: u32_at(s, 4, little_endian),
            channel: u32_at(s, 8, little_endian),
        }
    }

    pub fn write(&self, little_endian: bool) -> (r: Vec<u8>)
        ensures
            r@ == self.spec_write(little_endian),
    {
        let mut array: Vec<u8> = Vec::new();
        let mut a = write_u32(self.data_group, little_endian);
        array.append(&mut a);
        let mut b = write_u32(self.channel_group, little_endian);
        array.append(&mut b);
        let mut c = write_u32(self.channel, little_endian);
        array.append(&mut c);
        array
    }

    /// Reads the three numbers from the start of `stream`, whatever it is part of.
    pub fn read(stream: &[u8], little_endian: bool) -> (r: (Self, usize))
        requires
            stream@.len() >= 12,
        ensures
            r.0 == Self::spec_read(stream@, little_endian),
            r.1 == 12,
    {
        let mut position: usize = 0;
        let data_group = read_u32(stream, little_endian, &mut position);
        let channel_group = read_u32(stream, little_endian, &mut position);
        let channel = read_u32(stream, little_endian, &mut position);
        (Signals { data_group, channel_group, channel }, position)
    }
}

/// Reading what `write` gives yields the signal that was written.
pub proof fn lemma_signals_write_read(sig: Signals, little_endian: bool)
    ensures
        sig.spec_write(little_endian).len() == 12,
        Signals::spec_read(sig.spec_write(little_endian), little_endian) == sig,
{
    let w = sig.spec_write(little_endian);
    let a = uint_bytes(sig.data_group as nat, 4, little_endian);
    let b = uint_bytes(sig.channel_group as nat, 4, little_endian);
    let c = uint_bytes(sig.channel as nat, 4, little_endian);
    lemma_byte_range_values();
    assert(w.subrange(0, 4) =~= a);
    assert(w.subrange(4, 8) =~= b);
    assert(w.subrange(8, 12) =~= c);
    lemma_read_written(w, 0, sig.data_group as nat, 4, little_endian);
    lemma_read_written(w, 4, sig.channel_group as nat, 4, little_endian);
    lemma_read_written(w, 8, sig.channel as nat, 4, little_endian);
}

} // verus!
