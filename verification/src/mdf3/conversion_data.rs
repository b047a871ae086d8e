//! Which kind of data follows the fixed part of a conversion block.
use vstd::prelude::*;

verus! {

#[derive(Debug, Clone, Copy, PartialEq, Eq, Structural)]
pub enum ConversionData {
    Parameters,
    Table,
    Text,
}

impl ConversionData {
    /// Writes nothing: this structure is not serialised.
    pub fn write() {
    }

    /// Kind 1 is parameters, every other kind a table; one byte is counted.
    pub fn read(_data: &[u8], _little_endian: bool, datatype: u8) -> (r: (ConversionData, usize))
        ensures
            r.0 == (if datatype == 1 {
                ConversionData::Parameters
            } else {
                ConversionData::Table
            }),
            r.1 == 1,
    {
        if datatype == 1 {
            (ConversionData::Parameters, 1)
        } else {
            (ConversionData::Table, 1)
        }
    }
}

} // verus!
