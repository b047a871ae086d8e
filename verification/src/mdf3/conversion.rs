//! The data of the conversion formulas of MDF version 3. Floating point
//! parameters are kept as the IEEE 754 bits stored in the file.
use crate::utils::{read_array, read_u32, read_u64, u32_at, u64_at};
use vstd::prelude::*;

verus! {

/// Linear conversion: `p2 * x + p1`: 2 parameters.
#[derive(Debug, Clone, Copy, PartialEq, Eq, Structural)]
pub struct ConversionLinear {
    pub p1: u64,
    pub p2: u64,
}

impl ConversionLinear {
    /// Writes nothing: this structure is not serialised.
    pub fn write() {
    }

    /// Reads the 2 parameters from the start of `stream`.
    pub fn read(stream: &[u8], little_endian: bool) -> (r: (ConversionLinear, usize))
        requires
            stream@.len() >= 16,
        ensures
            r.0.p1 == u64_at(stream@, 0, little_endian),
            r.0.p2 == u64_at(stream@, 8, little_endian),
            r.1 == 16,
    {
        let mut position: usize = 0;
        let p1 = read_u64(stream, little_endian, &mut position);
        let p2 = read_u64(stream, little_endian, &mut position);
        (ConversionLinear { p1, p2 }, position)
    }
}

/// Polynomial ratio conversion: 6 parameters.
#[derive(Debug, Clone, Copy, PartialEq, Eq, Structural)]
pub struct ConversionPoly {
    pub p1: u64,
    pub p2: u64,
    pub p3: u64,
    pub p4: u64,
    pub p5: u64,
    pub p6: u64,
}

impl ConversionPoly {
    /// Writes nothing: this structure is not serialised.
    pub fn write() {
    }

    /// Reads the 6 parameters from the start of `stream`.
    pub fn read(stream: &[u8], little_endian: bool) -> (r: (ConversionPoly, usize))
        requires
            stream@.len() >= 48,
        ensures
            r.0.p1 == u64_at(stream@, 0, little_endian),
            r.0.p2 == u64_at(stream@, 8, little_endian),
            r.0.p3 == u64_at(stream@, 16, little_endian),
            r.0.p4 == u64_at(stream@, 24, little_endian),
            r.0.p5 == u64_at(stream@, 32, little_endian),
            r.0.p6 == u64_at(stream@, 40, little_endian),
            r.1 == 48,
    {
        let mut position: usize = 0;
        let p1 = read_u64(stream, little_endian, &mut position);
        let p2 = read_u64(stream, little_endian, &mut position);
        let p3 = read_u64(stream, little_endian, &mut position);
        let p4 = read_u64(stream, little_endian, &mut position);
        let p5 = read_u64(stream, little_endian, &mut position);
        let p6 = read_u64(stream, little_endian, &mut position);
        (ConversionPoly { p1, p2, p3, p4, p5, p6 }, position)
    }
}

/// Exponential conversion: 7 parameters.
#[derive(Debug, Clone, Copy, PartialEq, Eq, Structural)]
pub struct ConversionExponetial {
    pub p1: u64,
    pub p2: u64,
    pub p3: u64,
    pub p4: u64,
    pub p5: u64,
    pub p6: u64,
    pub p7: u64,
}

impl ConversionExponetial {
    /// Writes nothing: this structure is not serialised.
    pub fn write() {
    }

    /// Reads the 7 parameters from the start of `stream`.
    pub fn read(stream: &[u8], little_endian: bool) -> (r: (ConversionExponetial, usize))
        requires
            stream@.len() >= 56,
        ensures
            r.0.p1 == u64_at(stream@, 0, little_endian),
            r.0.p2 == u64_at(stream@, 8, little_endian),
            r.0.p3 == u64_at(stream@, 16, little_endian),
            r.0.p4 == u64_at(stream@, 24, little_endian),
            r.0.p5 == u64_at(stream@, 32, little_endian),
            r.0.p6 == u64_at(stream@, 40, little_endian),
            r.0.p7 == u64_at(stream@, 48, little_endian),
            r.1 == 56,
    {
        let mut position: usize = 0;
        let p1 = read_u64(stream, little_endian, &mut position);
        let p2 = read_u64(stream, little_endian, &mut position);
        let p3 = read_u64(stream, little_endian, &mut position);
        let p4 = read_u64(stream, little_endian, &mut position);
        let p5 = read_u64(stream, little_endian, &mut position);
        let p6 = read_u64(stream, little_endian, &mut position);
        let p7 = read_u64(stream, little_endian, &mut position);
        (ConversionExponetial { p1, p2, p3, p4, p5, p6, p7 }, position)
    }
}

/// Logarithmic conversion: 7 parameters.
#[derive(Debug, Clone, Copy, PartialEq, Eq, Structural)]
pub struct ConversionLog {
    pub p1: u64,
    pub p2: u64,
    pub p3: u64,
    pub p4: u64,
    pub p5: u64,
    pub p6: u64,
    pub p7: u64,
}

impl ConversionLog {
    /// Writes nothing: this structure is not serialised.
    pub fn write() {
    }

    /// Reads the 7 parameters from the start of `stream`.
    pub fn read(stream: &[u8], little_endian: bool) -> (r: (ConversionLog, usize))
        requires
            stream@.len() >= 56,
        ensures
            r.0.p1 == u64_at(stream@, 0, little_endian),
            r.0.p2 == u64_at(stream@, 8, little_endian),
            r.0.p3 == u64_at(stream@, 16, little_endian),
            r.0.p4 == u64_at(stream@, 24, little_endian),
            r.0.p5 == u64_at(stream@, 32, little_endian),
            r.0.p6 == u64_at(stream@, 40, little_endian),
            r.0.p7 == u64_at(stream@, 48, little_endian),
            r.1 == 56,
    {
        let mut position: usize = 0;
        let p1 = read_u64(stream, little_endian, &mut position);
        let p2 = read_u64(stream, little_endian, &mut position);
        let p3 = read_u64(stream, little_endian, &mut position);
        let p4 = read_u64(stream, little_endian, &mut position);
        let p5 = read_u64(stream, little_endian, &mut position);
        let p6 = read_u64(stream, little_endian, &mut position);
        let p7 = read_u64(stream, little_endian, &mut position);
        (ConversionLog { p1, p2, p3, p4, p5, p6, p7 }, position)
    }
}

/// Rational conversion: 6 parameters.
#[derive(Debug, Clone, Copy, PartialEq, Eq, Structural)]
pub struct ConversionRational {
    pub p1: u64,
    pub p2: u64,
    pub p3: u64,
    pub p4: u64,
    pub p5: u64,
    pub p6: u64,
}

impl ConversionRational {
    /// Writes nothing: this structure is not serialised.
    pub fn write() {
    }

    /// Reads the 6 parameters from the start of `stream`.
    pub fn read(stream: &[u8], little_endian: bool) -> (r: (ConversionRational, usize))
        requires
            stream@.len() >= 48,
        ensures
            r.0.p1 == u64_at(stream@, 0, little_endian),
            r.0.p2 == u64_at(stream@, 8, little_endian),
            r.0.p3 == u64_at(stream@, 16, little_endian),
            r.0.p4 == u64_at(stream@, 24, little_endian),
            r.0.p5 == u64_at(stream@, 32, little_endian),
            r.0.p6 == u64_at(stream@, 40, little_endian),
            r.1 == 48,
    {
        let mut position: usize = 0;
        let p1 = read_u64(stream, little_endian, &mut position);
        let p2 = read_u64(stream, little_endian, &mut position);
        let p3 = read_u64(stream, little_endian, &mut position);
        let p4 = read_u64(stream, little_endian, &mut position);
        let p5 = read_u64(stream, little_endian, &mut position);
        let p6 = read_u64(stream, little_endian, &mut position);
        (ConversionRational { p1, p2, p3, p4, p5, p6 }, position)
    }
}

#[derive(Debug, Clone, Copy, PartialEq, Eq, Structural)]
pub enum Table {
    ConversionTabular,
}

/// A value of a conversion table: internal and physical value.
#[derive(Debug, Clone, Copy, PartialEq, Eq, Structural)]
pub struct TableEntry {
    pub internal: u64,
    pub physical: u64,
}

impl TableEntry {
    /// Writes nothing: this structure is not serialised.
    pub fn write() {
    }

    /// Reads the entry from the start of `stream`.
    pub fn read(stream: &[u8], little_endian: bool) -> (r: (TableEntry, usize))
        requires
            stream@.len() >= 16,
        ensures
            r.0.internal == u64_at(stream@, 0, little_endian),
            r.0.physical == u64_at(stream@, 8, little_endian),
            r.1 == 16,
    {
        let mut position: usize = 0;
        let internal = read_u64(stream, little_endian, &mut position);
        let physical = read_u64(stream, little_endian, &mut position);
        (TableEntry { internal, physical }, position)
    }
}

/// A conversion table.
#[derive(Debug, Clone)]
pub struct ConversionTabular {
    pub value: Vec<TableEntry>,
}

impl ConversionTabular {
    /// Writes nothing: this structure is not serialised.
    pub fn write() {
    }

    /// Reads one entry from the start of `stream`.
    pub fn read(stream: &[u8], little_endian: bool) -> (r: (ConversionTabular, usize))
        requires
            stream@.len() >= 16,
        ensures
            r.0.value@.len() == 1,
            r.0.value@[0].internal == u64_at(stream@, 0, little_endian),
            r.0.value@[0].physical == u64_at(stream@, 8, little_endian),
            r.1 == 16,
    {
        let mut value: Vec<TableEntry> = Vec::new();
        let (temp, pos) = TableEntry::read(stream, little_endian);
        value.push(temp);
        (ConversionTabular { value }, pos)
    }
}

#[derive(Debug, Clone, Copy, PartialEq, Eq, Structural)]
pub enum Text {
    ConversionTextFormula,
    ConversionTextRangeTable,
}

/// A conversion formula written as text in 256 bytes.
#[derive(Debug, Clone, Copy)]
pub struct ConversionTextFormula {
    pub formula: [u8; 256],
}

impl ConversionTextFormula {
    /// Writes nothing: this structure is not serialised.
    pub fn write() {
    }

    /// The formula is the whole of `stream`, which must be 256 bytes long.
    pub fn read(stream: &[u8], _little_endian: bool) -> (r: (ConversionTextFormula, usize))
        requires
            stream@.len() == 256,
        ensures
            r.0.formula@ == stream@,
            r.1 == 256,
    {
        let mut position: usize = 0;
        let mut formula = [0u8; 256];
        read_array(stream, &mut formula, &mut position);
        assert(stream@.subrange(0, 256) =~= stream@);
        (ConversionTextFormula { formula }, position)
    }
}

/// A value of a text table: internal value and 32 bytes of text.
#[derive(Debug, Clone, Copy)]
pub struct TextTableEntry {
    pub internal: u64,
    pub text: [u8; 32],
}

impl TextTableEntry {
    /// Writes nothing: this structure is not serialised.
    pub fn write() {
    }

    /// The value is the first eight bytes of `stream`, the text the whole of
    /// `stream`, which must be 32 bytes long; eight bytes are counted.
    pub fn read(stream: &[u8], little_endian: bool) -> (r: (TextTableEntry, usize))
        requires
            stream@.len() == 32,
        ensures
            r.0.internal == u64_at(stream@, 0, little_endian),
            r.0.text@ == stream@,
            r.1 == 8,
    {
        let mut position: usize = 0;
        let internal = read_u64(stream, little_endian, &mut position);
        let mut start: usize = 0;
        let mut text = [0u8; 32];
        read_array(stream, &mut text, &mut start);
        assert(stream@.subrange(0, 32) =~= stream@);
        (TextTableEntry { internal, text }, position)
    }
}

/// A text table of `number - 1` entries, each read from `stream`.
#[derive(Debug, Clone)]
pub struct ConversionTextTable {
    pub table: Vec<TextTableEntry>,
}

impl ConversionTextTable {
    /// Writes nothing: this structure is not serialised.
    pub fn write() {
    }

    /// Reads `number - 1` entries, every one from the start of `stream`.
    pub fn read(stream: &[u8], little_endian: bool, number: usize) -> (r: (ConversionTextTable, usize))
        requires
            number >= 1,
            number >= 2 ==> stream@.len() == 32,
            8 * (number - 1) <= usize::MAX,
        ensures
            r.0.table@.len() == number - 1,
            forall|i: int|
                0 <= i < number - 1 ==> #[trigger] r.0.table@[i].internal == u64_at(stream@, 0, little_endian)
                    && r.0.table@[i].text@ == stream@,
            r.1 == 8 * (number - 1),
    {
        let mut position: usize = 0;
        let mut table: Vec<TextTableEntry> = Vec::new();
        let mut i: usize = 0;
        while i < number - 1
            invariant
                number >= 1,
                number >= 2 ==> stream@.len() == 32,
                8 * (number - 1) <= usize::MAX,
                i <= number - 1,
                table@.len() == i,
                position == 8 * i,
                forall|j: int|
                    0 <= j < i ==> #[trigger] table@[j].internal == u64_at(stream@, 0, little_endian)
                        && table@[j].text@ == stream@,
            decreases number - 1 - i,
        {
            let (table_entry, pos) = TextTableEntry::read(stream, little_endian);
            table.push(table_entry);
            position = position + pos;
            i = i + 1;
        }
        (ConversionTextTable { table }, position)
    }
}

/// A text range table: two values, a text block link and no entries.
#[derive(Debug, Clone)]
pub struct ConversionTextRangeTable {
    pub undef1: u64,
    pub undef2: u64,
    pub txblock: u32,
    pub entry: Vec<TextRange>,
}

impl ConversionTextRangeTable {
    /// Writes nothing: this structure is not serialised.
    pub fn write() {
    }

    /// Reads the two values and the link from the start of `stream`.
    pub fn read(stream: &[u8], little_endian: bool) -> (r: (ConversionTextRangeTable, usize))
        requires
            stream@.len() >= 20,
        ensures
            r.0.undef1 == u64_at(stream@, 0, little_endian),
            r.0.undef2 == u64_at(stream@, 8, little_endian),
            r.0.txblock == u32_at(stream@, 16, little_endian),
            r.0.entry@.len() == 0,
            r.1 == 20,
    {
        let mut position: usize = 0;
        let undef1 = read_u64(stream, little_endian, &mut position);
        let undef2 = read_u64(stream, little_endian, &mut position);
        let txblock = read_u32(stream, little_endian, &mut position);
        let entry: Vec<TextRange> = Vec::new();
        (ConversionTextRangeTable { undef1, undef2, txblock, entry }, position)
    }
}

/// A range of values and the text block that names it.
#[derive(Debug, Clone, Copy, PartialEq, Eq, Structural)]
pub struct TextRange {
    pub lower: u64,
    pub upper: u64,
    pub txblock: u32,
}

impl TextRange {
    /// Writes nothing: this structure is not serialised.
    pub fn write() {
    }

    /// Reads the range and the link from the start of `stream`.
    pub fn read(stream: &[u8], little_endian: bool) -> (r: (TextRange, usize))
        requires
            stream@.len() >= 20,
        ensures
            r.0.lower == u64_at(stream@, 0, little_endian),
            r.0.upper == u64_at(stream@, 8, little_endian),
            r.0.txblock == u32_at(stream@, 16, little_endian),
            r.1 == 20,
    {
        let mut position: usize = 0;
        let lower = read_u64(stream, little_endian, &mut position);
        let upper = read_u64(stream, little_endian, &mut position);
        let txblock = read_u32(stream, little_endian, &mut position);
        (TextRange { lower, upper, txblock }, position)
    }
}

} // verus!
