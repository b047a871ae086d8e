//! The conversion formulas of MDF version 3 channel conversions, as read
//! from a conversion block. Floating point parameters are kept as the IEEE
//! 754 bits stored in the file.
use crate::mdf3::{tx_fields, tx_readable, TXBLOCK};
use crate::utils::{
    display_name_from, read_u16, read_u32, read_u64, read_u8, u16_at, u32_at, u64_at, xml_parse,
};
use vstd::prelude::*;

verus! {

#[derive(Debug, Clone, Copy, PartialEq, Eq, Structural)]
pub struct Linear {
    pub p1: u64,
    pub p2: u64,
}

impl Linear {
    /// Reads the 2 parameters at `position`; gives the position after them.
    pub fn read(stream: &[u8], position: usize, little_endian: bool) -> (r: (usize, Self))
        requires
            position + 16 <= stream@.len(),
        ensures
            r.0 == position + 16,
            r.1.p1 == u64_at(stream@, position + 0, little_endian),
            r.1.p2 == u64_at(stream@, position + 8, little_endian),
    {
        let total = stream.len();
        let mut pos = position;
        let p1 = read_u64(stream, little_endian, &mut pos);
        let p2 = read_u64(stream, little_endian, &mut pos);
        (pos, Linear { p1, p2 })
    }
}

#[derive(Debug, Clone, Copy, PartialEq, Eq, Structural)]
pub struct Polynomial {
    pub p1: u64,
    pub p2: u64,
    pub p3: u64,
    pub p4: u64,
    pub p5: u64,
    pub p6: u64,
}

impl Polynomial {
    /// Reads the 6 parameters at `position`; gives the position after them.
    pub fn read(stream: &[u8], position: usize, little_endian: bool) -> (r: (usize, Self))
        requires
            position + 48 <= stream@.len(),
        ensures
            r.0 == position + 48,
            r.1.p1 == u64_at(stream@, position + 0, little_endian),
            r.1.p2 == u64_at(stream@, position + 8, little_endian),
            r.1.p3 == u64_at(stream@, position + 16, little_endian),
            r.1.p4 == u64_at(stream@, position + 24, little_endian),
            r.1.p5 == u64_at(stream@, position + 32, little_endian),
            r.1.p6 == u64_at(stream@, position + 40, little_endian),
    {
        let total = stream.len();
        let mut pos = position;
        let p1 = read_u64(stream, little_endian, &mut pos);
        let p2 = read_u64(stream, little_endian, &mut pos);
        let p3 = read_u64(stream, little_endian, &mut pos);
        let p4 = read_u64(stream, little_endian, &mut pos);
        let p5 = read_u64(stream, little_endian, &mut pos);
        let p6 = read_u64(stream, little_endian, &mut pos);
        (pos, Polynomial { p1, p2, p3, p4, p5, p6 })
    }
}

#[derive(Debug, Clone, Copy, PartialEq, Eq, Structural)]
pub struct Exponential {
    pub p1: u64,
    pub p2: u64,
    pub p3: u64,
    pub p4: u64,
    pub p5: u64,
    pub p6: u64,
    pub p7: u64,
}

impl Exponential {
    /// Reads the 7 parameters at `position`; gives the position after them.
    pub fn read(stream: &[u8], position: usize, little_endian: bool) -> (r: (usize, Self))
        requires
            position + 56 <= stream@.len(),
        ensures
            r.0 == position + 56,
            r.1.p1 == u64_at(stream@, position + 0, little_endian),
            r.1.p2 == u64_at(stream@, position + 8, little_endian),
            r.1.p3 == u64_at(stream@, position + 16, little_endian),
            r.1.p4 == u64_at(stream@, position + 24, little_endian),
            r.1.p5 == u64_at(stream@, position + 32, little_endian),
            r.1.p6 == u64_at(stream@, position + 40, little_endian),
            r.1.p7 == u64_at(stream@, position + 48, little_endian),
    {
        let total = stream.len();
        let mut pos = position;
        let p1 = read_u64(stream, little_endian, &mut pos);
        let p2 = read_u64(stream, little_endian, &mut pos);
        let p3 = read_u64(stream, little_endian, &mut pos);
        let p4 = read_u64(stream, little_endian, &mut pos);
        let p5 = read_u64(stream, little_endian, &mut pos);
        let p6 = read_u64(stream, little_endian, &mut pos);
        let p7 = read_u64(stream, little_endian, &mut pos);
        (pos, Exponential { p1, p2, p3, p4, p5, p6, p7 })
    }
}

#[derive(Debug, Clone, Copy, PartialEq, Eq, Structural)]
pub struct Logarithmic {
    pub p1: u64,
    pub p2: u64,
    pub p3: u64,
    pub p4: u64,
    pub p5: u64,
    pub p6: u64,
    pub p7: u64,
}

impl Logarithmic {
    /// Reads the 7 parameters at `position`; gives the position after them.
    pub fn read(stream: &[u8], position: usize, little_endian: bool) -> (r: (usize, Self))
        requires
            position + 56 <= stream@.len(),
        ensures
            r.0 == position + 56,
            r.1.p1 == u64_at(stream@, position + 0, little_endian),
            r.1.p2 == u64_at(stream@, position + 8, little_endian),
            r.1.p3 == u64_at(stream@, position + 16, little_endian),
            r.1.p4 == u64_at(stream@, position + 24, little_endian),
            r.1.p5 == u64_at(stream@, position + 32, little_endian),
            r.1.p6 == u64_at(stream@, position + 40, little_endian),
            r.1.p7 == u64_at(stream@, position + 48, little_endian),
    {
        let total = stream.len();
        let mut pos = position;
        let p1 = read_u64(stream, little_endian, &mut pos);
        let p2 = read_u64(stream, little_endian, &mut pos);
        let p3 = read_u64(stream, little_endian, &mut pos);
        let p4 = read_u64(stream, little_endian, &mut pos);
        let p5 = read_u64(stream, little_endian, &mut pos);
        let p6 = read_u64(stream, little_endian, &mut pos);
        let p7 = read_u64(stream, little_endian, &mut pos);
        (pos, Logarithmic { p1, p2, p3, p4, p5, p6, p7 })
    }
}

#[derive(Debug, Clone, Copy, PartialEq, Eq, Structural)]
pub struct Rational {
    pub p1: u64,
    pub p2: u64,
    pub p3: u64,
    pub p4: u64,
    pub p5: u64,
    pub p6: u64,
}

impl Rational {
    /// Reads the 6 parameters at `position`; gives the position after them.
    pub fn read(stream: &[u8], position: usize, little_endian: bool) -> (r: (usize, Self))
        requires
            position + 48 <= stream@.len(),
        ensures
            r.0 == position + 48,
            r.1.p1 == u64_at(stream@, position + 0, little_endian),
            r.1.p2 == u64_at(stream@, position + 8, little_endian),
            r.1.p3 == u64_at(stream@, position + 16, little_endian),
            r.1.p4 == u64_at(stream@, position + 24, little_endian),
            r.1.p5 == u64_at(stream@, position + 32, little_endian),
            r.1.p6 == u64_at(stream@, position + 40, little_endian),
    {
        let total = stream.len();
        let mut pos = position;
        let p1 = read_u64(stream, little_endian, &mut pos);
        let p2 = read_u64(stream, little_endian, &mut pos);
        let p3 = read_u64(stream, little_endian, &mut pos);
        let p4 = read_u64(stream, little_endian, &mut pos);
        let p5 = read_u64(stream, little_endian, &mut pos);
        let p6 = read_u64(stream, little_endian, &mut pos);
        (pos, Rational { p1, p2, p3, p4, p5, p6 })
    }
}

/// A table conversion with interpolation; its parameters are not read.
#[derive(Debug, Clone, Copy, PartialEq, Eq, Structural)]
pub struct TabularInterpolation {}

/// A table conversion without interpolation; its parameters are not read.
#[derive(Debug, Clone, Copy, PartialEq, Eq, Structural)]
pub struct Tabular {}

/// A conversion formula given as text; its parameters are not read.
#[derive(Debug, Clone)]
pub struct TextFormula {
    pub formula: String,
}

/// A value of a text table and its text.
#[derive(Debug, Clone)]
pub struct TextTableEntry {
    pub internal: u64,
    pub text: String,
}

/// A text table; its parameters are not read.
#[derive(Debug, Clone)]
pub struct TextTable {
    pub table: Vec<TextTableEntry>,
}

/// A range of values and its text.
#[derive(Debug, Clone)]
pub struct TextRangeEntry {
    pub lower: u64,
    pub upper: u64,
    pub text: String,
}

impl TextRangeEntry {
    /// Reads the range at `position` and the display name that the text
    /// block it links to holds; gives the position after the link.
    pub fn read(stream: &[u8], position: usize, little_endian: bool) -> (r: (usize, Self))
        requires
            position + 20 <= stream@.len(),
            tx_readable(stream@, u32_at(stream@, position + 16, little_endian) as int, little_endian),
        ensures
            r.0 == position + 20,
            r.1.lower == u64_at(stream@, position as int, little_endian),
            r.1.upper == u64_at(stream@, position + 8, little_endian),
            exists|tx: TXBLOCK|
                tx_fields(stream@, u32_at(stream@, position + 16, little_endian) as int, little_endian, tx)
                    && r.1.text@ == display_name_from(xml_parse(tx.text@), false, Seq::empty()),
    {
        let total = stream.len();
        let mut pos = position;
        let lower = read_u64(stream, little_endian, &mut pos);
        let upper = read_u64(stream, little_endian, &mut pos);
        let txblock_pos = read_u32(stream, little_endian, &mut pos);
        let (tx, _) = TXBLOCK::read(stream, txblock_pos as usize, little_endian);
        let ghost t = tx;
        let text = tx.name();
        assert(tx_fields(stream@, txblock_pos as int, little_endian, t));
        (pos, TextRangeEntry { lower, upper, text })
    }
}

/// A text range table and the text for values outside its ranges; its
/// parameters are not read.
#[derive(Debug, Clone)]
pub struct TextRangeTable {
    pub table: Vec<TextRangeEntry>,
    pub default: String,
}

/// A date conversion: milliseconds, minute, hour, day, month and year.
#[derive(Debug, Clone, Copy, PartialEq, Eq, Structural)]
pub struct Date {
    pub ms: u16,
    pub min: u8,
    pub hour: u8,
    pub day: u8,
    pub month: u8,
    pub year: u8,
}

impl Date {
    /// Reads the date at `position`; gives the position after it.
    pub fn read(stream: &[u8], position: usize, little_endian: bool) -> (r: (usize, Self))
        requires
            position + 7 <= stream@.len(),
        ensures
            r.0 == position + 7,
            r.1.ms == u16_at(stream@, position as int, little_endian),
            r.1.min == stream@[position + 2],
            r.1.hour == stream@[position + 3],
            r.1.day == stream@[position + 4],
            r.1.month == stream@[position + 5],
            r.1.year == stream@[position + 6],
    {
        let total = stream.len();
        let mut pos = position;
        let ms = read_u16(stream, little_endian, &mut pos);
        let min = read_u8(stream, &mut pos);
        let hour = read_u8(stream, &mut pos);
        let day = read_u8(stream, &mut pos);
        let month = read_u8(stream, &mut pos);
        let year = read_u8(stream, &mut pos);
        (pos, Date { ms, min, hour, day, month, year })
    }
}

/// A time conversion: milliseconds and days.
#[derive(Debug, Clone, Copy, PartialEq, Eq, Structural)]
pub struct Time {
    pub ms: u32,
    pub days: u8,
}

impl Time {
    /// Reads the time at `position`; gives the position after it.
    pub fn read(stream: &[u8], position: usize, little_endian: bool) -> (r: (usize, Self))
        requires
            position + 5 <= stream@.len(),
        ensures
            r.0 == position + 5,
            r.1.ms == u32_at(stream@, position as int, little_endian),
            r.1.days == stream@[position + 4],
    {
        let total = stream.len();
        let mut pos = position;
        let ms = read_u32(stream, little_endian, &mut pos);
        let days = read_u8(stream, &mut pos);
        (pos, Time { ms, days })
    }
}

/// The one to one conversion; its parameters are not read.
#[derive(Debug, Clone, Copy, PartialEq, Eq, Structural)]
pub struct Direct {}

#[derive(Debug, Clone)]
pub enum ConversionTypes {
    Linear(Linear),
    TabularInterpolation(TabularInterpolation),
    Tabular(Tabular),
    Polynomial(Polynomial),
    Exponential(Exponential),
    Logarithmic(Logarithmic),
    Rational(Rational),
    TextFormula(TextFormula),
    TextTable(TextTable),
    TextRangeTable(TextRangeTable),
    Date(Date),
    Time(Time),
    Direct(Direct),
}

/// Number of bytes that the data of conversion type `conversion` take, for
/// the types that can be read: linear, polynomial, exponential, logarithmic,
/// rational, date and time.
pub open spec fn conversion_data_len(conversion: u16) -> int {
    if conversion == 0 {
        16
    } else if conversion == 6 || conversion == 9 {
        48
    } else if conversion == 7 || conversion == 8 {
        56
    } else if conversion == 132 {
        7
    } else if conversion == 133 {
        5
    } else {
        -1
    }
}

/// `c` is the conversion of type `conversion` stored at `p`.
pub open spec fn conversion_at(s: Seq<u8>, p: int, little_endian: bool, conversion: u16, c: ConversionTypes) -> bool {
    match c {
        ConversionTypes::Linear(l) => conversion == 0 && l.p1 == u64_at(s, p, little_endian)
            && l.p2 == u64_at(s, p + 8, little_endian),
        ConversionTypes::Polynomial(v) => conversion == 6 && v.p1 == u64_at(s, p, little_endian)
            && v.p2 == u64_at(s, p + 8, little_endian) && v.p3 == u64_at(s, p + 16, little_endian)
            && v.p4 == u64_at(s, p + 24, little_endian) && v.p5 == u64_at(s, p + 32, little_endian)
            && v.p6 == u64_at(s, p + 40, little_endian),
        ConversionTypes::Exponential(v) => conversion == 7 && v.p1 == u64_at(s, p, little_endian)
            && v.p2 == u64_at(s, p + 8, little_endian) && v.p3 == u64_at(s, p + 16, little_endian)
            && v.p4 == u64_at(s, p + 24, little_endian) && v.p5 == u64_at(s, p + 32, little_endian)
            && v.p6 == u64_at(s, p + 40, little_endian) && v.p7 == u64_at(s, p + 48, little_endian),
        ConversionTypes::Logarithmic(v) => conversion == 8 && v.p1 == u64_at(s, p, little_endian)
            && v.p2 == u64_at(s, p + 8, little_endian) && v.p3 == u64_at(s, p + 16, little_endian)
            && v.p4 == u64_at(s, p + 24, little_endian) && v.p5 == u64_at(s, p + 32, little_endian)
            && v.p6 == u64_at(s, p + 40, little_endian) && v.p7 == u64_at(s, p + 48, little_endian),
        ConversionTypes::Rational(v) => conversion == 9 && v.p1 == u64_at(s, p, little_endian)
            && v.p2 == u64_at(s, p + 8, little_endian) && v.p3 == u64_at(s, p + 16, little_endian)
            && v.p4 == u64_at(s, p + 24, little_endian) && v.p5 == u64_at(s, p + 32, little_endian)
            && v.p6 == u64_at(s, p + 40, little_endian),
        ConversionTypes::Date(d) => conversion == 132 && d.ms == u16_at(s, p, little_endian)
            && d.min == s[p + 2] && d.hour == s[p + 3] && d.day == s[p + 4] && d.month == s[p + 5]
            && d.year == s[p + 6],
        ConversionTypes::Time(t) => conversion == 133 && t.ms == u32_at(s, p, little_endian)
            && t.days == s[p + 4],
        _ => false,
    }
}

/// The code table of the conversions that can be read: 0 is linear, 6
/// polynomial, 7 exponential, 8 logarithmic, 9 rational, 132 date and 133
/// time, each read from the bytes at `p` in order.
pub proof fn lemma_conversion_code_table(
    s: Seq<u8>,
    p: int,
    little_endian: bool,
    conversion: u16,
    c: ConversionTypes,
)
    requires
        conversion_at(s, p, little_endian, conversion, c),
    ensures
        conversion == 0 <==> c is Linear,
        conversion == 6 <==> c is Polynomial,
        conversion == 7 <==> c is Exponential,
        conversion == 8 <==> c is Logarithmic,
        conversion == 9 <==> c is Rational,
        conversion == 132 <==> c is Date,
        conversion == 133 <==> c is Time,
        c matches ConversionTypes::Exponential(v) ==> seq![v.p1, v.p2, v.p3, v.p4, v.p5, v.p6, v.p7]
            == Seq::new(7, |i: int| u64_at(s, p + 8 * i, little_endian)),
        c matches ConversionTypes::Logarithmic(v) ==> seq![v.p1, v.p2, v.p3, v.p4, v.p5, v.p6, v.p7]
            == Seq::new(7, |i: int| u64_at(s, p + 8 * i, little_endian)),
{
    match c {
        ConversionTypes::Exponential(v) => {
            assert(seq![v.p1, v.p2, v.p3, v.p4, v.p5, v.p6, v.p7] =~= Seq::new(
                7,
                |i: int| u64_at(s, p + 8 * i, little_endian),
            ));
        },
        ConversionTypes::Logarithmic(v) => {
            assert(seq![v.p1, v.p2, v.p3, v.p4, v.p5, v.p6, v.p7] =~= Seq::new(
                7,
                |i: int| u64_at(s, p + 8 * i, little_endian),
            ));
        },
        _ => {},
    }
}

impl ConversionTypes {
    /// Reads the conversion of type `conversion` at `position`. Only the
    /// linear, polynomial, exponential, logarithmic, rational, date and time
    /// conversions can be read.
    pub fn new(stream: &[u8], position: usize, little_endian: bool, conversion: u16) -> (r: Self)
        requires
            conversion_data_len(conversion) >= 0,
            position + conversion_data_len(conversion) <= stream@.len(),
        ensures
            conversion_at(stream@, position as int, little_endian, conversion, r),
            conversion == 0 <==> r is Linear,
            conversion == 6 <==> r is Polynomial,
            conversion == 7 <==> r is Exponential,
            conversion == 8 <==> r is Logarithmic,
            conversion == 9 <==> r is Rational,
            conversion == 132 <==> r is Date,
            conversion == 133 <==> r is Time,
    {
        if conversion == 0 {
            let (_, con) = Linear::read(stream, position, little_endian);
            ConversionTypes::Linear(con)
        } else if conversion == 6 {
            let (_, con) = Polynomial::read(stream, position, little_endian);
            ConversionTypes::Polynomial(con)
        } else if conversion == 7 {
            let (_, con) = Exponential::read(stream, position, little_endian);
            ConversionTypes::Exponential(con)
        } else if conversion == 8 {
            let (_, con) = Logarithmic::read(stream, position, little_endian);
            ConversionTypes::Logarithmic(con)
        } else if conversion == 9 {
            let (_, con) = Rational::read(stream, position, little_endian);
            ConversionTypes::Rational(con)
        } else if conversion == 132 {
            let (_, con) = Date::read(stream, position, little_endian);
            ConversionTypes::Date(con)
        } else {
            let (_, con) = Time::read(stream, position, little_endian);
            ConversionTypes::Time(con)
        }
    }
}

} // verus!
