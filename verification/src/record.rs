//! The data types that an MDF version 3 channel can record, and their codes.
use crate::mdf4::utils::{nul_position, until_nul};
use crate::utils::{
    bytes_to_vec, i8_at, lemma_byte_range_values, lemma_read_written, read_i8, read_u32, read_u64,
    u32_at, u64_at, uint_bytes, write_u32, write_u64,
};
use vstd::prelude::*;
use vstd::string::StringSliceAdditionalSpecFns;
use vstd::utf8::encode_utf8;

verus! {

pub const UNSIGNED_INT_DEFAULT: u16 = 0;
pub const SIGNED_INT_DEFAULT: u16 = 1;
pub const FLOAT32_DEFAULT: u16 = 2;
pub const FLOAT64_DEFAULT: u16 = 3;
pub const FFLOAT_DEFAULT: u16 = 4;
pub const GFLOAT_DEFAULT: u16 = 5;
pub const DFLOAT_DEFAULT: u16 = 6;
pub const STRING_NULL_TERM: u16 = 7;
pub const BYTE_ARRAY: u16 = 8;
pub const UNSIGNED_INT_BIGENDIAN: u16 = 9;
pub const SIGNED_INT_BIGENDIAN: u16 = 10;
pub const FLOAT32_BIGENDIAN: u16 = 11;
pub const FLOAT64_BIGENDIAN: u16 = 12;
pub const UNSIGNED_INT_LITTLEENDIAN: u16 = 13;
pub const SIGNED_INT_LITTLEENDIAN: u16 = 14;
pub const FLOAT32_INT_LITTLEENDIAN: u16 = 15;
pub const FLOAT64_INT_LITTLEENDIAN: u16 = 16;

/// The largest data type code that MDF version 3 defines.
pub const MAX_DATA_TYPE_CODE: u16 = 16;

#[derive(Debug, Clone, Copy, PartialEq, Eq, Structural)]
pub enum DataType {
    UnsignedInt,
    SignedInt,
    Float32,
    Float64,
    FFloat,
    GFloat,
    DFloat,
    StringNullTerm,
    ByteArray,
}

impl DataType {
    /// The code that stands for this data type in the file's own byte order.
    pub open spec fn default_code(self) -> u16 {
        match self {
            DataType::UnsignedInt => UNSIGNED_INT_DEFAULT,
            DataType::SignedInt => SIGNED_INT_DEFAULT,
            DataType::Float32 => FLOAT32_DEFAULT,
            DataType::Float64 => FLOAT64_DEFAULT,
            DataType::FFloat => FFLOAT_DEFAULT,
            DataType::GFloat => GFLOAT_DEFAULT,
            DataType::DFloat => DFLOAT_DEFAULT,
            DataType::StringNullTerm => STRING_NULL_TERM,
            DataType::ByteArray => BYTE_ARRAY,
        }
    }

    /// Number of bytes that one value of this type takes in a record (0 where
    /// the width is not fixed by the type alone).
    pub open spec fn byte_width(self) -> nat {
        match self {
            DataType::UnsignedInt => 1,
            DataType::SignedInt => 1,
            DataType::Float32 => 4,
            DataType::Float64 => 8,
            _ => 0,
        }
    }
}

/// A data type together with the byte order its values are stored in.
#[derive(Debug, Clone, Copy, PartialEq, Eq, Structural)]
pub struct DataTypeRead {
    pub data_type: DataType,
    pub little_endian: bool,
}

impl DataTypeRead {
    /// The data type that code `datatype` stands for; codes 0 to 8 keep the
    /// file's byte order, the others fix it.
    pub open spec fn spec_new(datatype: u16, little_endian: bool) -> DataTypeRead {
        let (data_type, le) = if datatype == UNSIGNED_INT_DEFAULT {
            (DataType::UnsignedInt, little_endian)
        } else if datatype == SIGNED_INT_DEFAULT {
            (DataType::SignedInt, little_endian)
        } else if datatype == FLOAT32_DEFAULT {
            (DataType::Float32, little_endian)
        } else if datatype == FLOAT64_DEFAULT {
            (DataType::Float64, little_endian)
        } else if datatype == FFLOAT_DEFAULT {
            (DataType::FFloat, little_endian)
        } else if datatype == GFLOAT_DEFAULT {
            (DataType::GFloat, little_endian)
        } else if datatype == DFLOAT_DEFAULT {
            (DataType::DFloat, little_endian)
        } else if datatype == STRING_NULL_TERM {
            (DataType::StringNullTerm, little_endian)
        } else if datatype == BYTE_ARRAY {
            (DataType::ByteArray, little_endian)
        } else if datatype == UNSIGNED_INT_BIGENDIAN {
            (DataType::UnsignedInt, false)
        } else if datatype == SIGNED_INT_BIGENDIAN {
            (DataType::SignedInt, false)
        } else if datatype == FLOAT32_BIGENDIAN {
            (DataType::Float32, false)
        } else if datatype == FLOAT64_BIGENDIAN {
            (DataType::Float64, false)
        } else if datatype == UNSIGNED_INT_LITTLEENDIAN {
            (DataType::UnsignedInt, true)
        } else if datatype == SIGNED_INT_LITTLEENDIAN {
            (DataType::SignedInt, true)
        } else if datatype == FLOAT32_INT_LITTLEENDIAN {
            (DataType::Float32, true)
        } else {
            (DataType::Float64, true)
        };
        DataTypeRead { data_type, little_endian: le }
    }

    /// The code table of data types: codes 0 to 8 are the data types in the
    /// file's own byte order; codes 9 to 12 are unsigned integer, signed
    /// integer, 32-bit float and 64-bit float stored big endian, and codes 13
    /// to 16 the same four stored little endian, whatever the file's byte
    /// order.
    pub proof fn lemma_code_table(datatype: u16, little_endian: bool)
        requires
            datatype <= MAX_DATA_TYPE_CODE,
        ensures
            datatype <= 8 ==> {
                &&& DataTypeRead::spec_new(datatype, little_endian).little_endian == little_endian
                &&& DataTypeRead::spec_new(datatype, little_endian).data_type.default_code()
                    == datatype
            },
            9 <= datatype <= 12 ==> {
                &&& !DataTypeRead::spec_new(datatype, little_endian).little_endian
                &&& DataTypeRead::spec_new(datatype, little_endian).data_type.default_code()
                    == datatype - 9
            },
            13 <= datatype ==> {
                &&& DataTypeRead::spec_new(datatype, little_endian).little_endian
                &&& DataTypeRead::spec_new(datatype, little_endian).data_type.default_code()
                    == datatype - 13
            },
            datatype == 11 ==> DataTypeRead::spec_new(datatype, little_endian) == (DataTypeRead {
                data_type: DataType::Float32,
                little_endian: false,
            }),
            datatype == 12 ==> DataTypeRead::spec_new(datatype, little_endian) == (DataTypeRead {
                data_type: DataType::Float64,
                little_endian: false,
            }),
            datatype == 15 ==> DataTypeRead::spec_new(datatype, little_endian) == (DataTypeRead {
                data_type: DataType::Float32,
                little_endian: true,
            }),
            datatype == 16 ==> DataTypeRead::spec_new(datatype, little_endian) == (DataTypeRead {
                data_type: DataType::Float64,
                little_endian: true,
            }),
    {
    }

    /// Decodes a data type code; codes above 16 are not data types.
    pub fn new(datatype: u16, little_endian: bool) -> (r: DataTypeRead)
        requires
            datatype <= MAX_DATA_TYPE_CODE,
        ensures
            r == DataTypeRead::spec_new(datatype, little_endian),
            datatype <= 8 ==> r.little_endian == little_endian && r.data_type.default_code()
                == datatype,
            9 <= datatype <= 12 ==> !r.little_endian && r.data_type.default_code() == datatype - 9,
            13 <= datatype ==> r.little_endian && r.data_type.default_code() == datatype - 13,
    {
        match datatype {
            UNSIGNED_INT_DEFAULT => DataTypeRead { data_type: DataType::UnsignedInt, little_endian },
            SIGNED_INT_DEFAULT => DataTypeRead { data_type: DataType::SignedInt, little_endian },
            FLOAT32_DEFAULT => DataTypeRead { data_type: DataType::Float32, little_endian },
            FLOAT64_DEFAULT => DataTypeRead { data_type: DataType::Float64, little_endian },
            FFLOAT_DEFAULT => DataTypeRead { data_type: DataType::FFloat, little_endian },
            GFLOAT_DEFAULT => DataTypeRead { data_type: DataType::GFloat, little_endian },
            DFLOAT_DEFAULT => DataTypeRead { data_type: DataType::DFloat, little_endian },
            STRING_NULL_TERM => DataTypeRead { data_type: DataType::StringNullTerm, little_endian },
            BYTE_ARRAY => DataTypeRead { data_type: DataType::ByteArray, little_endian },
            UNSIGNED_INT_BIGENDIAN => DataTypeRead {
                data_type: DataType::UnsignedInt,
                little_endian: false,
            },
            SIGNED_INT_BIGENDIAN => DataTypeRead {
                data_type: DataType::SignedInt,
                little_endian: false,
            },
            FLOAT32_BIGENDIAN => DataTypeRead { data_type: DataType::Float32, little_endian: false },
            FLOAT64_BIGENDIAN => DataTypeRead { data_type: DataType::Float64, little_endian: false },
            UNSIGNED_INT_LITTLEENDIAN => DataTypeRead {
                data_type: DataType::UnsignedInt,
                little_endian: true,
            },
            SIGNED_INT_LITTLEENDIAN => DataTypeRead {
                data_type: DataType::SignedInt,
                little_endian: true,
            },
            FLOAT32_INT_LITTLEENDIAN => DataTypeRead {
                data_type: DataType::Float32,
                little_endian: true,
            },
            _ => DataTypeRead { data_type: DataType::Float64, little_endian: true },
        }
    }

    /// The two bytes that describe this data type: its code in the file's own
    /// byte order, then 1 for little endian and 0 for big endian.
    pub open spec fn spec_write(self) -> Seq<u8> {
        seq![self.data_type.default_code() as u8, if self.little_endian { 1u8 } else { 0u8 }]
    }

    pub fn write(&self, _little_endian: bool) -> (r: Vec<u8>)
        ensures
            r@ == self.spec_write(),
    {
        let flag: u8 = if self.little_endian {
            1
        } else {
            0
        };
        let code: u8 = match self.data_type {
            DataType::UnsignedInt => 0,
            DataType::SignedInt => 1,
            DataType::Float32 => 2,
            DataType::Float64 => 3,
            DataType::FFloat => 4,
            DataType::GFloat => 5,
            DataType::DFloat => 6,
            DataType::StringNullTerm => 7,
            DataType::ByteArray => 8,
        };
        let r = vec![code, flag];
        assert(r@ =~= self.spec_write());
        r
    }

    /// Number of bytes one value takes in a record.
    pub fn len(self) -> (r: usize)
        ensures
            r as nat == self.data_type.byte_width(),
    {
        match self.data_type {
            DataType::UnsignedInt => 1,
            DataType::SignedInt => 1,
            DataType::Float32 => 4,
            DataType::Float64 => 8,
            DataType::FFloat => 0,
            DataType::GFloat => 0,
            DataType::DFloat => 0,
            DataType::StringNullTerm => 0,
            DataType::ByteArray => 0,
        }
    }

    pub fn is_empty(self) -> (r: bool)
        ensures
            r == (self.data_type.byte_width() == 0),
    {
        self.len() == 0
    }
}

/// Reading back the two bytes that `write` gives, with the second byte as the
/// byte order, yields the data type that was written.
pub proof fn lemma_data_type_write_read(d: DataTypeRead)
    ensures
        d.spec_write()[0] <= MAX_DATA_TYPE_CODE,
        DataTypeRead::spec_new(d.spec_write()[0] as u16, d.spec_write()[1] == 1) == d,
{
}

/// One recorded value. Floating point values are kept as their IEEE 754 bits.
#[derive(Debug, Clone, PartialEq)]
pub enum Record {
    Uint(u8),
    Int(i8),
    Float32(u32),
    Float64(u64),
    StringNullTerm(String),
}

/// The characters that the bytes of `b` stand for, one character per byte.
pub open spec fn latin1(b: Seq<u8>) -> Seq<char> {
    b.map_values(|c: u8| c as char)
}

/// The data types that a record can be read as.
pub open spec fn record_type(d: DataType) -> bool {
    match d {
        DataType::UnsignedInt => true,
        DataType::SignedInt => true,
        DataType::Float32 => true,
        DataType::Float64 => true,
        DataType::StringNullTerm => true,
        _ => false,
    }
}

/// Number of bytes a record of type `d` needs; a string takes what there is.
pub open spec fn record_width(d: DataType) -> nat {
    match d {
        DataType::Float32 => 4,
        DataType::Float64 => 8,
        DataType::StringNullTerm => 0,
        _ => 1,
    }
}

/// The record that the bytes `s` hold as data type `dtype`.
pub open spec fn record_of(s: Seq<u8>, dtype: DataTypeRead) -> Record {
    match dtype.data_type {
        DataType::UnsignedInt => Record::Uint(s[0]),
        DataType::SignedInt => Record::Int(i8_at(s, 0)),
        DataType::Float32 => Record::Float32(u32_at(s, 0, dtype.little_endian)),
        DataType::Float64 => Record::Float64(u64_at(s, 0, dtype.little_endian)),
        _ => Record::Uint(0),
    }
}

/// `std::string::String::push`: appends `c`. Claimed: the text gains `c`
/// at its end and is otherwise unchanged.
#[verifier::external_body]
fn push_char(s: &mut String, c: char)
    ensures
        final(s)@ == old(s)@.push(c),
{
    s.push(c);
}

impl Record {
    /// The bytes that `write` gives.
    pub open spec fn spec_write(self, little_endian: bool) -> Seq<u8> {
        match self {
            Record::Uint(n) => seq![n],
            Record::Int(n) => seq![n as u8],
            Record::Float32(bits) => uint_bytes(bits as nat, 4, little_endian),
            Record::Float64(bits) => uint_bytes(bits as nat, 8, little_endian),
            Record::StringNullTerm(text) => encode_utf8(text@),
        }
    }

    /// Reads a record of type `dtype` from the start of `stream`; a string
    /// takes one character for each byte up to the first zero byte.
    pub fn new(stream: &[u8], dtype: DataTypeRead) -> (r: Self)
        requires
            record_type(dtype.data_type),
            stream@.len() >= record_width(dtype.data_type),
        ensures
            dtype.data_type == DataType::StringNullTerm ==> (r matches Record::StringNullTerm(t) && t@
                == latin1(until_nul(stream@))),
            dtype.data_type != DataType::StringNullTerm ==> r == record_of(stream@, dtype),
    {
        match dtype.data_type {
            DataType::UnsignedInt => Record::Uint(stream[0]),
            DataType::SignedInt => {
                let mut p: usize = 0;
                Record::Int(read_i8(stream, &mut p))
            },
            DataType::Float32 => {
                let mut p: usize = 0;
                Record::Float32(read_u32(stream, dtype.little_endian, &mut p))
            },
            DataType::Float64 => {
                let mut p: usize = 0;
                Record::Float64(read_u64(stream, dtype.little_endian, &mut p))
            },
            _ => {
                let end = nul_position(stream);
                let mut string = String::new();
                let mut i: usize = 0;
                while i < end
                    invariant
                        end <= stream@.len(),
                        i <= end,
                        until_nul(stream@) == stream@.subrange(0, end as int),
                        string@ == latin1(stream@.subrange(0, i as int)),
                    decreases end - i,
                {
                    let c = stream[i] as char;
                    push_char(&mut string, c);
                    i = i + 1;
                    assert(string@ =~= latin1(stream@.subrange(0, i as int)));
                }
                Record::StringNullTerm(string)
            },
        }
    }

    /// The bytes of the value: one byte for the integers, the bits of the
    /// floating point values in the given byte order, the UTF-8 of a string.
    pub fn write(&self, little_endian: bool) -> (r: Vec<u8>)
        ensures
            r@ == self.spec_write(little_endian),
    {
        let mut array: Vec<u8> = Vec::new();
        match self {
            Record::Uint(number) => array.push(*number),
            Record::Int(number) => array.push(*number as u8),
            Record::Float32(bits) => {
                let mut part = write_u32(*bits, little_endian);
                array.append(&mut part);
            },
            Record::Float64(bits) => {
                let mut part = write_u64(*bits, little_endian);
                array.append(&mut part);
            },
            Record::StringNullTerm(string) => {
                let mut part = bytes_to_vec(string.as_str().as_bytes());
                array.append(&mut part);
            },
        }
        assert(array@ =~= self.spec_write(little_endian));
        array
    }
}

/// Reading back what `write` gives, as the record's own data type and in the
/// byte order it was written in, yields the record, for every record but a
/// string.
pub proof fn lemma_record_write_read(r: Record, little_endian: bool)
    requires
        !(r is StringNullTerm),
    ensures
        ({
            let d = match r {
                Record::Uint(_) => DataType::UnsignedInt,
                Record::Int(_) => DataType::SignedInt,
                Record::Float32(_) => DataType::Float32,
                _ => DataType::Float64,
            };
            let dtype = DataTypeRead { data_type: d, little_endian };
            r.spec_write(little_endian).len() >= record_width(d) && record_of(
                r.spec_write(little_endian),
                dtype,
            ) == r
        }),
{
    lemma_byte_range_values();
    let w = r.spec_write(little_endian);
    match r {
        Record::Int(n) => {
            let b = #[verifier::truncate] (n as u8);
            assert(n >= 0 ==> b == n) by (bit_vector)
                requires
                    b == #[verifier::truncate] (n as u8),
            ;
            assert(n < 0 ==> b == n + 256) by (bit_vector)
                requires
                    b == #[verifier::truncate] (n as u8),
            ;
            assert(w[0] == b);
            reveal_with_fuel(crate::utils::uint_le, 2);
            assert(crate::utils::uint_le(w, 0, 1) == b as nat);
            assert(crate::utils::int_at(w, 0, 1, true) == n);
        },
        Record::Float32(bits) => {
            assert(w.subrange(0, 4) =~= w);
            lemma_read_written(w, 0, bits as nat, 4, little_endian);
        },
        Record::Float64(bits) => {
            assert(w.subrange(0, 8) =~= w);
            lemma_read_written(w, 0, bits as nat, 8, little_endian);
        },
        _ => {},
    }
}

} // verus!
