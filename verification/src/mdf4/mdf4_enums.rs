//! The enumerated fields of MDF version 4 blocks and the byte codes that stand for them.
use crate::record;
use vstd::prelude::*;

verus! {
/// Kind of a channel hierarchy block.
#[derive(Debug, Clone, Copy, PartialEq, Eq, Structural)]
pub enum ChannelHierarchyType {
    Group,
    Function,
    Structure,
    MapList,
    FunctionInput,
    FunctionOutput,
    FunctionLocal,
    FunctionCalDef,
    FunctionCalRef,
}

impl ChannelHierarchyType {
    /// The value that code `code` stands for.
    pub open spec fn spec_new(code: u8) -> Self {
        if code == 0 {
            ChannelHierarchyType::Group
        } else if code == 1 {
            ChannelHierarchyType::Function
        } else if code == 2 {
            ChannelHierarchyType::Structure
        } else if code == 3 {
            ChannelHierarchyType::MapList
        } else if code == 4 {
            ChannelHierarchyType::FunctionInput
        } else if code == 5 {
            ChannelHierarchyType::FunctionOutput
        } else if code == 6 {
            ChannelHierarchyType::FunctionLocal
        } else if code == 7 {
            ChannelHierarchyType::FunctionCalDef
        } else {
            ChannelHierarchyType::FunctionCalRef
        }
    }

    /// The code that stands for this value.
    pub open spec fn code(self) -> u8 {
        match self {
            ChannelHierarchyType::Group => 0,
            ChannelHierarchyType::Function => 1,
            ChannelHierarchyType::Structure => 2,
            ChannelHierarchyType::MapList => 3,
            ChannelHierarchyType::FunctionInput => 4,
            ChannelHierarchyType::FunctionOutput => 5,
            ChannelHierarchyType::FunctionLocal => 6,
            ChannelHierarchyType::FunctionCalDef => 7,
            ChannelHierarchyType::FunctionCalRef => 8,
        }
    }

    /// Decodes a code; codes outside 0..=8 stand for no value.
    pub fn new(code: u8) -> (r: Self)
        requires
            code <= 8,
        ensures
            r == Self::spec_new(code),
    {
        match code {
            0 => ChannelHierarchyType::Group,
            1 => ChannelHierarchyType::Function,
            2 => ChannelHierarchyType::Structure,
            3 => ChannelHierarchyType::MapList,
            4 => ChannelHierarchyType::FunctionInput,
            5 => ChannelHierarchyType::FunctionOutput,
            6 => ChannelHierarchyType::FunctionLocal,
            7 => ChannelHierarchyType::FunctionCalDef,
            _ => ChannelHierarchyType::FunctionCalRef,
        }
    }

    /// Whether `code` stands for a value.
    pub fn is_code(code: u8) -> (r: bool)
        ensures
            r == (code <= 8),
    {
        code <= 8
    }
}

/// Kind of an event.
#[derive(Debug, Clone, Copy, PartialEq, Eq, Structural)]
pub enum EventType {
    Recording,
    RecordingInterrupt,
    AcquistionInterrupt,
    StartRecordingTrigger,
    StopRecordingTrigger,
    Trigger,
    Marker,
}

impl EventType {
    /// The value that code `code` stands for.
    pub open spec fn spec_new(code: u8) -> Self {
        if code == 0 {
            EventType::Recording
        } else if code == 1 {
            EventType::RecordingInterrupt
        } else if code == 2 {
            EventType::AcquistionInterrupt
        } else if code == 3 {
            EventType::StartRecordingTrigger
        } else if code == 4 {
            EventType::StopRecordingTrigger
        } else if code == 5 {
            EventType::Trigger
        } else {
            EventType::Marker
        }
    }

    /// The code that stands for this value.
    pub open spec fn code(self) -> u8 {
        match self {
            EventType::Recording => 0,
            EventType::RecordingInterrupt => 1,
            EventType::AcquistionInterrupt => 2,
            EventType::StartRecordingTrigger => 3,
            EventType::StopRecordingTrigger => 4,
            EventType::Trigger => 5,
            EventType::Marker => 6,
        }
    }

    /// Decodes a code; codes outside 0..=6 stand for no value.
    pub fn new(code: u8) -> (r: Self)
        requires
            code <= 6,
        ensures
            r == Self::spec_new(code),
    {
        match code {
            0 => EventType::Recording,
            1 => EventType::RecordingInterrupt,
            2 => EventType::AcquistionInterrupt,
            3 => EventType::StartRecordingTrigger,
            4 => EventType::StopRecordingTrigger,
            5 => EventType::Trigger,
            _ => EventType::Marker,
        }
    }

    /// Whether `code` stands for a value.
    pub fn is_code(code: u8) -> (r: bool)
        ensures
            r == (code <= 6),
    {
        code <= 6
    }
}

/// Unit of an event's synchronisation value.
#[derive(Debug, Clone, Copy, PartialEq, Eq, Structural)]
pub enum EventSyncType {
    Seconds,
    Radians,
    Meters,
    Index,
}

impl EventSyncType {
    /// The value that code `code` stands for.
    pub open spec fn spec_new(code: u8) -> Self {
        if code == 1 {
            EventSyncType::Seconds
        } else if code == 2 {
            EventSyncType::Radians
        } else if code == 3 {
            EventSyncType::Meters
        } else {
            EventSyncType::Index
        }
    }

    /// The code that stands for this value.
    pub open spec fn code(self) -> u8 {
        match self {
            EventSyncType::Seconds => 1,
            EventSyncType::Radians => 2,
            EventSyncType::Meters => 3,
            EventSyncType::Index => 4,
        }
    }

    /// Decodes a code; codes outside 1..=4 stand for no value.
    pub fn new(code: u8) -> (r: Self)
        requires
            1 <= code <= 4,
        ensures
            r == Self::spec_new(code),
    {
        match code {
            1 => EventSyncType::Seconds,
            2 => EventSyncType::Radians,
            3 => EventSyncType::Meters,
            _ => EventSyncType::Index,
        }
    }

    /// Whether `code` stands for a value.
    pub fn is_code(code: u8) -> (r: bool)
        ensures
            r == (1 <= code <= 4),
    {
        1 <= code && code <= 4
    }
}

/// Whether an event is a point or opens or closes a range.
#[derive(Debug, Clone, Copy, PartialEq, Eq, Structural)]
pub enum RangeType {
    Point,
    RangeBegin,
    RangeEnd,
}

impl RangeType {
    /// The value that code `code` stands for.
    pub open spec fn spec_new(code: u8) -> Self {
        if code == 0 {
            RangeType::Point
        } else if code == 1 {
            RangeType::RangeBegin
        } else {
            RangeType::RangeEnd
        }
    }

    /// The code that stands for this value.
    pub open spec fn code(self) -> u8 {
        match self {
            RangeType::Point => 0,
            RangeType::RangeBegin => 1,
            RangeType::RangeEnd => 2,
        }
    }

    /// Decodes a code; codes outside 0..=2 stand for no value.
    pub fn new(code: u8) -> (r: Self)
        requires
            code <= 2,
        ensures
            r == Self::spec_new(code),
    {
        match code {
            0 => RangeType::Point,
            1 => RangeType::RangeBegin,
            _ => RangeType::RangeEnd,
        }
    }

    /// Whether `code` stands for a value.
    pub fn is_code(code: u8) -> (r: bool)
        ensures
            r == (code <= 2),
    {
        code <= 2
    }
}

/// What caused an event.
#[derive(Debug, Clone, Copy, PartialEq, Eq, Structural)]
pub enum EventCause {
    Other,
    Error,
    Tool,
    Script,
    User,
}

impl EventCause {
    /// The value that code `code` stands for.
    pub open spec fn spec_new(code: u8) -> Self {
        if code == 0 {
            EventCause::Other
        } else if code == 1 {
            EventCause::Error
        } else if code == 2 {
            EventCause::Tool
        } else if code == 3 {
            EventCause::Script
        } else {
            EventCause::User
        }
    }

    /// The code that stands for this value.
    pub open spec fn code(self) -> u8 {
        match self {
            EventCause::Other => 0,
            EventCause::Error => 1,
            EventCause::Tool => 2,
            EventCause::Script => 3,
            EventCause::User => 4,
        }
    }

    /// Decodes a code; codes outside 0..=4 stand for no value.
    pub fn new(code: u8) -> (r: Self)
        requires
            code <= 4,
        ensures
            r == Self::spec_new(code),
    {
        match code {
            0 => EventCause::Other,
            1 => EventCause::Error,
            2 => EventCause::Tool,
            3 => EventCause::Script,
            _ => EventCause::User,
        }
    }

    /// Whether `code` stands for a value.
    pub fn is_code(code: u8) -> (r: bool)
        ensures
            r == (code <= 4),
    {
        code <= 4
    }
}

/// Kind of an acquisition source.
#[derive(Debug, Clone, Copy, PartialEq, Eq, Structural)]
pub enum SourceType {
    Other,
    Ecu,
    Bus,
    IO,
    Tool,
    User,
}

impl SourceType {
    /// The value that code `code` stands for.
    pub open spec fn spec_new(code: u8) -> Self {
        if code == 0 {
            SourceType::Other
        } else if code == 1 {
            SourceType::Ecu
        } else if code == 2 {
            SourceType::Bus
        } else if code == 3 {
            SourceType::IO
        } else if code == 4 {
            SourceType::Tool
        } else {
            SourceType::User
        }
    }

    /// The code that stands for this value.
    pub open spec fn code(self) -> u8 {
        match self {
            SourceType::Other => 0,
            SourceType::Ecu => 1,
            SourceType::Bus => 2,
            SourceType::IO => 3,
            SourceType::Tool => 4,
            SourceType::User => 5,
        }
    }

    /// Decodes a code; codes outside 0..=5 stand for no value.
    pub fn new(code: u8) -> (r: Self)
        requires
            code <= 5,
        ensures
            r == Self::spec_new(code),
    {
        match code {
            0 => SourceType::Other,
            1 => SourceType::Ecu,
            2 => SourceType::Bus,
            3 => SourceType::IO,
            4 => SourceType::Tool,
            _ => SourceType::User,
        }
    }

    /// Whether `code` stands for a value.
    pub fn is_code(code: u8) -> (r: bool)
        ensures
            r == (code <= 5),
    {
        code <= 5
    }
}

/// Bus an acquisition source is attached to.
#[derive(Debug, Clone, Copy, PartialEq, Eq, Structural)]
pub enum BusType {
    NoBus,
    Other,
    Can,
    Lin,
    Most,
    FlexRay,
    KLine,
    Ethernet,
    Usb,
}

impl BusType {
    /// The value that code `code` stands for.
    pub open spec fn spec_new(code: u8) -> Self {
        if code == 0 {
            BusType::NoBus
        } else if code == 1 {
            BusType::Other
        } else if code == 2 {
            BusType::Can
        } else if code == 3 {
            BusType::Lin
        } else if code == 4 {
            BusType::Most
        } else if code == 5 {
            BusType::FlexRay
        } else if code == 6 {
            BusType::KLine
        } else if code == 7 {
            BusType::Ethernet
        } else {
            BusType::Usb
        }
    }

    /// The code that stands for this value.
    pub open spec fn code(self) -> u8 {
        match self {
            BusType::NoBus => 0,
            BusType::Other => 1,
            BusType::Can => 2,
            BusType::Lin => 3,
            BusType::Most => 4,
            BusType::FlexRay => 5,
            BusType::KLine => 6,
            BusType::Ethernet => 7,
            BusType::Usb => 8,
        }
    }

    /// Decodes a code; codes outside 0..=8 stand for no value.
    pub fn new(code: u8) -> (r: Self)
        requires
            code <= 8,
        ensures
            r == Self::spec_new(code),
    {
        match code {
            0 => BusType::NoBus,
            1 => BusType::Other,
            2 => BusType::Can,
            3 => BusType::Lin,
            4 => BusType::Most,
            5 => BusType::FlexRay,
            6 => BusType::KLine,
            7 => BusType::Ethernet,
            _ => BusType::Usb,
        }
    }

    /// Whether `code` stands for a value.
    pub fn is_code(code: u8) -> (r: bool)
        ensures
            r == (code <= 8),
    {
        code <= 8
    }
}

/// Compression of a zipped data block.
#[derive(Debug, Clone, Copy, PartialEq, Eq, Structural)]
pub enum ZipType {
    Deflate,
    TransposeDeflate,
}

impl ZipType {
    /// The value that code `code` stands for.
    pub open spec fn spec_new(code: u8) -> Self {
        if code == 0 {
            ZipType::Deflate
        } else {
            ZipType::TransposeDeflate
        }
    }

    /// The code that stands for this value.
    pub open spec fn code(self) -> u8 {
        match self {
            ZipType::Deflate => 0,
            ZipType::TransposeDeflate => 1,
        }
    }

    /// Decodes a code; codes outside 0..=1 stand for no value.
    pub fn new(code: u8) -> (r: Self)
        requires
            code <= 1,
        ensures
            r == Self::spec_new(code),
    {
        match code {
            0 => ZipType::Deflate,
            _ => ZipType::TransposeDeflate,
        }
    }

    /// Whether `code` stands for a value.
    pub fn is_code(code: u8) -> (r: bool)
        ensures
            r == (code <= 1),
    {
        code <= 1
    }
}

/// Kind of a channel.
#[derive(Debug, Clone, Copy, PartialEq, Eq, Structural)]
pub enum ChannelType {
    FixedLength,
    VariableLength,
    Master,
    VirtualMaster,
    Sync,
    MaxLengthData,
    VirtualData,
}

impl ChannelType {
    /// The value that code `code` stands for.
    pub open spec fn spec_new(code: u8) -> Self {
        if code == 0 {
            ChannelType::FixedLength
        } else if code == 1 {
            ChannelType::VariableLength
        } else if code == 2 {
            ChannelType::Master
        } else if code == 3 {
            ChannelType::VirtualMaster
        } else if code == 4 {
            ChannelType::Sync
        } else if code == 5 {
            ChannelType::MaxLengthData
        } else {
            ChannelType::VirtualData
        }
    }

    /// The code that stands for this value.
    pub open spec fn code(self) -> u8 {
        match self {
            ChannelType::FixedLength => 0,
            ChannelType::VariableLength => 1,
            ChannelType::Master => 2,
            ChannelType::VirtualMaster => 3,
            ChannelType::Sync => 4,
            ChannelType::MaxLengthData => 5,
            ChannelType::VirtualData => 6,
        }
    }

    /// Decodes a code; codes outside 0..=6 stand for no value.
    pub fn new(code: u8) -> (r: Self)
        requires
            code <= 6,
        ensures
            r == Self::spec_new(code),
    {
        match code {
            0 => ChannelType::FixedLength,
            1 => ChannelType::VariableLength,
            2 => ChannelType::Master,
            3 => ChannelType::VirtualMaster,
            4 => ChannelType::Sync,
            5 => ChannelType::MaxLengthData,
            _ => ChannelType::VirtualData,
        }
    }

    /// Whether `code` stands for a value.
    pub fn is_code(code: u8) -> (r: bool)
        ensures
            r == (code <= 6),
    {
        code <= 6
    }
}

/// Synchronisation domain of a channel.
#[derive(Debug, Clone, Copy, PartialEq, Eq, Structural)]
pub enum SyncType {
    NoSync,
    Time,
    Angle,
    Distance,
    Index,
}

impl SyncType {
    /// The value that code `code` stands for.
    pub open spec fn spec_new(code: u8) -> Self {
        if code == 0 {
            SyncType::NoSync
        } else if code == 1 {
            SyncType::Time
        } else if code == 2 {
            SyncType::Angle
        } else if code == 3 {
            SyncType::Distance
        } else {
            SyncType::Index
        }
    }

    /// The code that stands for this value.
    pub open spec fn code(self) -> u8 {
        match self {
            SyncType::NoSync => 0,
            SyncType::Time => 1,
            SyncType::Angle => 2,
            SyncType::Distance => 3,
            SyncType::Index => 4,
        }
    }

    /// Decodes a code; codes outside 0..=4 stand for no value.
    pub fn new(code: u8) -> (r: Self)
        requires
            code <= 4,
        ensures
            r == Self::spec_new(code),
    {
        match code {
            0 => SyncType::NoSync,
            1 => SyncType::Time,
            2 => SyncType::Angle,
            3 => SyncType::Distance,
            _ => SyncType::Index,
        }
    }

    /// Whether `code` stands for a value.
    pub fn is_code(code: u8) -> (r: bool)
        ensures
            r == (code <= 4),
    {
        code <= 4
    }
}

/// Encoding of a channel's values.
#[derive(Debug, Clone, Copy, PartialEq, Eq, Structural)]
pub enum DataType {
    UnsignedByteLE,
    UnsignedByteBE,
    SignedLE,
    SignedBE,
    FloatLE,
    FloatBE,
    StringLatin,
    StringUTF8,
    StringUTF16LE,
    StringUTF16BE,
    ByteArray,
    MIMESample,
    CANopenData,
    CANopenTime,
}

impl DataType {
    /// The value that code `code` stands for.
    pub open spec fn spec_new(code: u8) -> Self {
        if code == 0 {
            DataType::UnsignedByteLE
        } else if code == 1 {
            DataType::UnsignedByteBE
        } else if code == 2 {
            DataType::SignedLE
        } else if code == 3 {
            DataType::SignedBE
        } else if code == 4 {
            DataType::FloatLE
        } else if code == 5 {
            DataType::FloatBE
        } else if code == 6 {
            DataType::StringLatin
        } else if code == 7 {
            DataType::StringUTF8
        } else if code == 8 {
            DataType::StringUTF16LE
        } else if code == 9 {
            DataType::StringUTF16BE
        } else if code == 10 {
            DataType::ByteArray
        } else if code == 11 {
            DataType::MIMESample
        } else if code == 12 {
            DataType::CANopenData
        } else {
            DataType::CANopenTime
        }
    }

    /// The code that stands for this value.
    pub open spec fn code(self) -> u8 {
        match self {
            DataType::UnsignedByteLE => 0,
            DataType::UnsignedByteBE => 1,
            DataType::SignedLE => 2,
            DataType::SignedBE => 3,
            DataType::FloatLE => 4,
            DataType::FloatBE => 5,
            DataType::StringLatin => 6,
            DataType::StringUTF8 => 7,
            DataType::StringUTF16LE => 8,
            DataType::StringUTF16BE => 9,
            DataType::ByteArray => 10,
            DataType::MIMESample => 11,
            DataType::CANopenData => 12,
            DataType::CANopenTime => 13,
        }
    }

    /// Decodes a code; codes outside 0..=13 stand for no value.
    pub fn new(code: u8) -> (r: Self)
        requires
            code <= 13,
        ensures
            r == Self::spec_new(code),
    {
        match code {
            0 => DataType::UnsignedByteLE,
            1 => DataType::UnsignedByteBE,
            2 => DataType::SignedLE,
            3 => DataType::SignedBE,
            4 => DataType::FloatLE,
            5 => DataType::FloatBE,
            6 => DataType::StringLatin,
            7 => DataType::StringUTF8,
            8 => DataType::StringUTF16LE,
            9 => DataType::StringUTF16BE,
            10 => DataType::ByteArray,
            11 => DataType::MIMESample,
            12 => DataType::CANopenData,
            _ => DataType::CANopenTime,
        }
    }

    /// Whether `code` stands for a value.
    pub fn is_code(code: u8) -> (r: bool)
        ensures
            r == (code <= 13),
    {
        code <= 13
    }
}

/// Kind of a channel conversion.
#[derive(Debug, Clone, Copy, PartialEq, Eq, Structural)]
pub enum CCType {
    Direct,
    Parametic,
    Rational,
    Algebraic,
    ValueTableInterpolate,
    ValueTableNoInterpolate,
    RangeTableValue,
    ValueTableText,
    RangeTableText,
    TextTableValue,
    TextTableText,
}

impl DataType {
    /// Number of bytes of one value of this type.
    pub open spec fn byte_width(self) -> nat {
        match self {
            DataType::FloatLE => 8,
            DataType::FloatBE => 8,
            DataType::StringUTF16LE => 2,
            DataType::StringUTF16BE => 2,
            _ => 1,
        }
    }

    pub fn len(&self) -> (r: usize)
        ensures
            r as nat == self.byte_width(),
    {
        match self {
            DataType::FloatLE => 8,
            DataType::FloatBE => 8,
            DataType::StringUTF16LE => 2,
            DataType::StringUTF16BE => 2,
            _ => 1,
        }
    }

    pub fn is_empty(&self) -> (r: bool)
        ensures
            r == (self.byte_width() == 0),
    {
        self.len() == 0
    }

    /// The types that have a counterpart among the data types of records.
    pub open spec fn has_record_type(self) -> bool {
        match self {
            DataType::StringUTF8 => false,
            DataType::StringUTF16LE => false,
            DataType::StringUTF16BE => false,
            DataType::MIMESample => false,
            DataType::CANopenData => false,
            DataType::CANopenTime => false,
            _ => true,
        }
    }

    /// The record data type and byte order that stand for this type.
    pub open spec fn spec_data_type_read(self) -> record::DataTypeRead {
        match self {
            DataType::UnsignedByteLE => record::DataTypeRead {
                data_type: record::DataType::UnsignedInt,
                little_endian: true,
            },
            DataType::UnsignedByteBE => record::DataTypeRead {
                data_type: record::DataType::UnsignedInt,
                little_endian: false,
            },
            DataType::SignedLE => record::DataTypeRead {
                data_type: record::DataType::SignedInt,
                little_endian: true,
            },
            DataType::SignedBE => record::DataTypeRead {
                data_type: record::DataType::SignedInt,
                little_endian: false,
            },
            DataType::FloatLE => record::DataTypeRead {
                data_type: record::DataType::Float64,
                little_endian: true,
            },
            DataType::FloatBE => record::DataTypeRead {
                data_type: record::DataType::Float64,
                little_endian: false,
            },
            DataType::StringLatin => record::DataTypeRead {
                data_type: record::DataType::StringNullTerm,
                little_endian: false,
            },
            _ => record::DataTypeRead { data_type: record::DataType::ByteArray, little_endian: false },
        }
    }

    /// The record data type and byte order that stand for this type.
    pub fn copy_to_data_type_read(&self) -> (r: record::DataTypeRead)
        requires
            self.has_record_type(),
        ensures
            r == self.spec_data_type_read(),
    {
        match self {
            DataType::UnsignedByteLE => record::DataTypeRead {
                data_type: record::DataType::UnsignedInt,
                little_endian: true,
            },
            DataType::UnsignedByteBE => record::DataTypeRead {
                data_type: record::DataType::UnsignedInt,
                little_endian: false,
            },
            DataType::SignedLE => record::DataTypeRead {
                data_type: record::DataType::SignedInt,
                little_endian: true,
            },
            DataType::SignedBE => record::DataTypeRead {
                data_type: record::DataType::SignedInt,
                little_endian: false,
            },
            DataType::FloatLE => record::DataTypeRead {
                data_type: record::DataType::Float64,
                little_endian: true,
            },
            DataType::FloatBE => record::DataTypeRead {
                data_type: record::DataType::Float64,
                little_endian: false,
            },
            DataType::StringLatin => record::DataTypeRead {
                data_type: record::DataType::StringNullTerm,
                little_endian: false,
            },
            _ => record::DataTypeRead { data_type: record::DataType::ByteArray, little_endian: false },
        }
    }
}

impl CCType {
    /// The value that code `code` stands for.
    pub open spec fn spec_new(code: u8) -> Self {
        if code == 0 {
            CCType::Direct
        } else if code == 1 {
            CCType::Parametic
        } else if code == 2 {
            CCType::Rational
        } else if code == 3 {
            CCType::Algebraic
        } else if code == 4 {
            CCType::ValueTableInterpolate
        } else if code == 5 {
            CCType::ValueTableNoInterpolate
        } else if code == 6 {
            CCType::RangeTableValue
        } else if code == 7 {
            CCType::ValueTableText
        } else if code == 8 {
            CCType::RangeTableText
        } else if code == 9 {
            CCType::TextTableValue
        } else {
            CCType::TextTableText
        }
    }

    /// The code that stands for this value.
    pub open spec fn code(self) -> u8 {
        match self {
            CCType::Direct => 0,
            CCType::Parametic => 1,
            CCType::Rational => 2,
            CCType::Algebraic => 3,
            CCType::ValueTableInterpolate => 4,
            CCType::ValueTableNoInterpolate => 5,
            CCType::RangeTableValue => 6,
            CCType::ValueTableText => 7,
            CCType::RangeTableText => 8,
            CCType::TextTableValue => 9,
            CCType::TextTableText => 10,
        }
    }

    /// Decodes a code; codes outside 0..=10 stand for no value.
    pub fn new(code: u8) -> (r: Self)
        requires
            code <= 10,
        ensures
            r == Self::spec_new(code),
    {
        match code {
            0 => CCType::Direct,
            1 => CCType::Parametic,
            2 => CCType::Rational,
            3 => CCType::Algebraic,
            4 => CCType::ValueTableInterpolate,
            5 => CCType::ValueTableNoInterpolate,
            6 => CCType::RangeTableValue,
            7 => CCType::ValueTableText,
            8 => CCType::RangeTableText,
            9 => CCType::TextTableValue,
            _ => CCType::TextTableText,
        }
    }

    /// Whether `code` stands for a value.
    pub fn is_code(code: u8) -> (r: bool)
        ensures
            r == (code <= 10),
    {
        code <= 10
    }
}

/// Decoding is one to one: each value has exactly one code, and decoding
/// that code gives the value back.
pub proof fn lemma_codes_round_trip()
    ensures
        forall|code: u8| code <= 8 ==> #[trigger] ChannelHierarchyType::spec_new(code).code() == code,
        forall|v: ChannelHierarchyType| #[trigger] ChannelHierarchyType::spec_new(v.code()) == v,
        forall|code: u8| code <= 6 ==> #[trigger] EventType::spec_new(code).code() == code,
        forall|v: EventType| #[trigger] EventType::spec_new(v.code()) == v,
        forall|code: u8| 1 <= code <= 4 ==> #[trigger] EventSyncType::spec_new(code).code() == code,
        forall|v: EventSyncType| #[trigger] EventSyncType::spec_new(v.code()) == v,
        forall|code: u8| code <= 2 ==> #[trigger] RangeType::spec_new(code).code() == code,
        forall|v: RangeType| #[trigger] RangeType::spec_new(v.code()) == v,
        forall|code: u8| code <= 4 ==> #[trigger] EventCause::spec_new(code).code() == code,
        forall|v: EventCause| #[trigger] EventCause::spec_new(v.code()) == v,
        forall|code: u8| code <= 5 ==> #[trigger] SourceType::spec_new(code).code() == code,
        forall|v: SourceType| #[trigger] SourceType::spec_new(v.code()) == v,
        forall|code: u8| code <= 8 ==> #[trigger] BusType::spec_new(code).code() == code,
        forall|v: BusType| #[trigger] BusType::spec_new(v.code()) == v,
        forall|code: u8| code <= 1 ==> #[trigger] ZipType::spec_new(code).code() == code,
        forall|v: ZipType| #[trigger] ZipType::spec_new(v.code()) == v,
        forall|code: u8| code <= 6 ==> #[trigger] ChannelType::spec_new(code).code() == code,
        forall|v: ChannelType| #[trigger] ChannelType::spec_new(v.code()) == v,
        forall|code: u8| code <= 4 ==> #[trigger] SyncType::spec_new(code).code() == code,
        forall|v: SyncType| #[trigger] SyncType::spec_new(v.code()) == v,
        forall|code: u8| code <= 13 ==> #[trigger] DataType::spec_new(code).code() == code,
        forall|v: DataType| #[trigger] DataType::spec_new(v.code()) == v,
        forall|code: u8| code <= 10 ==> #[trigger] CCType::spec_new(code).code() == code,
        forall|v: CCType| #[trigger] CCType::spec_new(v.code()) == v,
{
}

} // verus!
