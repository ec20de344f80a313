use vstd::prelude::*;

use crate::topic::Topic;

verus! {

/// A floating-point value as it stands on the wire: an integer sent as a varint,
/// or the bits of an IEEE-754 number.
#[derive(Clone, Copy, Debug, PartialEq, Eq, Structural)]
pub enum FloatValue {
    /// An integer value, sent as a varint.
    Integer(u32),
    /// The bits of a 64-bit IEEE-754 number.
    Bits64(u64),
    /// The bits of a 32-bit IEEE-754 number.
    Bits32(u32),
}

/// An instant, as the nanoseconds elapsed since 2014-01-01T00:00:00Z.
#[derive(Clone, Copy, Debug, PartialEq, Eq, Structural)]
pub struct DateTime {
    pub nanos_since_base: u128,
}

/// An 8-bit string.
#[derive(Clone, Debug)]
pub struct AsciiString(pub String);

/// The type of the values of a field, as its header gives it.
#[derive(Clone, Copy, Debug, PartialEq, Eq, Structural)]
pub enum DataType {
    NoType1,
    String,
    Short,
    Float,
    Double,
    Long,
    Binary,
    Char,
    EncString,
    StringW,
    SDO,
    DateTime,
    LongLong,
    Boolean,
    Unknown,
}

/// How a field's values are framed on the wire.
#[derive(Clone, Copy, Debug, PartialEq, Eq, Structural)]
pub enum WireType {
    Varint,
    Bit64,
    LengthDelimited,
    EmbeddedSDO,
    Unknown,
}

/// The metadata of one field: its type, framing, id, rows and null flags.
#[derive(Clone, Debug)]
pub struct Field {
    pub data_type: DataType,
    pub extra_info: Option<Vec<u8>>,
    pub field_id: Option<u32>,
    pub null_flags: Option<Vec<u8>>,
    pub rows: u32,
    pub single_row: bool,
    pub wire_type: WireType,
}

/// The values of one field, one optional value per row.
#[derive(Debug)]
pub enum Data {
    StringW(Vec<Option<String>>),
    Bool(Vec<Option<bool>>),
    Long(Vec<Option<u32>>),
    LongLong(Vec<Option<u64>>),
    Short(Vec<Option<u32>>),
    AsciiString(Vec<Option<AsciiString>>),
    SDO(Vec<Option<SDO>>),
    Double(Vec<Option<FloatValue>>),
    Float(Vec<Option<FloatValue>>),
    DateTime(Vec<Option<DateTime>>),
    Char(Vec<Option<char>>),
    Binary(Vec<Option<Vec<u8>>>),
    Unknown,
}

/// A self-describing object: a topic and an ordered list of fields.
#[derive(Debug)]
pub struct SDO {
    pub topic: Topic,
    pub fields: Vec<(Field, Option<Data>)>,
}

/// A request or response: a payload with the id of the request it belongs to.
#[derive(Debug)]
pub struct Message {
    pub id: Option<String>,
    pub timeout: Option<String>,
    pub page_size: Option<u32>,
    pub sdo: SDO,
}

/// What a field's metadata holds, with its byte strings as sequences.
pub struct FieldView {
    pub data_type: DataType,
    pub extra_info: Option<Seq<u8>>,
    pub field_id: Option<u32>,
    pub null_flags: Option<Seq<u8>>,
    pub rows: u32,
    pub single_row: bool,
    pub wire_type: WireType,
}

/// Which variant of `Data` a column is.
pub enum ColumnKind {
    StringW,
    Bool,
    Long,
    LongLong,
    Short,
    AsciiString,
    Sdo,
    Double,
    Float,
    DateTime,
    Char,
    Binary,
    Unknown,
}

/// One value of a column.
pub enum ValueView {
    Str(Seq<char>),
    Bool(bool),
    U32(u32),
    U64(u64),
    Sdo(SdoView),
    Number(FloatValue),
    Time(DateTime),
    /// A character, as its scalar value.
    Char(u32),
    Bytes(Seq<u8>),
}

/// What a column holds: its kind and one optional value per row.
pub struct ColumnView {
    pub kind: ColumnKind,
    pub cells: Seq<Option<ValueView>>,
}

/// What an SDO holds: its topic, and each field's metadata and values in order.
pub struct SdoView {
    pub topic: Topic,
    pub fields: Seq<(FieldView, Option<ColumnView>)>,
}

pub open spec fn opt_bytes_view(o: Option<Vec<u8>>) -> Option<Seq<u8>> {
    match o {
        Some(v) => Some(v@),
        None => None,
    }
}

impl View for Field {
    type V = FieldView;

    open spec fn view(&self) -> FieldView {
        FieldView {
            data_type: self.data_type,
            extra_info: opt_bytes_view(self.extra_info),
            field_id: self.field_id,
            null_flags: opt_bytes_view(self.null_flags),
            rows: self.rows,
            single_row: self.single_row,
            wire_type: self.wire_type,
        }
    }
}

pub open spec fn data_view(d: &Data) -> ColumnView
    decreases d, 0nat,
{
    match d {
        Data::StringW(v) => ColumnView {
            kind: ColumnKind::StringW,
            cells: Seq::new(
                v@.len(),
                |i: int|
                    if 0 <= i < v@.len() {
                        match v@[i] {
                            Some(x) => Some(ValueView::Str(x@)),
                            None => None,
                        }
                    } else {
                        None
                    },
            ),
        },
        Data::Bool(v) => ColumnView {
            kind: ColumnKind::Bool,
            cells: Seq::new(
                v@.len(),
                |i: int|
                    if 0 <= i < v@.len() {
                        match v@[i] {
                            Some(x) => Some(ValueView::Bool(x)),
                            None => None,
                        }
                    } else {
                        None
                    },
            ),
        },
        Data::Long(v) => ColumnView {
            kind: ColumnKind::Long,
            cells: Seq::new(
                v@.len(),
                |i: int|
                    if 0 <= i < v@.len() {
                        match v@[i] {
                            Some(x) => Some(ValueView::U32(x)),
                            None => None,
                        }
                    } else {
                        None
                    },
            ),
        },
        Data::LongLong(v) => ColumnView {
            kind: ColumnKind::LongLong,
            cells: Seq::new(
                v@.len(),
                |i: int|
                    if 0 <= i < v@.len() {
                        match v@[i] {
                            Some(x) => Some(ValueView::U64(x)),
                            None => None,
                        }
                    } else {
                        None
                    },
            ),
        },
        Data::Short(v) => ColumnView {
            kind: ColumnKind::Short,
            cells: Seq::new(
                v@.len(),
                |i: int|
                    if 0 <= i < v@.len() {
                        match v@[i] {
                            Some(x) => Some(ValueView::U32(x)),
                            None => None,
                        }
                    } else {
                        None
                    },
            ),
        },
        Data::AsciiString(v) => ColumnView {
            kind: ColumnKind::AsciiString,
            cells: Seq::new(
                v@.len(),
                |i: int|
                    if 0 <= i < v@.len() {
                        match v@[i] {
                            Some(x) => Some(ValueView::Str(x@)),
                            None => None,
                        }
                    } else {
                        None
                    },
            ),
        },
        Data::SDO(v) => ColumnView {
            kind: ColumnKind::Sdo,
            cells: Seq::new(
                v@.len(),
                |i: int|
                    if 0 <= i < v@.len() {
                        match v@[i] {
                            Some(x) => Some(ValueView::Sdo(sdo_view(&x))),
                            None => None,
                        }
                    } else {
                        None
                    },
            ),
        },
        Data::Double(v) => ColumnView {
            kind: ColumnKind::Double,
            cells: Seq::new(
                v@.len(),
                |i: int|
                    if 0 <= i < v@.len() {
                        match v@[i] {
                            Some(x) => Some(ValueView::Number(x)),
                            None => None,
                        }
                    } else {
                        None
                    },
            ),
        },
        Data::Float(v) => ColumnView {
            kind: ColumnKind::Float,
            cells: Seq::new(
                v@.len(),
                |i: int|
                    if 0 <= i < v@.len() {
                        match v@[i] {
                            Some(x) => Some(ValueView::Number(x)),
                            None => None,
                        }
                    } else {
                        None
                    },
            ),
        },
        Data::DateTime(v) => ColumnView {
            kind: ColumnKind::DateTime,
            cells: Seq::new(
                v@.len(),
                |i: int|
                    if 0 <= i < v@.len() {
                        match v@[i] {
                            Some(x) => Some(ValueView::Time(x)),
                            None => None,
                        }
                    } else {
                        None
                    },
            ),
        },
        Data::Char(v) => ColumnView {
            kind: ColumnKind::Char,
            cells: Seq::new(
                v@.len(),
                |i: int|
                    if 0 <= i < v@.len() {
                        match v@[i] {
                            Some(x) => Some(ValueView::Char(x as u32)),
                            None => None,
                        }
                    } else {
                        None
                    },
            ),
        },
        Data::Binary(v) => ColumnView {
            kind: ColumnKind::Binary,
            cells: Seq::new(
                v@.len(),
                |i: int|
                    if 0 <= i < v@.len() {
                        match v@[i] {
                            Some(x) => Some(ValueView::Bytes(x@)),
                            None => None,
                        }
                    } else {
                        None
                    },
            ),
        },
        Data::Unknown => ColumnView { kind: ColumnKind::Unknown, cells: Seq::empty() },
    }
}

pub open spec fn sdo_view(s: &SDO) -> SdoView
    decreases s, 1nat,
{
    SdoView {
        topic: s.topic,
        fields: Seq::new(
            s.fields@.len(),
            |i: int|
                (
                    s.fields@[i].0@,
                    if 0 <= i < s.fields@.len() {
                        match s.fields@[i].1 {
                            Some(d) => Some(data_view(&d)),
                            None => None,
                        }
                    } else {
                        None
                    },
                ),
        ),
    }
}

impl View for AsciiString {
    type V = Seq<char>;

    open spec fn view(&self) -> Seq<char> {
        self.0@
    }
}

impl View for FloatValue {
    type V = FloatValue;

    open spec fn view(&self) -> FloatValue {
        *self
    }
}

impl View for DateTime {
    type V = DateTime;

    open spec fn view(&self) -> DateTime {
        *self
    }
}

impl View for Data {
    type V = ColumnView;

    open spec fn view(&self) -> ColumnView {
        data_view(self)
    }
}

impl View for SDO {
    type V = SdoView;

    open spec fn view(&self) -> SdoView {
        sdo_view(self)
    }
}

} // verus!
