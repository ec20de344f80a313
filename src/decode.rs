use vstd::prelude::*;
use vstd::utf8::*;

use crate::data::{
    AsciiString, ColumnKind, ColumnView, Data, DataType, DateTime, Field, FieldView, FloatValue,
    SDO, SdoView, ValueView, WireType, data_view,
};
use crate::topic::Topic;
use crate::varint::{read_varint_u32, read_varint_u64, varint_at};

verus! {

/// Why a buffer could not be decoded.
#[derive(Clone, Copy, Debug, PartialEq, Eq, Structural)]
pub enum Error {
    /// The buffer ends before a value does.
    Io,
    /// The buffer ends inside a field's null flags.
    InvalidLengthOfNullData,
    /// The buffer ends inside a field's extra info.
    InvalidLengthOfExtraInfo,
    /// The first field of a message header is not a string or a short.
    InvalidHeaderId,
    /// A date-time field carries no one-byte precision.
    MissingDateTimePrecision,
    /// A date-time field's precision is none of 0, 1, 2, 3.
    InvalidDateTimePrecision,
}

/// What a string of bytes decodes to as UTF-8, where invalid sequences become U+FFFD.
pub uninterp spec fn utf8_lossy(b: Seq<u8>) -> Seq<char>;

/// What a string of UTF-16 code units decodes to, where unpaired surrogates become U+FFFD.
pub uninterp spec fn utf16_lossy(u: Seq<u16>) -> Seq<char>;

/// The characters of a byte string read as UTF-8: those it encodes when it is valid,
/// else with replacement characters.
pub open spec fn utf8_text(b: Seq<u8>) -> Seq<char> {
    if valid_utf8(b) {
        decode_utf8(b)
    } else {
        utf8_lossy(b)
    }
}

/// Relies on `String::from_utf8_lossy`: valid UTF-8 decodes to the characters it encodes.
#[verifier::external_body]
fn string_from_utf8_lossy(b: &[u8]) -> (r: String)
    ensures
        r@ == utf8_lossy(b@),
        valid_utf8(b@) ==> r@ == decode_utf8(b@),
        r@ == utf8_text(b@),
{
    String::from_utf8_lossy(b).into_owned()
}

/// Relies on `String::from_utf16_lossy`.
#[verifier::external_body]
fn string_from_utf16_lossy(u: &[u16]) -> (r: String)
    ensures
        r@ == utf16_lossy(u@),
{
    String::from_utf16_lossy(u)
}

/// An exec result agrees with a spec result: same value (seen through its view),
/// same position, or the same error.
pub open spec fn agrees<T: View>(r: Result<(T, usize), Error>, s: Result<(T::V, int), Error>) -> bool {
    match (r, s) {
        (Ok((x, q)), Ok((y, q2))) => x@ == y && q as int == q2,
        (Err(e1), Err(e2)) => e1 == e2,
        _ => false,
    }
}

pub open spec fn opt_view<T: View>(x: Option<T>) -> Option<T::V> {
    match x {
        Some(v) => Some(v@),
        None => None,
    }
}

/// As `agrees`, for an optional value.
pub open spec fn agrees_opt<T: View>(r: Result<(Option<T>, usize), Error>, s: Result<(Option<T::V>, int), Error>) -> bool {
    match (r, s) {
        (Ok((x, q)), Ok((y, q2))) => opt_view(x) == y && q as int == q2,
        (Err(e1), Err(e2)) => e1 == e2,
        _ => false,
    }
}

pub open spec fn byte_at(b: Seq<u8>, p: int) -> Result<(u8, int), Error> {
    if 0 <= p < b.len() {
        Ok((b[p], p + 1))
    } else {
        Err(Error::Io)
    }
}

pub open spec fn u32_at(b: Seq<u8>, p: int) -> Result<(u32, int), Error> {
    match varint_at(b, p, 5) {
        Some((v, n)) => Ok(((v % 0x1_0000_0000) as u32, p + n)),
        None => Err(Error::Io),
    }
}

pub open spec fn u64_at(b: Seq<u8>, p: int) -> Result<(u64, int), Error> {
    match varint_at(b, p, 10) {
        Some((v, n)) => Ok(((v % 0x1_0000_0000_0000_0000) as u64, p + n)),
        None => Err(Error::Io),
    }
}

/// The `n` bytes at `p`, or `e` when the buffer holds fewer.
pub open spec fn bytes_at(b: Seq<u8>, p: int, n: int, e: Error) -> Result<(Seq<u8>, int), Error> {
    if 0 <= p && 0 <= n && p + n <= b.len() {
        Ok((b.subrange(p, p + n), p + n))
    } else {
        Err(e)
    }
}

pub open spec fn data_type_of(c: u8) -> DataType {
    if c == 0 {
        DataType::NoType1
    } else if c == 1 {
        DataType::String
    } else if c == 2 {
        DataType::Short
    } else if c == 3 {
        DataType::Float
    } else if c == 4 {
        DataType::Double
    } else if c == 5 {
        DataType::Long
    } else if c == 6 {
        DataType::Binary
    } else if c == 7 {
        DataType::Char
    } else if c == 8 {
        DataType::EncString
    } else if c == 9 {
        DataType::StringW
    } else if c == 10 {
        DataType::SDO
    } else if c == 11 {
        DataType::DateTime
    } else if c == 12 {
        DataType::LongLong
    } else if c == 13 {
        DataType::Boolean
    } else {
        DataType::Unknown
    }
}

pub open spec fn wire_type_of(c: u8) -> WireType {
    if c == 0 {
        WireType::Varint
    } else if c == 1 {
        WireType::Bit64
    } else if c == 2 {
        WireType::LengthDelimited
    } else if c == 3 {
        WireType::EmbeddedSDO
    } else {
        WireType::Unknown
    }
}

/// Bit `k` of `x`, counting from the most significant.
pub open spec fn bit_of(x: u8, k: int) -> bool {
    (x >> ((7 - k) as u8)) & 1u8 == 1u8
}

/// The rows of a field and its null flags, read after the field id.
pub open spec fn null_region_at(b: Seq<u8>, p: int, single_row: bool, has_null: bool) -> Result<
    ((u32, Option<Seq<u8>>), int),
    Error,
> {
    if single_row {
        Ok(((1u32, if has_null { Some(seq![0x80u8]) } else { None }), p))
    } else {
        match u32_at(b, p) {
            Err(e) => Err(e),
            Ok((rows, q)) => {
                let n = (rows + 7) / 8;
                if has_null && n > 0 {
                    match bytes_at(b, q, n, Error::InvalidLengthOfNullData) {
                        Err(e) => Err(e),
                        Ok((f, r)) => Ok(((rows, Some(f)), r)),
                    }
                } else {
                    Ok(((rows, None), q))
                }
            },
        }
    }
}

/// The extra info of a field, read after its null flags.
pub open spec fn extra_at(b: Seq<u8>, p: int, has_extra: bool) -> Result<(Option<Seq<u8>>, int), Error> {
    if !has_extra {
        Ok((None, p))
    } else {
        match u32_at(b, p) {
            Err(e) => Err(e),
            Ok((s, q)) => if s > 0 {
                match bytes_at(b, q, s as int, Error::InvalidLengthOfExtraInfo) {
                    Err(e) => Err(e),
                    Ok((x, r)) => Ok((Some(x), r)),
                }
            } else {
                Ok((None, q))
            },
        }
    }
}

/// The header of the field at `p`; `None` for the zero byte that ends a field list.
pub open spec fn header_at(b: Seq<u8>, p: int, single_row: bool) -> Result<(Option<FieldView>, int), Error> {
    match byte_at(b, p) {
        Err(e) => Err(e),
        Ok((r1, p1)) => if r1 == 0 {
            Ok((None, p1))
        } else {
            match u32_at(b, p1) {
                Err(e) => Err(e),
                Ok((r2, p2)) => match null_region_at(b, p2, single_row, r1 & 1u8 == 1u8) {
                    Err(e) => Err(e),
                    Ok(((rows, null_flags), p3)) => match extra_at(b, p3, r2 & 1u32 == 1u32) {
                        Err(e) => Err(e),
                        Ok((extra_info, p4)) => Ok((
                            Some(
                                FieldView {
                                    data_type: data_type_of(r1 >> 3u8),
                                    extra_info,
                                    field_id: Some(r2 >> 1u32),
                                    null_flags,
                                    rows,
                                    single_row,
                                    wire_type: wire_type_of((r1 >> 1u8) & 3u8),
                                },
                            ),
                            p4,
                        )),
                    },
                },
            }
        },
    }
}

/// Whether row `i` of a field is null.
pub open spec fn is_null(h: FieldView, i: int) -> bool {
    match h.null_flags {
        Some(nf) => 0 <= i && i / 8 < nf.len() && bit_of(nf[i / 8], i % 8),
        None => false,
    }
}

/// Big-endian 16-bit code units of a byte string.
pub open spec fn be_units(s: Seq<u8>) -> Seq<u16> {
    Seq::new(s.len() / 2, |i: int| (s[2 * i] as int * 256 + s[2 * i + 1] as int) as u16)
}

/// The unsigned integer of eight bytes, least significant first.
pub open spec fn le_u64(s: Seq<u8>) -> u64 {
    (s[0] as int + 0x100 * s[1] as int + 0x1_0000 * s[2] as int + 0x100_0000 * s[3] as int
        + 0x1_0000_0000 * s[4] as int + 0x100_0000_0000 * s[5] as int + 0x1_0000_0000_0000
        * s[6] as int + 0x100_0000_0000_0000 * s[7] as int) as u64
}

/// The unsigned integer of four bytes, most significant first.
pub open spec fn be_u32(s: Seq<u8>) -> u32 {
    (0x100_0000 * s[0] as int + 0x1_0000 * s[1] as int + 0x100 * s[2] as int + s[3] as int) as u32
}

/// A wide string: its length plus one, an encoding tag, and the characters
/// (UTF-8 for tag 0, UTF-16 big-endian for tag 1; any other tag gives "").
pub open spec fn string_w_at(b: Seq<u8>, p: int) -> Result<(Seq<char>, int), Error> {
    match u32_at(b, p) {
        Err(e) => Err(e),
        Ok((len, p1)) => if len == 0 {
            Ok((Seq::empty(), p1))
        } else {
            match byte_at(b, p1) {
                Err(e) => Err(e),
                Ok((tag, p2)) => if tag == 0 {
                    match bytes_at(b, p2, len - 1, Error::Io) {
                        Err(e) => Err(e),
                        Ok((s, p3)) => Ok((utf8_text(s), p3)),
                    }
                } else if tag == 1 {
                    match bytes_at(b, p2, 2 * (len - 1), Error::Io) {
                        Err(e) => Err(e),
                        Ok((s, p3)) => Ok((utf16_lossy(be_units(s)), p3)),
                    }
                } else {
                    Ok((Seq::empty(), p2))
                },
            }
        },
    }
}

/// A length-prefixed byte string.
pub open spec fn binary_at(b: Seq<u8>, p: int) -> Result<(Seq<u8>, int), Error> {
    match u32_at(b, p) {
        Err(e) => Err(e),
        Ok((len, p1)) => bytes_at(b, p1, len as int, Error::Io),
    }
}

/// A length-prefixed 8-bit string, decoded as UTF-8 with replacement.
pub open spec fn ascii_at(b: Seq<u8>, p: int) -> Result<(Seq<char>, int), Error> {
    match binary_at(b, p) {
        Err(e) => Err(e),
        Ok((s, q)) => if s.len() == 0 {
            Ok((Seq::empty(), q))
        } else {
            Ok((utf8_text(s), q))
        },
    }
}

/// A double: a `u32` varint for the varint wire type, else eight bytes, least significant first.
pub open spec fn double_at(b: Seq<u8>, p: int, wt: WireType) -> Result<(FloatValue, int), Error> {
    if wt == WireType::Varint {
        match u32_at(b, p) {
            Err(e) => Err(e),
            Ok((v, q)) => Ok((FloatValue::Integer(v), q)),
        }
    } else {
        match bytes_at(b, p, 8, Error::Io) {
            Err(e) => Err(e),
            Ok((s, q)) => Ok((FloatValue::Bits64(le_u64(s)), q)),
        }
    }
}

/// A float: a `u32` varint for the varint wire type, else four bytes, most significant first.
pub open spec fn float_at(b: Seq<u8>, p: int, wt: WireType) -> Result<(FloatValue, int), Error> {
    if wt == WireType::Varint {
        match u32_at(b, p) {
            Err(e) => Err(e),
            Ok((v, q)) => Ok((FloatValue::Integer(v), q)),
        }
    } else {
        match bytes_at(b, p, 4, Error::Io) {
            Err(e) => Err(e),
            Ok((s, q)) => Ok((FloatValue::Bits32(be_u32(s)), q)),
        }
    }
}

/// The instant that `v` stands for at a precision code: seconds (3), milliseconds (2),
/// microseconds (1) or nanoseconds kept to the microsecond (0) after 2014-01-01T00:00:00Z.
/// Microsecond values from `i64::MAX - 1` up give the base instant.
pub open spec fn datetime_of(precision: u8, v: u64) -> Option<DateTime> {
    if precision == 3 {
        Some(DateTime { nanos_since_base: (v * 1_000_000_000) as u128 })
    } else if precision == 2 {
        Some(DateTime { nanos_since_base: (v * 1_000_000) as u128 })
    } else if precision == 1 {
        if v >= 0x7fff_ffff_ffff_fffe {
            Some(DateTime { nanos_since_base: 0 })
        } else {
            Some(DateTime { nanos_since_base: (v * 1000) as u128 })
        }
    } else if precision == 0 {
        Some(DateTime { nanos_since_base: ((v / 1000) * 1000) as u128 })
    } else {
        None
    }
}

/// A date-time: a `u64` varint scaled by the precision that the extra info holds.
pub open spec fn datetime_at(b: Seq<u8>, p: int, extra: Option<Seq<u8>>) -> Result<(DateTime, int), Error> {
    match extra {
        None => Err(Error::MissingDateTimePrecision),
        Some(x) => if x.len() != 1 {
            Err(Error::MissingDateTimePrecision)
        } else {
            match u64_at(b, p) {
                Err(e) => Err(e),
                Ok((v, q)) => match datetime_of(x[0], v) {
                    Some(t) => Ok((t, q)),
                    None => Err(Error::InvalidDateTimePrecision),
                },
            }
        },
    }
}

/// A character: one byte, widened.
pub open spec fn char_at(b: Seq<u8>, p: int) -> Result<(u32, int), Error> {
    match byte_at(b, p) {
        Err(e) => Err(e),
        Ok((v, q)) => Ok((v as u32, q)),
    }
}

/// The column kind that a data type decodes to.
pub open spec fn kind_of(dt: DataType) -> ColumnKind {
    match dt {
        DataType::StringW => ColumnKind::StringW,
        DataType::String => ColumnKind::AsciiString,
        DataType::EncString => ColumnKind::AsciiString,
        DataType::Long => ColumnKind::Long,
        DataType::Short => ColumnKind::Short,
        DataType::LongLong => ColumnKind::LongLong,
        DataType::SDO => ColumnKind::Sdo,
        DataType::Double => ColumnKind::Double,
        DataType::Float => ColumnKind::Float,
        DataType::DateTime => ColumnKind::DateTime,
        DataType::Char => ColumnKind::Char,
        DataType::Binary => ColumnKind::Binary,
        DataType::Boolean => ColumnKind::Bool,
        _ => ColumnKind::Unknown,
    }
}

/// Data types whose rows are read one value at a time.
pub open spec fn is_cell_type(dt: DataType) -> bool {
    dt != DataType::Boolean && dt != DataType::NoType1 && dt != DataType::Unknown
}

/// The rows of a boolean column from row `i` on: bits taken most significant first,
/// eight to a byte, across the non-null rows only; `used` bits of `cur` are taken.
pub open spec fn bools_from(
    b: Seq<u8>,
    p: int,
    h: FieldView,
    i: int,
    cur: u8,
    used: int,
    acc: Seq<Option<ValueView>>,
) -> Result<(Seq<Option<ValueView>>, int), Error>
    decreases h.rows - i,
{
    if i >= h.rows {
        Ok((acc, p))
    } else if is_null(h, i) {
        bools_from(b, p, h, i + 1, cur, used, acc.push(None))
    } else if used >= 8 {
        match byte_at(b, p) {
            Err(e) => Err(e),
            Ok((x, q)) => bools_from(b, q, h, i + 1, x, 1, acc.push(Some(ValueView::Bool(bit_of(x, 0))))),
        }
    } else {
        bools_from(b, p, h, i + 1, cur, used + 1, acc.push(Some(ValueView::Bool(bit_of(cur, used)))))
    }
}

/// One value of a field whose type is read one value at a time.
pub open spec fn cell_at(b: Seq<u8>, p: int, h: FieldView) -> Result<(ValueView, int), Error>
    decreases b.len() - p, 1int, 0int,
{
    if p < 0 || p > b.len() {
        Err(Error::Io)
    } else {
        match h.data_type {
            DataType::StringW => match string_w_at(b, p) {
                Err(e) => Err(e),
                Ok((s, q)) => Ok((ValueView::Str(s), q)),
            },
            DataType::String | DataType::EncString => match ascii_at(b, p) {
                Err(e) => Err(e),
                Ok((s, q)) => Ok((ValueView::Str(s), q)),
            },
            DataType::Long | DataType::Short => match u32_at(b, p) {
                Err(e) => Err(e),
                Ok((v, q)) => Ok((ValueView::U32(v), q)),
            },
            DataType::LongLong => match u64_at(b, p) {
                Err(e) => Err(e),
                Ok((v, q)) => Ok((ValueView::U64(v), q)),
            },
            DataType::Double => match double_at(b, p, h.wire_type) {
                Err(e) => Err(e),
                Ok((v, q)) => Ok((ValueView::Number(v), q)),
            },
            DataType::Float => match float_at(b, p, h.wire_type) {
                Err(e) => Err(e),
                Ok((v, q)) => Ok((ValueView::Number(v), q)),
            },
            DataType::DateTime => match datetime_at(b, p, h.extra_info) {
                Err(e) => Err(e),
                Ok((v, q)) => Ok((ValueView::Time(v), q)),
            },
            DataType::Char => match char_at(b, p) {
                Err(e) => Err(e),
                Ok((v, q)) => Ok((ValueView::Char(v), q)),
            },
            DataType::Binary => match binary_at(b, p) {
                Err(e) => Err(e),
                Ok((v, q)) => Ok((ValueView::Bytes(v), q)),
            },
            DataType::SDO => match sdo_at(b, p) {
                Err(e) => Err(e),
                Ok((v, q)) => Ok((ValueView::Sdo(v), q)),
            },
            _ => Err(Error::Io),
        }
    }
}

/// The rows of a field from row `i` on, after the rows `acc`: a null row takes no bytes.
pub open spec fn cells_from(b: Seq<u8>, p: int, h: FieldView, i: int, acc: Seq<Option<ValueView>>) -> Result<
    (Seq<Option<ValueView>>, int),
    Error,
>
    decreases b.len() - p, 2int, h.rows - i,
{
    if p < 0 || p > b.len() {
        Err(Error::Io)
    } else if i >= h.rows {
        Ok((acc, p))
    } else if is_null(h, i) {
        cells_from(b, p, h, i + 1, acc.push(None))
    } else {
        match cell_at(b, p, h) {
            Err(e) => Err(e),
            // a value never ends before it starts: the test only keeps the recursion well founded
            Ok((v, q)) => if q < p || q > b.len() {
                Err(Error::Io)
            } else {
                cells_from(b, q, h, i + 1, acc.push(Some(v)))
            },
        }
    }
}

/// The values of a field whose header is `h`.
pub open spec fn column_at(b: Seq<u8>, p: int, h: FieldView) -> Result<(ColumnView, int), Error>
    decreases b.len() - p, 3int, 0int,
{
    if p < 0 || p > b.len() {
        Err(Error::Io)
    } else if h.data_type == DataType::Boolean {
        match bools_from(b, p, h, 0, 0, 8, Seq::empty()) {
            Err(e) => Err(e),
            Ok((cells, q)) => Ok((ColumnView { kind: ColumnKind::Bool, cells }, q)),
        }
    } else if !is_cell_type(h.data_type) {
        Ok((ColumnView { kind: ColumnKind::Unknown, cells: Seq::empty() }, p))
    } else {
        match cells_from(b, p, h, 0, Seq::empty()) {
            Err(e) => Err(e),
            Ok((cells, q)) => Ok((ColumnView { kind: kind_of(h.data_type), cells }, q)),
        }
    }
}

/// The field at `p`: `None` at the zero byte that ends a field list.
pub open spec fn field_at(b: Seq<u8>, p: int, single_row: bool) -> Result<
    (Option<(FieldView, Option<ColumnView>)>, int),
    Error,
>
    decreases b.len() - p, 4int, 0int,
{
    match header_at(b, p, single_row) {
        Err(e) => Err(e),
        Ok((None, q)) => Ok((None, q)),
        // a header never ends before it starts: the test only keeps the recursion well founded
        Ok((Some(h), q)) => if q < p || q > b.len() {
            Err(Error::Io)
        } else {
            match column_at(b, q, h) {
                Err(e) => Err(e),
                Ok((c, r)) => Ok((Some((h, Some(c))), r)),
            }
        },
    }
}

/// The fields from `p` on, after the fields `acc`, up to the end of the buffer or a zero byte.
pub open spec fn fields_from(
    b: Seq<u8>,
    p: int,
    single_row: bool,
    acc: Seq<(FieldView, Option<ColumnView>)>,
) -> Result<(Seq<(FieldView, Option<ColumnView>)>, int), Error>
    decreases b.len() - p, 5int, 0int,
{
    if p < 0 || p > b.len() {
        Err(Error::Io)
    } else if p == b.len() {
        Ok((acc, p))
    } else {
        match field_at(b, p, single_row) {
            Err(e) => Err(e),
            Ok((None, q)) => Ok((acc, q)),
            // a field takes at least two bytes: the test only keeps the recursion well founded
            Ok((Some(f), q)) => if q <= p || q > b.len() {
                Err(Error::Io)
            } else {
                fields_from(b, q, single_row, acc.push(f))
            },
        }
    }
}

/// The topic that a wire value stands for: the wire holds the topic code plus one,
/// modulo 2^32.
pub open spec fn topic_code_of_wire(w: u32) -> i32 {
    if w <= 0x8000_0000 {
        (w - 1) as i32
    } else {
        (w as int - 1 - 0x1_0000_0000) as i32
    }
}

/// The SDO at `p`: a preamble byte (padding length in its top three bits, the
/// single-row flag in bit 4), the padding, the topic, and the fields.
pub open spec fn sdo_at(b: Seq<u8>, p: int) -> Result<(SdoView, int), Error>
    decreases b.len() - p, 0int, 0int,
{
    if p < 0 || p >= b.len() {
        Err(Error::Io)
    } else {
        let pre = b[p];
        let single_row = pre & 0x10u8 != 0;
        let pad = (pre >> 5u8) as int;
        match u32_at(b, p + 1 + pad) {
            Err(e) => Err(e),
            // the topic ends after the preamble: the test only keeps the recursion well founded
            Ok((w, q)) => if q <= p || q > b.len() {
                Err(Error::Io)
            } else {
                match fields_from(b, q, single_row, Seq::empty()) {
                    Err(e) => Err(e),
                    Ok((fields, r)) => Ok((SdoView { topic: Topic::spec_from_code(topic_code_of_wire(w)), fields }, r)),
                }
            },
        }
    }
}

/// The column of a field whose values are read one at a time.
pub open spec fn cells_column(b: Seq<u8>, p: int, h: FieldView) -> Result<(ColumnView, int), Error> {
    match cells_from(b, p, h, 0, Seq::empty()) {
        Err(e) => Err(e),
        Ok((cells, q)) => Ok((ColumnView { kind: kind_of(h.data_type), cells }, q)),
    }
}

fn read_u8(b: &[u8], p: usize) -> (r: Result<(u8, usize), Error>)
    ensures
        agrees(r, byte_at(b@, p as int)),
{
    if p < b.len() {
        Ok((b[p], p + 1))
    } else {
        Err(Error::Io)
    }
}

fn read_u32(b: &[u8], p: usize) -> (r: Result<(u32, usize), Error>)
    ensures
        agrees(r, u32_at(b@, p as int)),
{
    match read_varint_u32(b, p) {
        Some((v, q)) => Ok((v, q)),
        None => Err(Error::Io),
    }
}

fn read_u64(b: &[u8], p: usize) -> (r: Result<(u64, usize), Error>)
    ensures
        agrees(r, u64_at(b@, p as int)),
{
    match read_varint_u64(b, p) {
        Some((v, q)) => Ok((v, q)),
        None => Err(Error::Io),
    }
}

/// Copies the `n` bytes at `p`, or fails with `e` when the buffer holds fewer.
fn read_bytes(b: &[u8], p: usize, n: u64, e: Error) -> (r: Result<(Vec<u8>, usize), Error>)
    ensures
        agrees(r, bytes_at(b@, p as int, n as int, e)),
{
    if p > b.len() || n > (b.len() - p) as u64 {
        return Err(e);
    }
    let end = p + n as usize;
    let mut out: Vec<u8> = Vec::new();
    let mut k: usize = p;
    while k < end
        invariant
            p <= k <= end <= b@.len(),
            out@ == b@.subrange(p as int, k as int),
        decreases end - k,
    {
        out.push(b[k]);
        k = k + 1;
        assert(out@ =~= b@.subrange(p as int, k as int));
    }
    Ok((out, end))
}

impl DataType {
    /// The data type of a header code; 14 and up are `Unknown`.
    pub fn from_code(c: u8) -> (r: DataType)
        ensures
            r == data_type_of(c),
    {
        match c {
            0 => DataType::NoType1,
            1 => DataType::String,
            2 => DataType::Short,
            3 => DataType::Float,
            4 => DataType::Double,
            5 => DataType::Long,
            6 => DataType::Binary,
            7 => DataType::Char,
            8 => DataType::EncString,
            9 => DataType::StringW,
            10 => DataType::SDO,
            11 => DataType::DateTime,
            12 => DataType::LongLong,
            13 => DataType::Boolean,
            _ => DataType::Unknown,
        }
    }
}

impl From<u8> for DataType {
    fn from(value: u8) -> (r: DataType)
        ensures
            r == data_type_of(value),
    {
        DataType::from_code(value)
    }
}

impl vstd::std_specs::convert::FromSpecImpl<u8> for DataType {
    open spec fn obeys_from_spec() -> bool {
        true
    }

    open spec fn from_spec(v: u8) -> DataType {
        data_type_of(v)
    }
}

impl From<u8> for WireType {
    fn from(value: u8) -> (r: WireType)
        ensures
            r == wire_type_of(value),
    {
        WireType::from_code(value)
    }
}

impl vstd::std_specs::convert::FromSpecImpl<u8> for WireType {
    open spec fn obeys_from_spec() -> bool {
        true
    }

    open spec fn from_spec(v: u8) -> WireType {
        wire_type_of(v)
    }
}

impl WireType {
    /// The wire type of a header code; 4 and up are `Unknown`.
    pub fn from_code(c: u8) -> (r: WireType)
        ensures
            r == wire_type_of(c),
    {
        match c {
            0 => WireType::Varint,
            1 => WireType::Bit64,
            2 => WireType::LengthDelimited,
            3 => WireType::EmbeddedSDO,
            _ => WireType::Unknown,
        }
    }
}

impl Field {
    /// A field with no type, id, flags or extra info, one row, of the varint wire type.
    pub fn new(single_row: bool) -> (r: Field)
        ensures
            r@ == (FieldView {
                data_type: DataType::NoType1,
                extra_info: None,
                field_id: None,
                null_flags: None,
                rows: 1,
                single_row,
                wire_type: WireType::Varint,
            }),
    {
        Field {
            data_type: DataType::NoType1,
            extra_info: None,
            field_id: None,
            null_flags: None,
            rows: 1,
            single_row,
            wire_type: WireType::Varint,
        }
    }
}

fn read_null_region(b: &[u8], p: usize, single_row: bool, has_null: bool) -> (r: Result<
    ((u32, Option<Vec<u8>>), usize),
    Error,
>)
    ensures
        match (r, null_region_at(b@, p as int, single_row, has_null)) {
            (Ok(((rows, f), q)), Ok(((rows2, f2), q2))) => rows == rows2 && opt_view(f) == f2 && q == q2,
            (Err(e1), Err(e2)) => e1 == e2,
            _ => false,
        },
{
    if single_row {
        if has_null {
            let f = vec![0x80u8];
            assert(f@ =~= seq![0x80u8]);
            Ok(((1, Some(f)), p))
        } else {
            Ok(((1, None), p))
        }
    } else {
        match read_u32(b, p) {
            Err(e) => Err(e),
            Ok((rows, q)) => {
                let n: u32 = rows / 8 + if rows % 8 == 0 { 0 } else { 1 };
                assert(n == (rows + 7) / 8);
                if has_null && n > 0 {
                    match read_bytes(b, q, n as u64, Error::InvalidLengthOfNullData) {
                        Err(e) => Err(e),
                        Ok((f, r)) => Ok(((rows, Some(f)), r)),
                    }
                } else {
                    Ok(((rows, None), q))
                }
            },
        }
    }
}

fn read_extra(b: &[u8], p: usize, has_extra: bool) -> (r: Result<(Option<Vec<u8>>, usize), Error>)
    ensures
        agrees_opt(r, extra_at(b@, p as int, has_extra)),
{
    if !has_extra {
        Ok((None, p))
    } else {
        match read_u32(b, p) {
            Err(e) => Err(e),
            Ok((s, q)) => if s > 0 {
                match read_bytes(b, q, s as u64, Error::InvalidLengthOfExtraInfo) {
                    Err(e) => Err(e),
                    Ok((x, r)) => Ok((Some(x), r)),
                }
            } else {
                Ok((None, q))
            },
        }
    }
}

/// Reads the header of the field at `p`: its type, wire type and id, then its rows
/// and null flags (none on the wire for a single-row SDO), then its extra info.
/// `None` for the zero byte that ends a field list.
pub fn decode_field_header(b: &[u8], p: usize, single_row: bool) -> (r: Result<(Option<Field>, usize), Error>)
    ensures
        agrees_opt(r, header_at(b@, p as int, single_row)),
{
    let (r1, p1) = match read_u8(b, p) {
        Err(e) => return Err(e),
        Ok(x) => x,
    };
    if r1 == 0 {
        return Ok((None, p1));
    }
    let (r2, p2) = match read_u32(b, p1) {
        Err(e) => return Err(e),
        Ok(x) => x,
    };
    let ((rows, null_flags), p3) = match read_null_region(b, p2, single_row, r1 & 1 == 1) {
        Err(e) => return Err(e),
        Ok(x) => x,
    };
    let (extra_info, p4) = match read_extra(b, p3, r2 & 1 == 1) {
        Err(e) => return Err(e),
        Ok(x) => x,
    };
    let mut field = Field::new(single_row);
    field.data_type = DataType::from_code(r1 >> 3);
    field.wire_type = WireType::from_code((r1 >> 1) & 3);
    field.field_id = Some(r2 >> 1);
    field.rows = rows;
    field.null_flags = null_flags;
    field.extra_info = extra_info;
    Ok((Some(field), p4))
}

/// Whether row `i` of a field is null.
pub fn row_is_null(h: &Field, i: u32) -> (r: bool)
    ensures
        r == is_null(h@, i as int),
{
    match &h.null_flags {
        Some(nf) => {
            let k = (i / 8) as usize;
            k < nf.len() && (nf[k] >> ((7 - i % 8) as u8)) & 1 == 1
        },
        None => false,
    }
}

fn read_string_w(b: &[u8], p: usize) -> (r: Result<(String, usize), Error>)
    ensures
        agrees(r, string_w_at(b@, p as int)),
{
    let (len, p1) = match read_u32(b, p) {
        Err(e) => return Err(e),
        Ok(x) => x,
    };
    if len == 0 {
        return Ok((String::new(), p1));
    }
    let (tag, p2) = match read_u8(b, p1) {
        Err(e) => return Err(e),
        Ok(x) => x,
    };
    if tag == 0 {
        match read_bytes(b, p2, (len - 1) as u64, Error::Io) {
            Err(e) => Err(e),
            Ok((s, p3)) => Ok((string_from_utf8_lossy(s.as_slice()), p3)),
        }
    } else if tag == 1 {
        match read_bytes(b, p2, 2 * ((len - 1) as u64), Error::Io) {
            Err(e) => Err(e),
            Ok((s, p3)) => {
                let mut units: Vec<u16> = Vec::new();
                let mut k: usize = 0;
                while k < s.len() / 2
                    invariant
                        k <= s@.len() / 2,
                        units@ == be_units(s@).subrange(0, k as int),
                    decreases s@.len() / 2 - k,
                {
                    units.push((s[2 * k] as u16) * 256 + s[2 * k + 1] as u16);
                    k = k + 1;
                    assert(units@ =~= be_units(s@).subrange(0, k as int));
                }
                assert(units@ =~= be_units(s@));
                Ok((string_from_utf16_lossy(units.as_slice()), p3))
            },
        }
    } else {
        Ok((String::new(), p2))
    }
}

fn read_binary(b: &[u8], p: usize) -> (r: Result<(Vec<u8>, usize), Error>)
    ensures
        agrees(r, binary_at(b@, p as int)),
{
    match read_u32(b, p) {
        Err(e) => Err(e),
        Ok((len, p1)) => read_bytes(b, p1, len as u64, Error::Io),
    }
}

fn read_ascii(b: &[u8], p: usize) -> (r: Result<(AsciiString, usize), Error>)
    ensures
        agrees(r, ascii_at(b@, p as int)),
{
    match read_binary(b, p) {
        Err(e) => Err(e),
        Ok((s, q)) => if s.len() == 0 {
            Ok((AsciiString(String::new()), q))
        } else {
            Ok((AsciiString(string_from_utf8_lossy(s.as_slice())), q))
        },
    }
}

fn read_double(b: &[u8], p: usize, wt: WireType) -> (r: Result<(FloatValue, usize), Error>)
    ensures
        agrees(r, double_at(b@, p as int, wt)),
{
    if wt == WireType::Varint {
        match read_u32(b, p) {
            Err(e) => Err(e),
            Ok((v, q)) => Ok((FloatValue::Integer(v), q)),
        }
    } else {
        match read_bytes(b, p, 8, Error::Io) {
            Err(e) => Err(e),
            Ok((s, q)) => {
                let v: u64 = s[0] as u64 + 0x100 * s[1] as u64 + 0x1_0000 * s[2] as u64
                    + 0x100_0000 * s[3] as u64 + 0x1_0000_0000 * s[4] as u64 + 0x100_0000_0000
                    * s[5] as u64 + 0x1_0000_0000_0000 * s[6] as u64 + 0x100_0000_0000_0000
                    * s[7] as u64;
                Ok((FloatValue::Bits64(v), q))
            },
        }
    }
}

fn read_float(b: &[u8], p: usize, wt: WireType) -> (r: Result<(FloatValue, usize), Error>)
    ensures
        agrees(r, float_at(b@, p as int, wt)),
{
    if wt == WireType::Varint {
        match read_u32(b, p) {
            Err(e) => Err(e),
            Ok((v, q)) => Ok((FloatValue::Integer(v), q)),
        }
    } else {
        match read_bytes(b, p, 4, Error::Io) {
            Err(e) => Err(e),
            Ok((s, q)) => {
                let v: u32 = 0x100_0000 * s[0] as u32 + 0x1_0000 * s[1] as u32 + 0x100 * s[2] as u32
                    + s[3] as u32;
                Ok((FloatValue::Bits32(v), q))
            },
        }
    }
}

/// The instant that `v` stands for at a precision code, or `None` for an unknown code.
pub fn datetime_from(precision: u8, v: u64) -> (r: Option<DateTime>)
    ensures
        r == datetime_of(precision, v),
{
    if precision == 3 {
        Some(DateTime { nanos_since_base: v as u128 * 1_000_000_000 })
    } else if precision == 2 {
        Some(DateTime { nanos_since_base: v as u128 * 1_000_000 })
    } else if precision == 1 {
        if v >= 0x7fff_ffff_ffff_fffe {
            Some(DateTime { nanos_since_base: 0 })
        } else {
            Some(DateTime { nanos_since_base: v as u128 * 1000 })
        }
    } else if precision == 0 {
        Some(DateTime { nanos_since_base: (v / 1000) as u128 * 1000 })
    } else {
        None
    }
}

fn read_datetime(b: &[u8], p: usize, h: &Field) -> (r: Result<(DateTime, usize), Error>)
    ensures
        agrees(r, datetime_at(b@, p as int, h@.extra_info)),
{
    match &h.extra_info {
        None => Err(Error::MissingDateTimePrecision),
        Some(x) => if x.len() != 1 {
            Err(Error::MissingDateTimePrecision)
        } else {
            match read_u64(b, p) {
                Err(e) => Err(e),
                Ok((v, q)) => match datetime_from(x[0], v) {
                    Some(t) => Ok((t, q)),
                    None => Err(Error::InvalidDateTimePrecision),
                },
            }
        },
    }
}

fn read_char(b: &[u8], p: usize) -> (r: Result<(char, usize), Error>)
    ensures
        match (r, char_at(b@, p as int)) {
            (Ok((c, q)), Ok((v, q2))) => c as u32 == v && q == q2,
            (Err(e1), Err(e2)) => e1 == e2,
            _ => false,
        },
{
    match read_u8(b, p) {
        Err(e) => Err(e),
        Ok((v, q)) => Ok((v as char, q)),
    }
}

#[verifier::rlimit(40)]
fn read_rows_string_w(b: &[u8], p: usize, h: &Field) -> (r: Result<(Data, usize), Error>)
    requires
        p <= b@.len(),
        h.data_type == DataType::StringW,
    ensures
        agrees(r, cells_column(b@, p as int, h@)),
{
    let mut acc: Vec<Option<String>> = Vec::new();
    let mut q: usize = p;
    let mut i: u32 = 0;
    assert(data_view(&Data::StringW(acc)).cells =~= Seq::<Option<ValueView>>::empty());
    while i < h.rows
        invariant
            p <= q <= b@.len(),
            i <= h.rows,
            h.data_type == DataType::StringW,
            cells_from(b@, p as int, h@, 0, Seq::empty()) == cells_from(
                b@,
                q as int,
                h@,
                i as int,
                data_view(&Data::StringW(acc)).cells,
            ),
        decreases h.rows - i,
    {
        let ghost before = data_view(&Data::StringW(acc)).cells;
        let ghost old_acc = acc@;
        if row_is_null(h, i) {
            acc.push(None);
            assert(acc@ == old_acc.push(None));
            assert(forall|k: int| 0 <= k < old_acc.len() ==> acc@[k] == old_acc[k]);
            assert(data_view(&Data::StringW(acc)).cells =~= before.push(None));
        } else {
            match read_string_w(b, q) {
                Err(e) => {
                    assert(cell_at(b@, q as int, h@) == Err::<(ValueView, int), Error>(e));
                    return Err(e);
                },
                Ok((x, q2)) => {
                    let ghost v = ValueView::Str(x@);
                    assert(cell_at(b@, q as int, h@) == Ok::<(ValueView, int), Error>((v, q2 as int)));
                    if q2 < q || q2 > b.len() {
                        return Err(Error::Io);
                    }
                    acc.push(Some(x));
                    assert(acc@[acc@.len() - 1] == Some(x));
                    assert(forall|k: int| 0 <= k < old_acc.len() ==> acc@[k] == old_acc[k]);
                    let ghost now = data_view(&Data::StringW(acc)).cells;
                    assert forall|k: int| 0 <= k < now.len() implies now[k] == before.push(Some(v))[k] by {
                        if k < old_acc.len() {
                            assert(acc@[k] == old_acc[k]);
                        }
                    }
                    assert(now =~= before.push(Some(v)));
                    q = q2;
                },
            }
        }
        i = i + 1;
    }
    Ok((Data::StringW(acc), q))
}

#[verifier::rlimit(40)]
fn read_rows_ascii(b: &[u8], p: usize, h: &Field) -> (r: Result<(Data, usize), Error>)
    requires
        p <= b@.len(),
        h.data_type == DataType::String || h.data_type == DataType::EncString,
    ensures
        agrees(r, cells_column(b@, p as int, h@)),
{
    let mut acc: Vec<Option<AsciiString>> = Vec::new();
    let mut q: usize = p;
    let mut i: u32 = 0;
    assert(data_view(&Data::AsciiString(acc)).cells =~= Seq::<Option<ValueView>>::empty());
    while i < h.rows
        invariant
            p <= q <= b@.len(),
            i <= h.rows,
            h.data_type == DataType::String || h.data_type == DataType::EncString,
            cells_from(b@, p as int, h@, 0, Seq::empty()) == cells_from(
                b@,
                q as int,
                h@,
                i as int,
                data_view(&Data::AsciiString(acc)).cells,
            ),
        decreases h.rows - i,
    {
        let ghost before = data_view(&Data::AsciiString(acc)).cells;
        let ghost old_acc = acc@;
        if row_is_null(h, i) {
            acc.push(None);
            assert(acc@ == old_acc.push(None));
            assert(forall|k: int| 0 <= k < old_acc.len() ==> acc@[k] == old_acc[k]);
            assert(data_view(&Data::AsciiString(acc)).cells =~= before.push(None));
        } else {
            match read_ascii(b, q) {
                Err(e) => {
                    assert(cell_at(b@, q as int, h@) == Err::<(ValueView, int), Error>(e));
                    return Err(e);
                },
                Ok((x, q2)) => {
                    let ghost v = ValueView::Str(x@);
                    assert(cell_at(b@, q as int, h@) == Ok::<(ValueView, int), Error>((v, q2 as int)));
                    if q2 < q || q2 > b.len() {
                        return Err(Error::Io);
                    }
                    acc.push(Some(x));
                    assert(acc@[acc@.len() - 1] == Some(x));
                    assert(forall|k: int| 0 <= k < old_acc.len() ==> acc@[k] == old_acc[k]);
                    let ghost now = data_view(&Data::AsciiString(acc)).cells;
                    assert forall|k: int| 0 <= k < now.len() implies now[k] == before.push(Some(v))[k] by {
                        if k < old_acc.len() {
                            assert(acc@[k] == old_acc[k]);
                        }
                    }
                    assert(now =~= before.push(Some(v)));
                    q = q2;
                },
            }
        }
        i = i + 1;
    }
    Ok((Data::AsciiString(acc), q))
}

#[verifier::rlimit(40)]
fn read_rows_long(b: &[u8], p: usize, h: &Field) -> (r: Result<(Data, usize), Error>)
    requires
        p <= b@.len(),
        h.data_type == DataType::Long,
    ensures
        agrees(r, cells_column(b@, p as int, h@)),
{
    let mut acc: Vec<Option<u32>> = Vec::new();
    let mut q: usize = p;
    let mut i: u32 = 0;
    assert(data_view(&Data::Long(acc)).cells =~= Seq::<Option<ValueView>>::empty());
    while i < h.rows
        invariant
            p <= q <= b@.len(),
            i <= h.rows,
            h.data_type == DataType::Long,
            cells_from(b@, p as int, h@, 0, Seq::empty()) == cells_from(
                b@,
                q as int,
                h@,
                i as int,
                data_view(&Data::Long(acc)).cells,
            ),
        decreases h.rows - i,
    {
        let ghost before = data_view(&Data::Long(acc)).cells;
        let ghost old_acc = acc@;
        if row_is_null(h, i) {
            acc.push(None);
            assert(acc@ == old_acc.push(None));
            assert(forall|k: int| 0 <= k < old_acc.len() ==> acc@[k] == old_acc[k]);
            assert(data_view(&Data::Long(acc)).cells =~= before.push(None));
        } else {
            match read_u32(b, q) {
                Err(e) => {
                    assert(cell_at(b@, q as int, h@) == Err::<(ValueView, int), Error>(e));
                    return Err(e);
                },
                Ok((x, q2)) => {
                    let ghost v = ValueView::U32(x);
                    assert(cell_at(b@, q as int, h@) == Ok::<(ValueView, int), Error>((v, q2 as int)));
                    if q2 < q || q2 > b.len() {
                        return Err(Error::Io);
                    }
                    acc.push(Some(x));
                    assert(acc@[acc@.len() - 1] == Some(x));
                    assert(forall|k: int| 0 <= k < old_acc.len() ==> acc@[k] == old_acc[k]);
                    let ghost now = data_view(&Data::Long(acc)).cells;
                    assert forall|k: int| 0 <= k < now.len() implies now[k] == before.push(Some(v))[k] by {
                        if k < old_acc.len() {
                            assert(acc@[k] == old_acc[k]);
                        }
                    }
                    assert(now =~= before.push(Some(v)));
                    q = q2;
                },
            }
        }
        i = i + 1;
    }
    Ok((Data::Long(acc), q))
}

#[verifier::rlimit(40)]
fn read_rows_short(b: &[u8], p: usize, h: &Field) -> (r: Result<(Data, usize), Error>)
    requires
        p <= b@.len(),
        h.data_type == DataType::Short,
    ensures
        agrees(r, cells_column(b@, p as int, h@)),
{
    let mut acc: Vec<Option<u32>> = Vec::new();
    let mut q: usize = p;
    let mut i: u32 = 0;
    assert(data_view(&Data::Short(acc)).cells =~= Seq::<Option<ValueView>>::empty());
    while i < h.rows
        invariant
            p <= q <= b@.len(),
            i <= h.rows,
            h.data_type == DataType::Short,
            cells_from(b@, p as int, h@, 0, Seq::empty()) == cells_from(
                b@,
                q as int,
                h@,
                i as int,
                data_view(&Data::Short(acc)).cells,
            ),
        decreases h.rows - i,
    {
        let ghost before = data_view(&Data::Short(acc)).cells;
        let ghost old_acc = acc@;
        if row_is_null(h, i) {
            acc.push(None);
            assert(acc@ == old_acc.push(None));
            assert(forall|k: int| 0 <= k < old_acc.len() ==> acc@[k] == old_acc[k]);
            assert(data_view(&Data::Short(acc)).cells =~= before.push(None));
        } else {
            match read_u32(b, q) {
                Err(e) => {
                    assert(cell_at(b@, q as int, h@) == Err::<(ValueView, int), Error>(e));
                    return Err(e);
                },
                Ok((x, q2)) => {
                    let ghost v = ValueView::U32(x);
                    assert(cell_at(b@, q as int, h@) == Ok::<(ValueView, int), Error>((v, q2 as int)));
                    if q2 < q || q2 > b.len() {
                        return Err(Error::Io);
                    }
                    acc.push(Some(x));
                    assert(acc@[acc@.len() - 1] == Some(x));
                    assert(forall|k: int| 0 <= k < old_acc.len() ==> acc@[k] == old_acc[k]);
                    let ghost now = data_view(&Data::Short(acc)).cells;
                    assert forall|k: int| 0 <= k < now.len() implies now[k] == before.push(Some(v))[k] by {
                        if k < old_acc.len() {
                            assert(acc@[k] == old_acc[k]);
                        }
                    }
                    assert(now =~= before.push(Some(v)));
                    q = q2;
                },
            }
        }
        i = i + 1;
    }
    Ok((Data::Short(acc), q))
}

#[verifier::rlimit(40)]
fn read_rows_long_long(b: &[u8], p: usize, h: &Field) -> (r: Result<(Data, usize), Error>)
    requires
        p <= b@.len(),
        h.data_type == DataType::LongLong,
    ensures
        agrees(r, cells_column(b@, p as int, h@)),
{
    let mut acc: Vec<Option<u64>> = Vec::new();
    let mut q: usize = p;
    let mut i: u32 = 0;
    assert(data_view(&Data::LongLong(acc)).cells =~= Seq::<Option<ValueView>>::empty());
    while i < h.rows
        invariant
            p <= q <= b@.len(),
            i <= h.rows,
            h.data_type == DataType::LongLong,
            cells_from(b@, p as int, h@, 0, Seq::empty()) == cells_from(
                b@,
                q as int,
                h@,
                i as int,
                data_view(&Data::LongLong(acc)).cells,
            ),
        decreases h.rows - i,
    {
        let ghost before = data_view(&Data::LongLong(acc)).cells;
        let ghost old_acc = acc@;
        if row_is_null(h, i) {
            acc.push(None);
            assert(acc@ == old_acc.push(None));
            assert(forall|k: int| 0 <= k < old_acc.len() ==> acc@[k] == old_acc[k]);
            assert(data_view(&Data::LongLong(acc)).cells =~= before.push(None));
        } else {
            match read_u64(b, q) {
                Err(e) => {
                    assert(cell_at(b@, q as int, h@) == Err::<(ValueView, int), Error>(e));
                    return Err(e);
                },
                Ok((x, q2)) => {
                    let ghost v = ValueView::U64(x);
                    assert(cell_at(b@, q as int, h@) == Ok::<(ValueView, int), Error>((v, q2 as int)));
                    if q2 < q || q2 > b.len() {
                        return Err(Error::Io);
                    }
                    acc.push(Some(x));
                    assert(acc@[acc@.len() - 1] == Some(x));
                    assert(forall|k: int| 0 <= k < old_acc.len() ==> acc@[k] == old_acc[k]);
                    let ghost now = data_view(&Data::LongLong(acc)).cells;
                    assert forall|k: int| 0 <= k < now.len() implies now[k] == before.push(Some(v))[k] by {
                        if k < old_acc.len() {
                            assert(acc@[k] == old_acc[k]);
                        }
                    }
                    assert(now =~= before.push(Some(v)));
                    q = q2;
                },
            }
        }
        i = i + 1;
    }
    Ok((Data::LongLong(acc), q))
}

#[verifier::rlimit(40)]
fn read_rows_sdo(b: &[u8], p: usize, h: &Field) -> (r: Result<(Data, usize), Error>)
    requires
        p <= b@.len(),
        h.data_type == DataType::SDO,
    ensures
        agrees(r, cells_column(b@, p as int, h@)),
    decreases b@.len() - p, 2int, h.rows as int,
{
    let mut acc: Vec<Option<SDO>> = Vec::new();
    let mut q: usize = p;
    let mut i: u32 = 0;
    assert(data_view(&Data::SDO(acc)).cells =~= Seq::<Option<ValueView>>::empty());
    while i < h.rows
        invariant
            p <= q <= b@.len(),
            i <= h.rows,
            h.data_type == DataType::SDO,
            cells_from(b@, p as int, h@, 0, Seq::empty()) == cells_from(
                b@,
                q as int,
                h@,
                i as int,
                data_view(&Data::SDO(acc)).cells,
            ),
        decreases h.rows - i,
    {
        let ghost before = data_view(&Data::SDO(acc)).cells;
        let ghost old_acc = acc@;
        if row_is_null(h, i) {
            acc.push(None);
            assert(acc@ == old_acc.push(None));
            assert(forall|k: int| 0 <= k < old_acc.len() ==> acc@[k] == old_acc[k]);
            assert(data_view(&Data::SDO(acc)).cells =~= before.push(None));
        } else {
            match read_sdo(b, q) {
                Err(e) => {
                    assert(cell_at(b@, q as int, h@) == Err::<(ValueView, int), Error>(e));
                    return Err(e);
                },
                Ok((x, q2)) => {
                    let ghost v = ValueView::Sdo(x@);
                    assert(cell_at(b@, q as int, h@) == Ok::<(ValueView, int), Error>((v, q2 as int)));
                    if q2 < q || q2 > b.len() {
                        return Err(Error::Io);
                    }
                    acc.push(Some(x));
                    assert(acc@[acc@.len() - 1] == Some(x));
                    assert(forall|k: int| 0 <= k < old_acc.len() ==> acc@[k] == old_acc[k]);
                    let ghost now = data_view(&Data::SDO(acc)).cells;
                    assert forall|k: int| 0 <= k < now.len() implies now[k] == before.push(Some(v))[k] by {
                        if k < old_acc.len() {
                            assert(acc@[k] == old_acc[k]);
                        }
                    }
                    assert(now =~= before.push(Some(v)));
                    q = q2;
                },
            }
        }
        i = i + 1;
    }
    Ok((Data::SDO(acc), q))
}

#[verifier::rlimit(40)]
fn read_rows_double(b: &[u8], p: usize, h: &Field) -> (r: Result<(Data, usize), Error>)
    requires
        p <= b@.len(),
        h.data_type == DataType::Double,
    ensures
        agrees(r, cells_column(b@, p as int, h@)),
{
    let mut acc: Vec<Option<FloatValue>> = Vec::new();
    let mut q: usize = p;
    let mut i: u32 = 0;
    assert(data_view(&Data::Double(acc)).cells =~= Seq::<Option<ValueView>>::empty());
    while i < h.rows
        invariant
            p <= q <= b@.len(),
            i <= h.rows,
            h.data_type == DataType::Double,
            cells_from(b@, p as int, h@, 0, Seq::empty()) == cells_from(
                b@,
                q as int,
                h@,
                i as int,
                data_view(&Data::Double(acc)).cells,
            ),
        decreases h.rows - i,
    {
        let ghost before = data_view(&Data::Double(acc)).cells;
        let ghost old_acc = acc@;
        if row_is_null(h, i) {
            acc.push(None);
            assert(acc@ == old_acc.push(None));
            assert(forall|k: int| 0 <= k < old_acc.len() ==> acc@[k] == old_acc[k]);
            assert(data_view(&Data::Double(acc)).cells =~= before.push(None));
        } else {
            match read_double(b, q, h.wire_type) {
                Err(e) => {
                    assert(cell_at(b@, q as int, h@) == Err::<(ValueView, int), Error>(e));
                    return Err(e);
                },
                Ok((x, q2)) => {
                    let ghost v = ValueView::Number(x);
                    assert(cell_at(b@, q as int, h@) == Ok::<(ValueView, int), Error>((v, q2 as int)));
                    if q2 < q || q2 > b.len() {
                        return Err(Error::Io);
                    }
                    acc.push(Some(x));
                    assert(acc@[acc@.len() - 1] == Some(x));
                    assert(forall|k: int| 0 <= k < old_acc.len() ==> acc@[k] == old_acc[k]);
                    let ghost now = data_view(&Data::Double(acc)).cells;
                    assert forall|k: int| 0 <= k < now.len() implies now[k] == before.push(Some(v))[k] by {
                        if k < old_acc.len() {
                            assert(acc@[k] == old_acc[k]);
                        }
                    }
                    assert(now =~= before.push(Some(v)));
                    q = q2;
                },
            }
        }
        i = i + 1;
    }
    Ok((Data::Double(acc), q))
}

#[verifier::rlimit(40)]
fn read_rows_float(b: &[u8], p: usize, h: &Field) -> (r: Result<(Data, usize), Error>)
    requires
        p <= b@.len(),
        h.data_type == DataType::Float,
    ensures
        agrees(r, cells_column(b@, p as int, h@)),
{
    let mut acc: Vec<Option<FloatValue>> = Vec::new();
    let mut q: usize = p;
    let mut i: u32 = 0;
    assert(data_view(&Data::Float(acc)).cells =~= Seq::<Option<ValueView>>::empty());
    while i < h.rows
        invariant
            p <= q <= b@.len(),
            i <= h.rows,
            h.data_type == DataType::Float,
            cells_from(b@, p as int, h@, 0, Seq::empty()) == cells_from(
                b@,
                q as int,
                h@,
                i as int,
                data_view(&Data::Float(acc)).cells,
            ),
        decreases h.rows - i,
    {
        let ghost before = data_view(&Data::Float(acc)).cells;
        let ghost old_acc = acc@;
        if row_is_null(h, i) {
            acc.push(None);
            assert(acc@ == old_acc.push(None));
            assert(forall|k: int| 0 <= k < old_acc.len() ==> acc@[k] == old_acc[k]);
            assert(data_view(&Data::Float(acc)).cells =~= before.push(None));
        } else {
            match read_float(b, q, h.wire_type) {
                Err(e) => {
                    assert(cell_at(b@, q as int, h@) == Err::<(ValueView, int), Error>(e));
                    return Err(e);
                },
                Ok((x, q2)) => {
                    let ghost v = ValueView::Number(x);
                    assert(cell_at(b@, q as int, h@) == Ok::<(ValueView, int), Error>((v, q2 as int)));
                    if q2 < q || q2 > b.len() {
                        return Err(Error::Io);
                    }
                    acc.push(Some(x));
                    assert(acc@[acc@.len() - 1] == Some(x));
                    assert(forall|k: int| 0 <= k < old_acc.len() ==> acc@[k] == old_acc[k]);
                    let ghost now = data_view(&Data::Float(acc)).cells;
                    assert forall|k: int| 0 <= k < now.len() implies now[k] == before.push(Some(v))[k] by {
                        if k < old_acc.len() {
                            assert(acc@[k] == old_acc[k]);
                        }
                    }
                    assert(now =~= before.push(Some(v)));
                    q = q2;
                },
            }
        }
        i = i + 1;
    }
    Ok((Data::Float(acc), q))
}

#[verifier::rlimit(40)]
fn read_rows_datetime(b: &[u8], p: usize, h: &Field) -> (r: Result<(Data, usize), Error>)
    requires
        p <= b@.len(),
        h.data_type == DataType::DateTime,
    ensures
        agrees(r, cells_column(b@, p as int, h@)),
{
    let mut acc: Vec<Option<DateTime>> = Vec::new();
    let mut q: usize = p;
    let mut i: u32 = 0;
    assert(data_view(&Data::DateTime(acc)).cells =~= Seq::<Option<ValueView>>::empty());
    while i < h.rows
        invariant
            p <= q <= b@.len(),
            i <= h.rows,
            h.data_type == DataType::DateTime,
            cells_from(b@, p as int, h@, 0, Seq::empty()) == cells_from(
                b@,
                q as int,
                h@,
                i as int,
                data_view(&Data::DateTime(acc)).cells,
            ),
        decreases h.rows - i,
    {
        let ghost before = data_view(&Data::DateTime(acc)).cells;
        let ghost old_acc = acc@;
        if row_is_null(h, i) {
            acc.push(None);
            assert(acc@ == old_acc.push(None));
            assert(forall|k: int| 0 <= k < old_acc.len() ==> acc@[k] == old_acc[k]);
            assert(data_view(&Data::DateTime(acc)).cells =~= before.push(None));
        } else {
            match read_datetime(b, q, h) {
                Err(e) => {
                    assert(cell_at(b@, q as int, h@) == Err::<(ValueView, int), Error>(e));
                    return Err(e);
                },
                Ok((x, q2)) => {
                    let ghost v = ValueView::Time(x);
                    assert(cell_at(b@, q as int, h@) == Ok::<(ValueView, int), Error>((v, q2 as int)));
                    if q2 < q || q2 > b.len() {
                        return Err(Error::Io);
                    }
                    acc.push(Some(x));
                    assert(acc@[acc@.len() - 1] == Some(x));
                    assert(forall|k: int| 0 <= k < old_acc.len() ==> acc@[k] == old_acc[k]);
                    let ghost now = data_view(&Data::DateTime(acc)).cells;
                    assert forall|k: int| 0 <= k < now.len() implies now[k] == before.push(Some(v))[k] by {
                        if k < old_acc.len() {
                            assert(acc@[k] == old_acc[k]);
                        }
                    }
                    assert(now =~= before.push(Some(v)));
                    q = q2;
                },
            }
        }
        i = i + 1;
    }
    Ok((Data::DateTime(acc), q))
}

#[verifier::rlimit(100)]
fn read_rows_char(b: &[u8], p: usize, h: &Field) -> (r: Result<(Data, usize), Error>)
    requires
        p <= b@.len(),
        h.data_type == DataType::Char,
    ensures
        agrees(r, cells_column(b@, p as int, h@)),
{
    let mut acc: Vec<Option<char>> = Vec::new();
    let mut q: usize = p;
    let mut i: u32 = 0;
    assert(data_view(&Data::Char(acc)).cells =~= Seq::<Option<ValueView>>::empty());
    while i < h.rows
        invariant
            p <= q <= b@.len(),
            i <= h.rows,
            h.data_type == DataType::Char,
            cells_from(b@, p as int, h@, 0, Seq::empty()) == cells_from(
                b@,
                q as int,
                h@,
                i as int,
                data_view(&Data::Char(acc)).cells,
            ),
        decreases h.rows - i,
    {
        let ghost before = data_view(&Data::Char(acc)).cells;
        let ghost old_acc = acc@;
        if row_is_null(h, i) {
            acc.push(None);
            assert(acc@ == old_acc.push(None));
            assert(forall|k: int| 0 <= k < old_acc.len() ==> acc@[k] == old_acc[k]);
            assert(data_view(&Data::Char(acc)).cells =~= before.push(None));
        } else {
            match read_char(b, q) {
                Err(e) => {
                    assert(cell_at(b@, q as int, h@) == Err::<(ValueView, int), Error>(e));
                    return Err(e);
                },
                Ok((x, q2)) => {
                    let ghost v = ValueView::Char(x as u32);
                    assert(cell_at(b@, q as int, h@) == Ok::<(ValueView, int), Error>((v, q2 as int)));
                    if q2 < q || q2 > b.len() {
                        return Err(Error::Io);
                    }
                    acc.push(Some(x));
                    assert(acc@[acc@.len() - 1] == Some(x));
                    assert(forall|k: int| 0 <= k < old_acc.len() ==> acc@[k] == old_acc[k]);
                    let ghost now = data_view(&Data::Char(acc)).cells;
                    assert forall|k: int| 0 <= k < now.len() implies now[k] == before.push(Some(v))[k] by {
                        if k < old_acc.len() {
                            assert(acc@[k] == old_acc[k]);
                        }
                    }
                    assert(now =~= before.push(Some(v)));
                    q = q2;
                },
            }
        }
        i = i + 1;
    }
    Ok((Data::Char(acc), q))
}

#[verifier::rlimit(40)]
fn read_rows_binary(b: &[u8], p: usize, h: &Field) -> (r: Result<(Data, usize), Error>)
    requires
        p <= b@.len(),
        h.data_type == DataType::Binary,
    ensures
        agrees(r, cells_column(b@, p as int, h@)),
{
    let mut acc: Vec<Option<Vec<u8>>> = Vec::new();
    let mut q: usize = p;
    let mut i: u32 = 0;
    assert(data_view(&Data::Binary(acc)).cells =~= Seq::<Option<ValueView>>::empty());
    while i < h.rows
        invariant
            p <= q <= b@.len(),
            i <= h.rows,
            h.data_type == DataType::Binary,
            cells_from(b@, p as int, h@, 0, Seq::empty()) == cells_from(
                b@,
                q as int,
                h@,
                i as int,
                data_view(&Data::Binary(acc)).cells,
            ),
        decreases h.rows - i,
    {
        let ghost before = data_view(&Data::Binary(acc)).cells;
        let ghost old_acc = acc@;
        if row_is_null(h, i) {
            acc.push(None);
            assert(acc@ == old_acc.push(None));
            assert(forall|k: int| 0 <= k < old_acc.len() ==> acc@[k] == old_acc[k]);
            assert(data_view(&Data::Binary(acc)).cells =~= before.push(None));
        } else {
            match read_binary(b, q) {
                Err(e) => {
                    assert(cell_at(b@, q as int, h@) == Err::<(ValueView, int), Error>(e));
                    return Err(e);
                },
                Ok((x, q2)) => {
                    let ghost v = ValueView::Bytes(x@);
                    assert(cell_at(b@, q as int, h@) == Ok::<(ValueView, int), Error>((v, q2 as int)));
                    if q2 < q || q2 > b.len() {
                        return Err(Error::Io);
                    }
                    acc.push(Some(x));
                    assert(acc@[acc@.len() - 1] == Some(x));
                    assert(forall|k: int| 0 <= k < old_acc.len() ==> acc@[k] == old_acc[k]);
                    let ghost now = data_view(&Data::Binary(acc)).cells;
                    assert forall|k: int| 0 <= k < now.len() implies now[k] == before.push(Some(v))[k] by {
                        if k < old_acc.len() {
                            assert(acc@[k] == old_acc[k]);
                        }
                    }
                    assert(now =~= before.push(Some(v)));
                    q = q2;
                },
            }
        }
        i = i + 1;
    }
    Ok((Data::Binary(acc), q))
}

/// Reads the rows of a field whose values are read one at a time: one value for
/// each row that is not null, none for a null row.
pub fn read_rows(b: &[u8], p: usize, h: &Field) -> (r: Result<(Data, usize), Error>)
    requires
        p <= b@.len(),
        is_cell_type(h.data_type),
    ensures
        agrees(r, cells_column(b@, p as int, h@)),
    decreases b@.len() - p, 2int, h.rows as int + 1,
{
    match h.data_type {
        DataType::StringW => read_rows_string_w(b, p, h),
        DataType::String | DataType::EncString => read_rows_ascii(b, p, h),
        DataType::Long => read_rows_long(b, p, h),
        DataType::Short => read_rows_short(b, p, h),
        DataType::LongLong => read_rows_long_long(b, p, h),
        DataType::SDO => read_rows_sdo(b, p, h),
        DataType::Double => read_rows_double(b, p, h),
        DataType::Float => read_rows_float(b, p, h),
        DataType::DateTime => read_rows_datetime(b, p, h),
        DataType::Char => read_rows_char(b, p, h),
        DataType::Binary => read_rows_binary(b, p, h),
        _ => Err(Error::Io),
    }
}

/// Reads the rows of a boolean field: one bit for each row that is not null, taken
/// most significant first, eight to a byte; a null row takes no bit.
pub fn read_bool_rows(b: &[u8], p: usize, h: &Field) -> (r: Result<(Vec<Option<bool>>, usize), Error>)
    ensures
        match (r, bools_from(b@, p as int, h@, 0, 0, 8, Seq::empty())) {
            (Ok((v, q)), Ok((c, q2))) => data_view(&Data::Bool(v)).cells == c && q == q2,
            (Err(e1), Err(e2)) => e1 == e2,
            _ => false,
        },
{
    let mut acc: Vec<Option<bool>> = Vec::new();
    let mut q: usize = p;
    let mut i: u32 = 0;
    let mut cur: u8 = 0;
    let mut used: u8 = 8;
    assert(data_view(&Data::Bool(acc)).cells =~= Seq::<Option<ValueView>>::empty());
    while i < h.rows
        invariant
            i <= h.rows,
            used <= 8,
            bools_from(b@, p as int, h@, 0, 0, 8, Seq::empty()) == bools_from(
                b@,
                q as int,
                h@,
                i as int,
                cur,
                used as int,
                data_view(&Data::Bool(acc)).cells,
            ),
        decreases h.rows - i,
    {
        let ghost before = data_view(&Data::Bool(acc)).cells;
        if row_is_null(h, i) {
            acc.push(None);
            assert(data_view(&Data::Bool(acc)).cells =~= before.push(None));
        } else {
            if used >= 8 {
                match read_u8(b, q) {
                    Err(e) => return Err(e),
                    Ok((x, q2)) => {
                        cur = x;
                        used = 0;
                        q = q2;
                    },
                }
            }
            let bit = (cur >> (7 - used)) & 1 == 1;
            acc.push(Some(bit));
            assert(data_view(&Data::Bool(acc)).cells =~= before.push(Some(ValueView::Bool(bit))));
            used = used + 1;
        }
        i = i + 1;
    }
    Ok((acc, q))
}

/// Reads the values of a field whose header is `h`.
pub fn decode_field_values(b: &[u8], p: usize, h: &Field) -> (r: Result<(Data, usize), Error>)
    ensures
        agrees(r, column_at(b@, p as int, h@)),
    decreases b@.len() - p, 3int, 0int,
{
    if p > b.len() {
        return Err(Error::Io);
    }
    if h.data_type == DataType::Boolean {
        match read_bool_rows(b, p, h) {
            Err(e) => Err(e),
            Ok((v, q)) => {
                assert(data_view(&Data::Bool(v)).kind == ColumnKind::Bool);
                Ok((Data::Bool(v), q))
            },
        }
    } else if h.data_type == DataType::NoType1 || h.data_type == DataType::Unknown {
        let r = Data::Unknown;
        assert(r@.cells =~= Seq::<Option<ValueView>>::empty());
        Ok((r, p))
    } else {
        read_rows(b, p, h)
    }
}

/// The view of one entry of an SDO's field list.
pub open spec fn entry_view(e: (Field, Option<Data>)) -> (FieldView, Option<ColumnView>) {
    (
        e.0@,
        match e.1 {
            Some(d) => Some(d@),
            None => None,
        },
    )
}

/// Reads the field at `p`: its header and its values; `None` at the zero byte
/// that ends a field list.
pub fn decode_field(b: &[u8], p: usize, single_row: bool) -> (r: Result<(Option<(Field, Option<Data>)>, usize), Error>)
    ensures
        match (r, field_at(b@, p as int, single_row)) {
            (Ok((Some(e), q)), Ok((Some(e2), q2))) => entry_view(e) == e2 && q == q2,
            (Ok((None, q)), Ok((None, q2))) => q == q2,
            (Err(e1), Err(e2)) => e1 == e2,
            _ => false,
        },
    decreases b@.len() - p, 4int, 0int,
{
    match decode_field_header(b, p, single_row) {
        Err(e) => Err(e),
        Ok((None, q)) => Ok((None, q)),
        Ok((Some(h), q)) => {
            if q < p || q > b.len() {
                return Err(Error::Io);
            }
            match decode_field_values(b, q, &h) {
                Err(e) => Err(e),
                Ok((d, r)) => Ok((Some((h, Some(d))), r)),
            }
        },
    }
}

/// The topic code that a wire value stands for.
pub fn topic_code_from_wire(w: u32) -> (r: i32)
    ensures
        r == topic_code_of_wire(w),
{
    if w <= 0x8000_0000 {
        (w as i64 - 1) as i32
    } else {
        (w as i64 - 1 - 0x1_0000_0000) as i32
    }
}

pub open spec fn fields_view(fs: Seq<(Field, Option<Data>)>) -> Seq<(FieldView, Option<ColumnView>)> {
    Seq::new(fs.len(), |i: int| entry_view(fs[i]))
}

/// Reads the SDO at `p`: its preamble, topic and fields, up to the end of the buffer
/// or the zero byte that ends its fields.
pub fn read_sdo(b: &[u8], p: usize) -> (r: Result<(SDO, usize), Error>)
    ensures
        agrees(r, sdo_at(b@, p as int)),
    decreases b@.len() - p, 0int, 0int,
{
    if p >= b.len() {
        return Err(Error::Io);
    }
    let pre = b[p];
    let single_row = pre & 0x10 != 0;
    let pad = (pre >> 5) as usize;
    if pad >= b.len() - p {
        proof {
            assert(varint_at(b@, p + 1 + pad, 5) is None);
        }
        return Err(Error::Io);
    }
    let (w, q) = match read_u32(b, p + 1 + pad) {
        Err(e) => return Err(e),
        Ok(x) => x,
    };
    if q <= p || q > b.len() {
        return Err(Error::Io);
    }
    let topic = Topic::from_code(topic_code_from_wire(w));
    let mut fields: Vec<(Field, Option<Data>)> = Vec::new();
    let mut pos: usize = q;
    assert(fields_view(fields@) =~= Seq::<(FieldView, Option<ColumnView>)>::empty());
    loop
        invariant
            p < q <= pos <= b@.len(),
            fields_from(b@, q as int, single_row, Seq::empty()) == fields_from(
                b@,
                pos as int,
                single_row,
                fields_view(fields@),
            ),
            topic == Topic::spec_from_code(topic_code_of_wire(w)),
            sdo_at(b@, p as int) == (match fields_from(b@, q as int, single_row, Seq::empty()) {
                Err(e) => Err(e),
                Ok((fs, r)) => Ok((SdoView { topic, fields: fs }, r)),
            }),
        decreases b@.len() - pos,
    {
        if pos == b.len() {
            let s = SDO { topic, fields };
            assert(s@.fields =~= fields_view(fields@));
            return Ok((s, pos));
        }
        match decode_field(b, pos, single_row) {
            Err(e) => return Err(e),
            Ok((None, r)) => {
                let s = SDO { topic, fields };
                assert(s@.fields =~= fields_view(fields@));
                return Ok((s, r));
            },
            Ok((Some(f), r)) => {
                if r <= pos || r > b.len() {
                    return Err(Error::Io);
                }
                let ghost before = fields_view(fields@);
                let ghost fv = entry_view(f);
                fields.push(f);
                assert(fields_view(fields@) =~= before.push(fv));
                pos = r;
            },
        }
    }
}

} // verus!
