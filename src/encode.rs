use vstd::prelude::*;
use vstd::utf8::*;

use crate::data::{
    ColumnKind, ColumnView, Data, DataType, Field, FieldView, FloatValue, SDO, SdoView, ValueView,
    WireType, data_view,
};
use crate::varint::{varint_bytes, write_varint, write_varint_u32, write_varint_u64};

verus! {

/// Why an encoding failed; writing to memory does not fail.
#[derive(Clone, Copy, Debug, PartialEq, Eq, Structural)]
pub enum Error {
    Io,
}

pub open spec fn data_type_code(dt: DataType) -> u8 {
    match dt {
        DataType::NoType1 => 0,
        DataType::String => 1,
        DataType::Short => 2,
        DataType::Float => 3,
        DataType::Double => 4,
        DataType::Long => 5,
        DataType::Binary => 6,
        DataType::Char => 7,
        DataType::EncString => 8,
        DataType::StringW => 9,
        DataType::SDO => 10,
        DataType::DateTime => 11,
        DataType::LongLong => 12,
        DataType::Boolean => 13,
        DataType::Unknown => 14,
    }
}

pub open spec fn wire_type_code(wt: WireType) -> u8 {
    match wt {
        WireType::Varint => 0,
        WireType::Bit64 => 1,
        WireType::LengthDelimited => 2,
        WireType::EmbeddedSDO => 3,
        WireType::Unknown => 4,
    }
}

/// The second header word: the field id shifted left by one (modulo 2^32), plus one
/// for a date-time field, whose extra-info bit is set.
pub open spec fn id_word(f: FieldView) -> nat {
    let id: nat = match f.field_id {
        Some(i) => i as nat,
        None => 0,
    };
    ((id * 2) % 0x1_0000_0000) + if f.data_type == DataType::DateTime { 1nat } else { 0nat }
}

/// A field header as the encoder writes it: no null flags, no row count.
pub open spec fn header_bytes(f: FieldView) -> Seq<u8> {
    seq![(data_type_code(f.data_type) * 8 + wire_type_code(f.wire_type) * 2) as u8] + varint_bytes(
        id_word(f),
    )
}

/// The wire value of a topic code: the code plus one, modulo 2^32.
pub open spec fn topic_wire(c: i32) -> u32 {
    if c >= -1 {
        (c + 1) as u32
    } else {
        (c + 1 + 0x1_0000_0000) as u32
    }
}

/// A string value of a column of the given kind: a wide string takes its UTF-8 length
/// plus one, the encoding tag 0 and its UTF-8 bytes; an 8-bit string its length plus
/// one and its bytes.
pub open spec fn string_bytes(kind: ColumnKind, s: Seq<char>) -> Seq<u8> {
    if kind == ColumnKind::StringW {
        varint_bytes(encode_utf8(s).len() + 1) + seq![0u8] + encode_utf8(s)
    } else {
        varint_bytes(encode_utf8(s).len() + 1) + encode_utf8(s)
    }
}

/// The value of bit `k` of a byte, counting from the most significant.
pub open spec fn bit_value(k: nat) -> u8 {
    if k == 0 {
        0x80
    } else if k == 1 {
        0x40
    } else if k == 2 {
        0x20
    } else if k == 3 {
        0x10
    } else if k == 4 {
        0x08
    } else if k == 5 {
        0x04
    } else if k == 6 {
        0x02
    } else {
        0x01
    }
}

/// The largest value of a byte whose first `n` bits alone may be set.
pub open spec fn filled(n: nat) -> int
    decreases n,
{
    if n == 0 {
        0
    } else {
        filled((n - 1) as nat) + bit_value((n - 1) as nat)
    }
}

/// The bits of the booleans of a column, packed from row `i` on: `bytes` are full,
/// `n` bits of `s` are taken.
pub open spec fn pack_from(cells: Seq<Option<ValueView>>, i: int, bytes: Seq<u8>, n: nat, s: u8) -> Seq<u8>
    decreases cells.len() - i,
{
    if i >= cells.len() || i < 0 {
        if n > 0 {
            bytes.push(s)
        } else {
            bytes
        }
    } else {
        match cells[i] {
            Some(ValueView::Bool(v)) => if n > 0 && n % 8 == 0 {
                pack_from(cells, i + 1, bytes.push(s), 1, if v { 0x80u8 } else { 0u8 })
            } else {
                pack_from(
                    cells,
                    i + 1,
                    bytes,
                    n + 1,
                    if v { (s + bit_value(n % 8)) as u8 } else { s },
                )
            },
            _ => pack_from(cells, i + 1, bytes, n, s),
        }
    }
}

/// A number as the decoder reads it back: an integer as a varint, the bits of a double
/// as eight bytes least significant first, those of a float as four bytes most
/// significant first.
pub open spec fn number_bytes(n: FloatValue) -> Seq<u8> {
    match n {
        FloatValue::Integer(i) => varint_bytes(i as nat),
        FloatValue::Bits64(b) => seq![
            (b % 0x100) as u8,
            ((b / 0x100) % 0x100) as u8,
            ((b / 0x1_0000) % 0x100) as u8,
            ((b / 0x100_0000) % 0x100) as u8,
            ((b / 0x1_0000_0000) % 0x100) as u8,
            ((b / 0x100_0000_0000) % 0x100) as u8,
            ((b / 0x1_0000_0000_0000) % 0x100) as u8,
            ((b / 0x100_0000_0000_0000) % 0x100) as u8,
        ],
        FloatValue::Bits32(b) => seq![
            ((b / 0x100_0000) % 0x100) as u8,
            ((b / 0x1_0000) % 0x100) as u8,
            ((b / 0x100) % 0x100) as u8,
            (b % 0x100) as u8,
        ],
    }
}

/// The bytes of an SDO: the preamble 0x17 (version 7, single row), the topic,
/// each field, and a zero byte.
pub open spec fn sdo_bytes(s: SdoView) -> Seq<u8>
    decreases s,
{
    seq![0x17u8] + varint_bytes(topic_wire(s.topic.spec_code()) as nat) + fields_bytes(s.fields)
        + seq![0u8]
}

pub open spec fn fields_bytes(fs: Seq<(FieldView, Option<ColumnView>)>) -> Seq<u8>
    decreases fs,
{
    if fs.len() == 0 {
        Seq::empty()
    } else {
        fields_bytes(fs.subrange(0, fs.len() - 1)) + entry_bytes(fs[fs.len() - 1])
    }
}

/// One field: its header, then the values of its non-null rows, for the kinds that
/// the encoder writes (wide and 8-bit strings, longs, shorts, long-longs, doubles,
/// floats, binaries, booleans and SDOs).
pub open spec fn entry_bytes(e: (FieldView, Option<ColumnView>)) -> Seq<u8>
    decreases e,
{
    header_bytes(e.0) + match e.1 {
        Some(c) => column_bytes(c),
        None => Seq::empty(),
    }
}

pub open spec fn column_bytes(c: ColumnView) -> Seq<u8>
    decreases c,
{
    if c.kind == ColumnKind::Bool {
        pack_from(c.cells, 0, Seq::empty(), 0, 0)
    } else {
        cells_bytes(c.kind, c.cells)
    }
}

pub open spec fn cells_bytes(kind: ColumnKind, cs: Seq<Option<ValueView>>) -> Seq<u8>
    decreases cs,
{
    if cs.len() == 0 {
        Seq::empty()
    } else {
        cells_bytes(kind, cs.subrange(0, cs.len() - 1)) + match cs[cs.len() - 1] {
            Some(v) => value_bytes(kind, v),
            None => Seq::empty(),
        }
    }
}

pub open spec fn value_bytes(kind: ColumnKind, v: ValueView) -> Seq<u8>
    decreases v,
{
    match v {
        ValueView::Str(s) => if kind == ColumnKind::StringW || kind == ColumnKind::AsciiString {
            string_bytes(kind, s)
        } else {
            Seq::empty()
        },
        ValueView::U32(x) => if kind == ColumnKind::Long || kind == ColumnKind::Short {
            varint_bytes(x as nat)
        } else {
            Seq::empty()
        },
        ValueView::Sdo(s) => if kind == ColumnKind::Sdo {
            sdo_bytes(s)
        } else {
            Seq::empty()
        },
        ValueView::U64(x) => if kind == ColumnKind::LongLong {
            varint_bytes(x as nat)
        } else {
            Seq::empty()
        },
        ValueView::Bytes(v) => if kind == ColumnKind::Binary {
            varint_bytes(v.len()) + v
        } else {
            Seq::empty()
        },
        ValueView::Number(n) => if kind == ColumnKind::Double || kind == ColumnKind::Float {
            number_bytes(n)
        } else {
            Seq::empty()
        },
        _ => Seq::empty(),
    }
}

impl DataType {
    /// The header code of a data type; `Unknown` is 14.
    pub fn code(&self) -> (r: u8)
        ensures
            r == data_type_code(*self),
    {
        match self {
            DataType::NoType1 => 0,
            DataType::String => 1,
            DataType::Short => 2,
            DataType::Float => 3,
            DataType::Double => 4,
            DataType::Long => 5,
            DataType::Binary => 6,
            DataType::Char => 7,
            DataType::EncString => 8,
            DataType::StringW => 9,
            DataType::SDO => 10,
            DataType::DateTime => 11,
            DataType::LongLong => 12,
            DataType::Boolean => 13,
            DataType::Unknown => 14,
        }
    }
}

impl WireType {
    /// The header code of a wire type; `Unknown` is 4.
    pub fn code(&self) -> (r: u8)
        ensures
            r == wire_type_code(*self),
    {
        match self {
            WireType::Varint => 0,
            WireType::Bit64 => 1,
            WireType::LengthDelimited => 2,
            WireType::EmbeddedSDO => 3,
            WireType::Unknown => 4,
        }
    }
}

/// The wire value of a topic code.
pub fn topic_wire_of(c: i32) -> (r: u32)
    ensures
        r == topic_wire(c),
{
    if c >= -1 {
        (c as i64 + 1) as u32
    } else {
        (c as i64 + 1 + 0x1_0000_0000) as u32
    }
}

fn write_bytes(out: &mut Vec<u8>, b: &[u8])
    ensures
        final(out)@ == old(out)@ + b@,
{
    let ghost start = out@;
    let mut k: usize = 0;
    while k < b.len()
        invariant
            k <= b@.len(),
            out@ == start + b@.subrange(0, k as int),
        decreases b@.len() - k,
    {
        out.push(b[k]);
        k = k + 1;
        assert(out@ =~= start + b@.subrange(0, k as int));
    }
    assert(b@.subrange(0, b@.len() as int) =~= b@);
}

fn write_header(f: &Field, out: &mut Vec<u8>)
    ensures
        final(out)@ == old(out)@ + header_bytes(f@),
{
    let ghost start = out@;
    let dt = f.data_type.code();
    let wt = f.wire_type.code();
    out.push(dt * 8 + wt * 2);
    let id: u32 = match f.field_id {
        Some(i) => i,
        None => 0,
    };
    let word: u32 = ((id as u64 * 2) % 0x1_0000_0000) as u32 + if f.data_type == DataType::DateTime {
        1u32
    } else {
        0u32
    };
    write_varint_u32(out, word);
    assert(out@ =~= start + header_bytes(f@));
}

fn write_string(kind_w: bool, s: &String, out: &mut Vec<u8>)
    ensures
        final(out)@ == old(out)@ + string_bytes(
            if kind_w { ColumnKind::StringW } else { ColumnKind::AsciiString },
            s@,
        ),
{
    let ghost start = out@;
    let b = s.as_str().as_bytes();
    let n = b.len();
    write_varint(out, n as u128 + 1);
    if kind_w {
        out.push(0);
    }
    write_bytes(out, b);
    assert(out@ =~= start + string_bytes(
        if kind_w { ColumnKind::StringW } else { ColumnKind::AsciiString },
        s@,
    ));
}

fn bit_value_of(k: u32) -> (r: u8)
    requires
        k < 8,
    ensures
        r == bit_value(k as nat),
{
    if k == 0 {
        0x80
    } else if k == 1 {
        0x40
    } else if k == 2 {
        0x20
    } else if k == 3 {
        0x10
    } else if k == 4 {
        0x08
    } else if k == 5 {
        0x04
    } else if k == 6 {
        0x02
    } else {
        0x01
    }
}

fn write_number(n: FloatValue, out: &mut Vec<u8>)
    ensures
        final(out)@ == old(out)@ + number_bytes(n),
{
    let ghost start = out@;
    match n {
        FloatValue::Integer(i) => write_varint_u32(out, i),
        FloatValue::Bits64(b) => {
            out.push((b % 0x100) as u8);
            out.push(((b / 0x100) % 0x100) as u8);
            out.push(((b / 0x1_0000) % 0x100) as u8);
            out.push(((b / 0x100_0000) % 0x100) as u8);
            out.push(((b / 0x1_0000_0000) % 0x100) as u8);
            out.push(((b / 0x100_0000_0000) % 0x100) as u8);
            out.push(((b / 0x1_0000_0000_0000) % 0x100) as u8);
            out.push(((b / 0x100_0000_0000_0000) % 0x100) as u8);
            assert(out@ =~= start + number_bytes(n));
        },
        FloatValue::Bits32(b) => {
            out.push(((b / 0x100_0000) % 0x100) as u8);
            out.push(((b / 0x1_0000) % 0x100) as u8);
            out.push(((b / 0x100) % 0x100) as u8);
            out.push((b % 0x100) as u8);
            assert(out@ =~= start + number_bytes(n));
        },
    }
}

/// Appends the booleans of a column, packed eight to a byte, most significant bit
/// first, skipping null rows.
fn write_bools(v: &Vec<Option<bool>>, out: &mut Vec<u8>)
    ensures
        final(out)@ == old(out)@ + pack_from(data_view(&Data::Bool(*v)).cells, 0, Seq::empty(), 0, 0),
{
    let ghost cells = data_view(&Data::Bool(*v)).cells;
    let mut bytes: Vec<u8> = Vec::new();
    let mut n: u32 = 0;
    let mut s: u8 = 0;
    let mut i: usize = 0;
    while i < v.len()
        invariant
            i <= v@.len(),
            cells == data_view(&Data::Bool(*v)).cells,
            n <= 8,
            s <= filled(n as nat),
            n == 0 ==> s == 0,
            pack_from(cells, 0, Seq::empty(), 0, 0) == pack_from(cells, i as int, bytes@, n as nat, s),
        decreases v@.len() - i,
    {
        assert(cells[i as int] == match v@[i as int] {
            Some(x) => Some(ValueView::Bool(x)),
            None => None,
        });
        match v[i] {
            Some(value) => {
                if n > 0 && n % 8 == 0 {
                    bytes.push(s);
                    s = if value { 0x80 } else { 0 };
                    n = 1;
                    assert(filled(1) == 0x80) by {
                        reveal_with_fuel(filled, 2);
                    }
                } else {
                    let ghost n0 = n as nat;
                    assert(filled(n0 + 1) == filled(n0) + bit_value(n0));
                    assert(filled(n0 + 1) <= 255) by {
                        reveal_with_fuel(filled, 9);
                    }
                    if value {
                        s = s + bit_value_of(n % 8);
                    }
                    n = n + 1;
                }
            },
            None => {},
        }
        i = i + 1;
    }
    if n > 0 {
        bytes.push(s);
    }
    write_bytes(out, bytes.as_slice());
}

/// Appends an SDO: the preamble, the topic, each field, and a zero byte.
fn write_sdo(s: &SDO, out: &mut Vec<u8>)
    ensures
        final(out)@ == old(out)@ + sdo_bytes(s@),
    decreases s,
{
    let ghost start = out@;
    out.push(0x17);
    write_varint_u32(out, topic_wire_of(s.topic.code()));
    proof {
        assert(decreases_to!(s => s.fields));
    }
    write_fields(&s.fields, out);
    assert(s@.fields =~= fields_view_of(s.fields@));
    out.push(0);
    assert(out@ =~= start + sdo_bytes(s@));
}

/// The views of the entries of a field list.
pub open spec fn fields_view_of(fs: Seq<(Field, Option<Data>)>) -> Seq<(FieldView, Option<ColumnView>)> {
    Seq::new(
        fs.len(),
        |i: int|
            (
                fs[i].0@,
                match fs[i].1 {
                    Some(d) => Some(d@),
                    None => None,
                },
            ),
    )
}

/// Appends each field of a list, in order.
pub(crate) fn write_fields(fields: &Vec<(Field, Option<Data>)>, out: &mut Vec<u8>)
    ensures
        final(out)@ == old(out)@ + fields_bytes(fields_view_of(fields@)),
    decreases fields,
{
    let ghost head = out@;
    let ghost fv = fields_view_of(fields@);
    let mut i: usize = 0;
    assert(fv.subrange(0, 0) =~= Seq::<(FieldView, Option<ColumnView>)>::empty());
    while i < fields.len()
        invariant
            i <= fields@.len(),
            fv == fields_view_of(fields@),
            out@ == head + fields_bytes(fv.subrange(0, i as int)),
        decreases fields@.len() - i,
    {
        proof {
            assert(decreases_to!(fields => fields[i as int]));
        }
        write_entry(&fields[i].0, &fields[i].1, out);
        let ghost fs = fv.subrange(0, i + 1);
        assert(fs.subrange(0, fs.len() - 1) =~= fv.subrange(0, i as int));
        assert(fs[fs.len() - 1] == fv[i as int]);
        i = i + 1;
    }
    assert(fv.subrange(0, fv.len() as int) =~= fv);
}

/// The bytes of two field lists, one after the other, are the bytes of their concatenation.
pub proof fn lemma_fields_bytes_concat(
    a: Seq<(FieldView, Option<ColumnView>)>,
    b: Seq<(FieldView, Option<ColumnView>)>,
)
    ensures
        fields_bytes(a + b) == fields_bytes(a) + fields_bytes(b),
    decreases b.len(),
{
    if b.len() == 0 {
        assert(a + b =~= a);
        assert(fields_bytes(b) =~= Seq::<u8>::empty());
        assert(fields_bytes(a) + fields_bytes(b) =~= fields_bytes(a));
    } else {
        let ab = a + b;
        let b0 = b.subrange(0, b.len() - 1);
        assert(ab.subrange(0, ab.len() - 1) =~= a + b0);
        assert(ab[ab.len() - 1] == b[b.len() - 1]);
        lemma_fields_bytes_concat(a, b0);
        assert(fields_bytes(a + b) =~= fields_bytes(a) + fields_bytes(b));
    }
}

/// Appends one field: its header, then the values of its non-null rows.
fn write_entry(f: &Field, d: &Option<Data>, out: &mut Vec<u8>)
    ensures
        final(out)@ == old(out)@ + entry_bytes(
            (
                f@,
                match d {
                    Some(x) => Some(x@),
                    None => None,
                },
            ),
        ),
    decreases d,
{
    write_header(f, out);
    match d {
        Some(x) => {
            write_column(x, out);
        },
        None => {},
    }
}

fn write_column(d: &Data, out: &mut Vec<u8>)
    ensures
        final(out)@ == old(out)@ + column_bytes(d@),
    decreases d,
{
    let ghost start = out@;
    match d {
        Data::Bool(v) => {
            write_bools(v, out);
        },
        Data::StringW(v) => {
            let mut i: usize = 0;
            assert(d@.cells.subrange(0, 0) =~= Seq::<Option<ValueView>>::empty());
            while i < v.len()
                invariant
                    i <= v@.len(),
                    *d == Data::StringW(*v),
                    out@ == start + cells_bytes(d@.kind, d@.cells.subrange(0, i as int)),
                decreases v@.len() - i,
            {
                let ghost cs = d@.cells.subrange(0, i + 1);
                assert(cs.subrange(0, cs.len() - 1) =~= d@.cells.subrange(0, i as int));
                match &v[i] {
                    Some(x) => {
                        write_string(true, x, out);
                        assert(value_bytes(d@.kind, ValueView::Str(x@)) == string_bytes(
                            ColumnKind::StringW,
                            x@,
                        ));
                    },
                    None => {},
                }
                assert(cs[cs.len() - 1] == d@.cells[i as int]);
                i = i + 1;
            }
            assert(d@.cells.subrange(0, v@.len() as int) =~= d@.cells);
        },
        Data::AsciiString(v) => {
            let mut i: usize = 0;
            assert(d@.cells.subrange(0, 0) =~= Seq::<Option<ValueView>>::empty());
            while i < v.len()
                invariant
                    i <= v@.len(),
                    *d == Data::AsciiString(*v),
                    out@ == start + cells_bytes(d@.kind, d@.cells.subrange(0, i as int)),
                decreases v@.len() - i,
            {
                let ghost cs = d@.cells.subrange(0, i + 1);
                assert(cs.subrange(0, cs.len() - 1) =~= d@.cells.subrange(0, i as int));
                match &v[i] {
                    Some(x) => {
                        write_string(false, &x.0, out);
                        assert(value_bytes(d@.kind, ValueView::Str(x@)) == string_bytes(
                            ColumnKind::AsciiString,
                            x@,
                        ));
                    },
                    None => {},
                }
                assert(cs[cs.len() - 1] == d@.cells[i as int]);
                i = i + 1;
            }
            assert(d@.cells.subrange(0, v@.len() as int) =~= d@.cells);
        },
        Data::Long(v) | Data::Short(v) => {
            let mut i: usize = 0;
            assert(d@.cells.subrange(0, 0) =~= Seq::<Option<ValueView>>::empty());
            while i < v.len()
                invariant
                    i <= v@.len(),
                    *d == Data::Long(*v) || *d == Data::Short(*v),
                    out@ == start + cells_bytes(d@.kind, d@.cells.subrange(0, i as int)),
                decreases v@.len() - i,
            {
                let ghost cs = d@.cells.subrange(0, i + 1);
                assert(cs.subrange(0, cs.len() - 1) =~= d@.cells.subrange(0, i as int));
                match v[i] {
                    Some(x) => {
                        write_varint_u32(out, x);
                        assert(value_bytes(d@.kind, ValueView::U32(x)) == varint_bytes(x as nat));
                    },
                    None => {},
                }
                assert(cs[cs.len() - 1] == d@.cells[i as int]);
                i = i + 1;
            }
            assert(d@.cells.subrange(0, v@.len() as int) =~= d@.cells);
        },
        Data::SDO(v) => {
            let mut i: usize = 0;
            assert(d@.cells.subrange(0, 0) =~= Seq::<Option<ValueView>>::empty());
            while i < v.len()
                invariant
                    i <= v@.len(),
                    *d == Data::SDO(*v),
                    out@ == start + cells_bytes(d@.kind, d@.cells.subrange(0, i as int)),
                decreases v@.len() - i,
            {
                let ghost cs = d@.cells.subrange(0, i + 1);
                assert(cs.subrange(0, cs.len() - 1) =~= d@.cells.subrange(0, i as int));
                match &v[i] {
                    Some(x) => {
                        proof {
                            assert(decreases_to!(*d => *v));
                            assert(decreases_to!(*v => v[i as int]));
                        }
                        write_sdo(x, out);
                        assert(value_bytes(d@.kind, ValueView::Sdo(x@)) == sdo_bytes(x@));
                    },
                    None => {},
                }
                assert(cs[cs.len() - 1] == d@.cells[i as int]);
                i = i + 1;
            }
            assert(d@.cells.subrange(0, v@.len() as int) =~= d@.cells);
        },
        Data::LongLong(v) => {
            let mut i: usize = 0;
            assert(d@.cells.subrange(0, 0) =~= Seq::<Option<ValueView>>::empty());
            while i < v.len()
                invariant
                    i <= v@.len(),
                    *d == Data::LongLong(*v),
                    out@ == start + cells_bytes(d@.kind, d@.cells.subrange(0, i as int)),
                decreases v@.len() - i,
            {
                let ghost cs = d@.cells.subrange(0, i + 1);
                assert(cs.subrange(0, cs.len() - 1) =~= d@.cells.subrange(0, i as int));
                match &v[i] {
                    Some(x) => {
                        write_varint_u64(out, *x);
                        assert(value_bytes(d@.kind, ValueView::U64(*x)) == varint_bytes(*x as nat));
                    },
                    None => {},
                }
                assert(cs[cs.len() - 1] == d@.cells[i as int]);
                i = i + 1;
            }
            assert(d@.cells.subrange(0, v@.len() as int) =~= d@.cells);
        },
        Data::Binary(v) => {
            let mut i: usize = 0;
            assert(d@.cells.subrange(0, 0) =~= Seq::<Option<ValueView>>::empty());
            while i < v.len()
                invariant
                    i <= v@.len(),
                    *d == Data::Binary(*v),
                    out@ == start + cells_bytes(d@.kind, d@.cells.subrange(0, i as int)),
                decreases v@.len() - i,
            {
                let ghost cs = d@.cells.subrange(0, i + 1);
                assert(cs.subrange(0, cs.len() - 1) =~= d@.cells.subrange(0, i as int));
                match &v[i] {
                    Some(x) => {
                        let ghost before = out@;
                        write_varint(out, x.len() as u128);
                        write_bytes(out, x.as_slice());
                        assert(value_bytes(d@.kind, ValueView::Bytes(x@)) == varint_bytes(x@.len()) + x@);
                        assert(out@ =~= before + value_bytes(d@.kind, ValueView::Bytes(x@)));
                    },
                    None => {},
                }
                assert(cs[cs.len() - 1] == d@.cells[i as int]);
                i = i + 1;
            }
            assert(d@.cells.subrange(0, v@.len() as int) =~= d@.cells);
        },
        Data::Double(v) | Data::Float(v) => {
            let mut i: usize = 0;
            assert(d@.cells.subrange(0, 0) =~= Seq::<Option<ValueView>>::empty());
            while i < v.len()
                invariant
                    i <= v@.len(),
                    *d == Data::Double(*v) || *d == Data::Float(*v),
                    out@ == start + cells_bytes(d@.kind, d@.cells.subrange(0, i as int)),
                decreases v@.len() - i,
            {
                let ghost cs = d@.cells.subrange(0, i + 1);
                assert(cs.subrange(0, cs.len() - 1) =~= d@.cells.subrange(0, i as int));
                match &v[i] {
                    Some(x) => {
                        write_number(*x, out);
                        assert(value_bytes(d@.kind, ValueView::Number(*x)) == number_bytes(*x));
                    },
                    None => {},
                }
                assert(cs[cs.len() - 1] == d@.cells[i as int]);
                i = i + 1;
            }
            assert(d@.cells.subrange(0, v@.len() as int) =~= d@.cells);
        },
        _ => {
            assert(cells_bytes(d@.kind, d@.cells) =~= Seq::<u8>::empty()) by {
                lemma_no_bytes(d@.kind, d@.cells);
            }
        },
    }
}

/// A column of a kind that the encoder does not write takes no bytes.
proof fn lemma_no_bytes(kind: ColumnKind, cs: Seq<Option<ValueView>>)
    requires
        kind != ColumnKind::StringW && kind != ColumnKind::AsciiString && kind != ColumnKind::Long
            && kind != ColumnKind::Short && kind != ColumnKind::Sdo && kind != ColumnKind::LongLong
            && kind != ColumnKind::Binary && kind != ColumnKind::Double && kind != ColumnKind::Float,
    ensures
        cells_bytes(kind, cs) == Seq::<u8>::empty(),
    decreases cs.len(),
{
    if cs.len() > 0 {
        lemma_no_bytes(kind, cs.subrange(0, cs.len() - 1));
        match cs[cs.len() - 1] {
            Some(v) => {
                assert(value_bytes(kind, v) =~= Seq::<u8>::empty());
            },
            None => {},
        }
        assert(cells_bytes(kind, cs) =~= Seq::<u8>::empty());
    }
}

/// Encodes one field: its header (no null flags, no row count), then the values of
/// its non-null rows, for the kinds that the encoder writes.
pub fn encode_field(header: &Field, data: &Option<Data>) -> (r: Result<Vec<u8>, Error>)
    ensures
        r matches Ok(b) && b@ == entry_bytes(
            (
                header@,
                match data {
                    Some(x) => Some(x@),
                    None => None,
                },
            ),
        ),
{
    let mut out: Vec<u8> = Vec::new();
    write_entry(header, data, &mut out);
    assert(out@ =~= entry_bytes(
        (
            header@,
            match data {
                Some(x) => Some(x@),
                None => None,
            },
        ),
    ));
    Ok(out)
}

impl SDO {
    /// Encodes this SDO: the preamble 0x17, the topic plus one, each field, a zero byte.
    pub fn encode(&self) -> (r: Result<Vec<u8>, Error>)
        ensures
            r matches Ok(b) && b@ == sdo_bytes(self@),
    {
        let mut out: Vec<u8> = Vec::new();
        write_sdo(self, &mut out);
        assert(out@ =~= sdo_bytes(self@));
        Ok(out)
    }
}

} // verus!
