use vstd::prelude::*;
use vstd::utf8::*;

use crate::data::{ColumnKind, ColumnView, DataType, FieldView, SdoView, ValueView, WireType};
use crate::decode::{
    Error, bit_of, bools_from, cell_at, cells_from, column_at, field_at, fields_from, header_at,
    is_null, sdo_at, topic_code_of_wire, u32_at, utf8_text,
};
use crate::encode::{
    bit_value, cells_bytes, column_bytes, data_type_code, entry_bytes, fields_bytes, header_bytes,
    id_word, lemma_fields_bytes_concat, pack_from, sdo_bytes, string_bytes, topic_wire, value_bytes,
    wire_type_code,
};
use crate::topic::Topic;
use crate::varint::{lemma_varint_len, lemma_varint_read_back, varint_bytes};

verus! {

/// A value that the encoder writes in a form that the decoder reads back.
pub open spec fn encodable_value(kind: ColumnKind, v: ValueView) -> bool
    decreases v,
{
    match v {
        ValueView::Str(s) => kind == ColumnKind::StringW && encode_utf8(s).len() + 1 < 0x1_0000_0000,
        ValueView::U32(_) => kind == ColumnKind::Long || kind == ColumnKind::Short,
        ValueView::Bool(_) => kind == ColumnKind::Bool,
        ValueView::Sdo(s) => kind == ColumnKind::Sdo && encodable_sdo(s),
        _ => false,
    }
}

/// The kind and wire type that a push method gives a data type, for the types whose
/// single values round-trip.
pub open spec fn pushed_shape(dt: DataType, wt: WireType, kind: ColumnKind) -> bool {
    (dt == DataType::StringW && wt == WireType::LengthDelimited && kind == ColumnKind::StringW) || (
    dt == DataType::Long && wt == WireType::Varint && kind == ColumnKind::Long) || (dt
        == DataType::Short && wt == WireType::Varint && kind == ColumnKind::Short) || (dt
        == DataType::Boolean && wt == WireType::Varint && kind == ColumnKind::Bool) || (dt
        == DataType::SDO && wt == WireType::EmbeddedSDO && kind == ColumnKind::Sdo)
}

/// A field as a push method makes it from one present value: an id below 2^31, one
/// row, no null flags or extra info, values of a wide string, long, short, boolean
/// or SDO.
pub open spec fn encodable_entry(e: (FieldView, Option<ColumnView>)) -> bool
    decreases e,
{
    let f = e.0;
    match (f.field_id, e.1) {
        (Some(id), Some(c)) => id < 0x8000_0000 && f.extra_info is None && f.null_flags is None
            && f.rows == 1 && f.single_row && pushed_shape(f.data_type, f.wire_type, c.kind)
            && c.cells.len() == 1 && match c.cells[0] {
            Some(v) => encodable_value(c.kind, v),
            None => false,
        },
        _ => false,
    }
}

pub open spec fn encodable_fields(fs: Seq<(FieldView, Option<ColumnView>)>) -> bool
    decreases fs,
{
    if fs.len() == 0 {
        true
    } else {
        encodable_fields(fs.subrange(0, fs.len() - 1)) && encodable_entry(fs[fs.len() - 1])
    }
}

/// An SDO whose every field is one that a push method makes from one present value
/// that round-trips, with a well-formed topic.
pub open spec fn encodable_sdo(s: SdoView) -> bool
    decreases s,
{
    s.topic.wf() && encodable_fields(s.fields)
}

proof fn lemma_split(b: Seq<u8>, p: int, x: Seq<u8>, y: Seq<u8>)
    requires
        0 <= p,
        p + x.len() + y.len() <= b.len(),
        b.subrange(p, p + x.len() + y.len()) == x + y,
    ensures
        b.subrange(p, p + x.len()) == x,
        b.subrange(p + x.len(), p + x.len() + y.len()) == y,
{
    assert(b.subrange(p, p + x.len()) =~= (x + y).subrange(0, x.len() as int));
    assert(b.subrange(p + x.len(), p + x.len() + y.len()) =~= (x + y).subrange(
        x.len() as int,
        (x.len() + y.len()) as int,
    ));
    assert((x + y).subrange(0, x.len() as int) =~= x);
    assert((x + y).subrange(x.len() as int, (x.len() + y.len()) as int) =~= y);
}

proof fn lemma_u32_read_back(b: Seq<u8>, p: int, x: u32)
    requires
        0 <= p,
        p + varint_bytes(x as nat).len() <= b.len(),
        b.subrange(p, p + varint_bytes(x as nat).len()) == varint_bytes(x as nat),
    ensures
        u32_at(b, p) == Ok::<(u32, int), Error>((x, p + varint_bytes(x as nat).len())),
{
    reveal(vstd::arithmetic::power::pow);
    lemma_varint_len(x as nat, 5);
    assert(vstd::arithmetic::power::pow(128, 0) == 1);
    assert(vstd::arithmetic::power::pow(128, 1) == 128);
    assert(vstd::arithmetic::power::pow(128, 2) == 0x4000);
    assert(vstd::arithmetic::power::pow(128, 3) == 0x20_0000);
    assert(vstd::arithmetic::power::pow(128, 4) == 0x1000_0000);
    assert(vstd::arithmetic::power::pow(128, 5) == 0x8_0000_0000);
    lemma_varint_read_back(b, p, x as nat, 5);
    vstd::arithmetic::div_mod::lemma_small_mod(x as nat, 0x1_0000_0000);
}

proof fn lemma_header_bits(dt: u8, wt: u8)
    requires
        dt < 16,
        wt < 4,
    ensures
        ((dt * 8 + wt * 2) as u8) >> 3u8 == dt,
        (((dt * 8 + wt * 2) as u8) >> 1u8) & 3u8 == wt,
        ((dt * 8 + wt * 2) as u8) & 1u8 == 0u8,
{
    assert(((dt * 8 + wt * 2) as u8) >> 3u8 == dt && (((dt * 8 + wt * 2) as u8) >> 1u8) & 3u8 == wt
        && ((dt * 8 + wt * 2) as u8) & 1u8 == 0u8) by (bit_vector)
        requires
            dt < 16,
            wt < 4,
    ;
}

proof fn lemma_id_bits(id: u32)
    requires
        id < 0x8000_0000,
    ensures
        ((id * 2) as u32) >> 1u32 == id,
        ((id * 2) as u32) & 1u32 == 0u32,
{
    assert(((id * 2) as u32) >> 1u32 == id && ((id * 2) as u32) & 1u32 == 0u32) by (bit_vector)
        requires
            id < 0x8000_0000u32,
    ;
}

proof fn lemma_topic_wire_back(c: i32)
    ensures
        topic_code_of_wire(topic_wire(c)) == c,
{
}

/// Decoding the bytes of an SDO that the push methods can build reads that SDO back,
/// and ends right after them.
pub proof fn lemma_sdo_read_back(s: SdoView, b: Seq<u8>, p: int)
    requires
        encodable_sdo(s),
        0 <= p,
        p + sdo_bytes(s).len() <= b.len(),
        b.subrange(p, p + sdo_bytes(s).len()) == sdo_bytes(s),
    ensures
        sdo_at(b, p) == Ok::<(SdoView, int), Error>((s, p + sdo_bytes(s).len())),
    decreases s,
{
    let w = topic_wire(s.topic.spec_code());
    let t = varint_bytes(w as nat);
    let fb = fields_bytes(s.fields);
    let all = sdo_bytes(s);
    assert(all == seq![0x17u8] + t + fb + seq![0u8]);
    assert(all == seq![0x17u8] + (t + (fb + seq![0u8])));
    lemma_split(b, p, seq![0x17u8], t + (fb + seq![0u8]));
    lemma_split(b, p + 1, t, fb + seq![0u8]);
    assert(b[p] == 0x17u8) by {
        assert(b.subrange(p, p + 1)[0] == b[p]);
    }
    assert(0x17u8 & 0x10u8 != 0 && (0x17u8 >> 5u8) == 0) by (bit_vector);
    lemma_u32_read_back(b, p + 1, w);
    let q = p + 1 + t.len();
    lemma_fields_read_back(s.fields, b, q, Seq::empty());
    assert(Seq::<(FieldView, Option<ColumnView>)>::empty() + s.fields =~= s.fields);
    lemma_topic_wire_back(s.topic.spec_code());
}

/// Reading the fields of an encodable list, then the zero byte that ends it.
proof fn lemma_fields_read_back(
    fs: Seq<(FieldView, Option<ColumnView>)>,
    b: Seq<u8>,
    q: int,
    acc: Seq<(FieldView, Option<ColumnView>)>,
)
    requires
        encodable_fields(fs),
        0 <= q,
        q + fields_bytes(fs).len() + 1 <= b.len(),
        b.subrange(q, q + fields_bytes(fs).len() + 1) == fields_bytes(fs) + seq![0u8],
    ensures
        fields_from(b, q, true, acc) == Ok::<(Seq<(FieldView, Option<ColumnView>)>, int), Error>(
            (acc + fs, q + fields_bytes(fs).len() + 1),
        ),
    decreases fs,
{
    if fs.len() == 0 {
        assert(fields_bytes(fs) =~= Seq::<u8>::empty());
        assert(b[q] == 0u8) by {
            assert(b.subrange(q, q + 1)[0] == b[q]);
        }
        assert(acc + fs =~= acc);
    } else {
        let e = fs[0];
        let rest = fs.subrange(1, fs.len() as int);
        lemma_fields_front(fs);
        lemma_encodable_front(fs);
        let eb = entry_bytes(e);
        let rb = fields_bytes(rest);
        assert(fields_bytes(fs) + seq![0u8] == eb + (rb + seq![0u8]));
        lemma_split(b, q, eb, rb + seq![0u8]);
        lemma_entry_read_back(e, b, q);
        let q2 = q + eb.len();
        lemma_entry_len(e);
        lemma_fields_read_back(rest, b, q2, acc.push(e));
        assert(acc.push(e) + rest =~= acc + fs);
    }
}

/// The bytes of a non-empty field list are those of its first field, then the rest.
proof fn lemma_fields_front(fs: Seq<(FieldView, Option<ColumnView>)>)
    requires
        fs.len() > 0,
    ensures
        fields_bytes(fs) == entry_bytes(fs[0]) + fields_bytes(fs.subrange(1, fs.len() as int)),
{
    let one = seq![fs[0]];
    let rest = fs.subrange(1, fs.len() as int);
    assert(one + rest =~= fs);
    lemma_fields_bytes_concat(one, rest);
    assert(one.subrange(0, 0) =~= Seq::<(FieldView, Option<ColumnView>)>::empty());
    assert(fields_bytes(one.subrange(0, 0)) =~= Seq::<u8>::empty());
    assert(fields_bytes(one) =~= entry_bytes(fs[0]));
}

/// An encodable list has an encodable first field and an encodable rest.
proof fn lemma_encodable_front(fs: Seq<(FieldView, Option<ColumnView>)>)
    requires
        fs.len() > 0,
        encodable_fields(fs),
    ensures
        encodable_entry(fs[0]),
        encodable_fields(fs.subrange(1, fs.len() as int)),
    decreases fs.len(),
{
    if fs.len() == 1 {
        assert(fs.subrange(1, 1) =~= Seq::<(FieldView, Option<ColumnView>)>::empty());
    } else {
        let init = fs.subrange(0, fs.len() - 1);
        lemma_encodable_front(init);
        let rest = fs.subrange(1, fs.len() as int);
        assert(rest.subrange(0, rest.len() - 1) =~= init.subrange(1, init.len() as int));
        assert(rest[rest.len() - 1] == fs[fs.len() - 1]);
        assert(init[0] == fs[0]);
    }
}

/// A field takes at least two bytes: its first header byte and its id.
proof fn lemma_entry_len(e: (FieldView, Option<ColumnView>))
    ensures
        entry_bytes(e).len() >= 2,
{
    lemma_varint_len(id_word(e.0), 1);
}

/// Reading one encodable field back.
proof fn lemma_entry_read_back(e: (FieldView, Option<ColumnView>), b: Seq<u8>, q: int)
    requires
        encodable_entry(e),
        0 <= q,
        q + entry_bytes(e).len() <= b.len(),
        b.subrange(q, q + entry_bytes(e).len()) == entry_bytes(e),
    ensures
        field_at(b, q, true) == Ok::<(Option<(FieldView, Option<ColumnView>)>, int), Error>(
            (Some(e), q + entry_bytes(e).len()),
        ),
    decreases e,
{
    let f = e.0;
    let c = e.1->Some_0;
    let id = f.field_id->Some_0;
    let v = c.cells[0]->Some_0;
    let dtc = data_type_code(f.data_type);
    let wtc = wire_type_code(f.wire_type);
    let hdr = (dtc * 8 + wtc * 2) as u8;
    lemma_header_bits(dtc, wtc);
    lemma_id_bits(id);
    let word = ((id * 2) as u32);
    assert(id_word(f) == word as nat) by {
        vstd::arithmetic::div_mod::lemma_small_mod((id * 2) as nat, 0x1_0000_0000);
    }
    let wb = varint_bytes(word as nat);
    let cb = column_bytes(c);
    assert(entry_bytes(e) == header_bytes(f) + cb);
    assert(header_bytes(f) == seq![hdr] + wb);
    assert(entry_bytes(e) == seq![hdr] + (wb + cb));
    lemma_split(b, q, seq![hdr], wb + cb);
    lemma_split(b, q + 1, wb, cb);
    assert(b[q] == hdr) by {
        assert(b.subrange(q, q + 1)[0] == b[q]);
    }
    lemma_u32_read_back(b, q + 1, word);
    let p2 = q + 1 + wb.len();
    assert(header_at(b, q, true) == Ok::<(Option<FieldView>, int), Error>((Some(f), p2)));
    assert(cb == cells_bytes(c.kind, c.cells) || cb == pack_from(c.cells, 0, Seq::empty(), 0, 0));
    lemma_column_read_back(f, c, b, p2);
}

/// Reading the one value of an encodable field back.
proof fn lemma_column_read_back(f: FieldView, c: ColumnView, b: Seq<u8>, p: int)
    requires
        encodable_entry((f, Some(c))),
        0 <= p,
        p + column_bytes(c).len() <= b.len(),
        b.subrange(p, p + column_bytes(c).len()) == column_bytes(c),
    ensures
        column_at(b, p, f) == Ok::<(ColumnView, int), Error>((c, p + column_bytes(c).len())),
    decreases c,
{
    let v = c.cells[0]->Some_0;
    assert(c.cells.subrange(0, 0) =~= Seq::<Option<ValueView>>::empty());
    if c.kind == ColumnKind::Bool {
        let x = v->Bool_0;
        let byte: u8 = if x { 0x80u8 } else { 0u8 };
        assert(pack_from(c.cells, 1, Seq::empty(), 1, byte) == seq![byte]);
        assert(column_bytes(c) == seq![byte]) by {
            assert(bit_value(0) == 0x80u8);
            assert((0u8 + 0x80u8) as u8 == 0x80u8);
        }
        assert(b[p] == byte) by {
            assert(b.subrange(p, p + 1)[0] == b[p]);
        }
        assert(bit_of(byte, 0) == x) by {
            assert((0x80u8 >> 7u8) & 1u8 == 1u8 && (0u8 >> 7u8) & 1u8 == 0u8) by (bit_vector);
        }
        let cells1 = Seq::<Option<ValueView>>::empty().push(Some(ValueView::Bool(x)));
        assert(!is_null(f, 0));
        assert(bools_from(b, p + 1, f, 1, byte, 1, cells1) == Ok::<(Seq<Option<ValueView>>, int), Error>((cells1, p + 1)));
        assert(cells1 =~= c.cells);
    } else {
        let vb = value_bytes(c.kind, v);
        assert(cells_bytes(c.kind, c.cells) == cells_bytes(c.kind, c.cells.subrange(0, 0)) + vb);
        assert(cells_bytes(c.kind, c.cells.subrange(0, 0)) =~= Seq::<u8>::empty());
        assert(column_bytes(c) =~= vb);
        lemma_value_read_back(f, c.kind, v, b, p);
        let cells1 = Seq::<Option<ValueView>>::empty().push(Some(v));
        assert(!is_null(f, 0));
        assert(cells_from(b, p + vb.len(), f, 1, cells1) == Ok::<(Seq<Option<ValueView>>, int), Error>((cells1, p + vb.len())));
        assert(cells1 =~= c.cells);
    }
}

/// Reading one encodable value back.
proof fn lemma_value_read_back(f: FieldView, kind: ColumnKind, v: ValueView, b: Seq<u8>, p: int)
    requires
        pushed_shape(f.data_type, f.wire_type, kind),
        kind != ColumnKind::Bool,
        encodable_value(kind, v),
        0 <= p,
        p + value_bytes(kind, v).len() <= b.len(),
        b.subrange(p, p + value_bytes(kind, v).len()) == value_bytes(kind, v),
    ensures
        cell_at(b, p, f) == Ok::<(ValueView, int), Error>((v, p + value_bytes(kind, v).len())),
    decreases v,
{
    match v {
        ValueView::Str(s) => {
            let u = encode_utf8(s);
            let lb = varint_bytes(u.len() + 1);
            assert(value_bytes(kind, v) == string_bytes(ColumnKind::StringW, s));
            assert(value_bytes(kind, v) == lb + (seq![0u8] + u));
            lemma_split(b, p, lb, seq![0u8] + u);
            lemma_split(b, p + lb.len(), seq![0u8], u);
            lemma_u32_read_back(b, p, (u.len() + 1) as u32);
            let p1 = p + lb.len();
            assert(b[p1] == 0u8) by {
                assert(b.subrange(p1, p1 + 1)[0] == b[p1]);
            }
            encode_utf8_valid_utf8(s);
            encode_utf8_decode_utf8(s);
            assert(utf8_text(u) == s);
        },
        ValueView::U32(x) => {
            assert(value_bytes(kind, v) == varint_bytes(x as nat));
            lemma_u32_read_back(b, p, x);
        },
        ValueView::Sdo(s) => {
            assert(value_bytes(kind, v) == sdo_bytes(s));
            lemma_sdo_read_back(s, b, p);
        },
        _ => {},
    }
}

/// Decoding what `SDO::encode` writes for an SDO built by the push methods, with one
/// present value in each field, gives that SDO back.
pub proof fn lemma_decode_encode(s: SdoView)
    requires
        encodable_sdo(s),
    ensures
        sdo_at(sdo_bytes(s), 0) == Ok::<(SdoView, int), Error>((s, sdo_bytes(s).len() as int)),
{
    assert(sdo_bytes(s).subrange(0, sdo_bytes(s).len() as int) =~= sdo_bytes(s));
    lemma_sdo_read_back(s, sdo_bytes(s), 0);
}

/// The topic travels as its code plus one: wire value 0 is the undefined topic, and a
/// topic with code `k >= -1` is written as `k + 1`.
pub proof fn lemma_topic_zero_bias(t: Topic)
    ensures
        Topic::spec_from_code(topic_code_of_wire(0)) == Topic::UndefinedTopic,
        t.spec_code() >= -1 ==> topic_wire(t.spec_code()) == t.spec_code() + 1,
        topic_code_of_wire(topic_wire(t.spec_code())) == t.spec_code(),
{
}

} // verus!
