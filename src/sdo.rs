use vstd::prelude::*;

use crate::data::{
    AsciiString, ColumnKind, ColumnView, Data, DataType, Field, FieldView, SDO, SdoView,
    ValueView, WireType,
};
use crate::access::{first_bool, first_str, first_u32};
use crate::fields::{
    HAS_MORE_DATA, IS_TEST_DATA, IS_WATCH_UPDATES, MESSAGE_SOURCE, PACKET_FLAG, REQUEST_ID,
    TARGET_ID, TARGET_NAME, WATCH_KEY_INDEX, WATCH_REQUEST_ID, WATCH_TOPIC,
};
use crate::flags::PacketFlags;
use crate::topic::Topic;

verus! {

/// The request id of an address that reaches every client's update stream.
pub const BROADCAST_UPDATE_ADDRESS: &'static str = "-1";

/// The request id of an address that reaches every client.
pub const BROADCAST_ADDRESS: &'static str = "-2";

/// One value, or a list of optional values: what the push methods take.
pub trait OneOrMany<T>: Sized {
    /// The rows that the value stands for.
    spec fn spec_rows(&self) -> Seq<Option<T>>;

    fn to_vec(self) -> (r: Vec<Option<T>>)
        ensures
            r@ == self.spec_rows(),
    ;
}

impl<T> OneOrMany<T> for Option<T> {
    open spec fn spec_rows(&self) -> Seq<Option<T>> {
        seq![*self]
    }

    fn to_vec(self) -> (r: Vec<Option<T>>) {
        let mut v: Vec<Option<T>> = Vec::new();
        v.push(self);
        assert(v@ =~= seq![self]);
        v
    }
}

impl<T> OneOrMany<T> for Vec<Option<T>> {
    open spec fn spec_rows(&self) -> Seq<Option<T>> {
        self@
    }

    fn to_vec(self) -> (r: Vec<Option<T>>) {
        self
    }
}

/// The field that a push method appends: no null flags or extra info, a single row
/// exactly when one value is pushed.
pub open spec fn pushed_entry(
    dt: DataType,
    wt: WireType,
    id: u32,
    kind: ColumnKind,
    cells: Seq<Option<ValueView>>,
) -> (FieldView, Option<ColumnView>) {
    (
        FieldView {
            data_type: dt,
            extra_info: None,
            field_id: Some(id),
            null_flags: None,
            rows: cells.len() as u32,
            single_row: cells.len() == 1,
            wire_type: wt,
        },
        Some(ColumnView { kind, cells }),
    )
}

/// An optional 8-bit string holds the same characters as an optional string.
pub open spec fn same_text(a: Option<AsciiString>, s: Option<String>) -> bool {
    match (a, s) {
        (Some(x), Some(y)) => x@ == y@,
        (None, None) => true,
        _ => false,
    }
}

impl SDO {
    /// An SDO of the given topic with no fields.
    pub fn new(topic: Topic) -> (r: SDO)
        ensures
            r@ == (SdoView { topic, fields: Seq::empty() }),
    {
        let r = SDO { topic, fields: Vec::new() };
        assert(r@.fields =~= Seq::<(FieldView, Option<ColumnView>)>::empty());
        r
    }
}

/// The cells of rows pushed with `push_short`.
pub open spec fn cells_short(rows: Seq<Option<u32>>) -> Seq<Option<ValueView>> {
    Seq::new(
        rows.len(),
        |i: int|
            match rows[i] {
                Some(x) => Some(ValueView::U32(x)),
                None => None,
            },
    )
}

/// The cells of rows pushed with `push_sdo`.
pub open spec fn cells_sdo(rows: Seq<Option<SDO>>) -> Seq<Option<ValueView>> {
    Seq::new(
        rows.len(),
        |i: int|
            match rows[i] {
                Some(x) => Some(ValueView::Sdo(x@)),
                None => None,
            },
    )
}

/// The cells of rows pushed with `push_string`.
pub open spec fn cells_string(rows: Seq<Option<String>>) -> Seq<Option<ValueView>> {
    Seq::new(
        rows.len(),
        |i: int|
            match rows[i] {
                Some(x) => Some(ValueView::Str(x@)),
                None => None,
            },
    )
}

/// The cells of rows pushed with `push_string_w`.
pub open spec fn cells_string_w(rows: Seq<Option<String>>) -> Seq<Option<ValueView>> {
    Seq::new(
        rows.len(),
        |i: int|
            match rows[i] {
                Some(x) => Some(ValueView::Str(x@)),
                None => None,
            },
    )
}

/// The cells of rows pushed with `push_long`.
pub open spec fn cells_long(rows: Seq<Option<u32>>) -> Seq<Option<ValueView>> {
    Seq::new(
        rows.len(),
        |i: int|
            match rows[i] {
                Some(x) => Some(ValueView::U32(x)),
                None => None,
            },
    )
}

/// The cells of rows pushed with `push_bool`.
pub open spec fn cells_bool(rows: Seq<Option<bool>>) -> Seq<Option<ValueView>> {
    Seq::new(
        rows.len(),
        |i: int|
            match rows[i] {
                Some(x) => Some(ValueView::Bool(x)),
                None => None,
            },
    )
}

impl SDO {
    /// Appends a field of id `field_id` holding `data`, one row per value.
    pub fn push_short<T: OneOrMany<u32>>(&mut self, field_id: u32, data: T)
        ensures
            final(self)@ == (SdoView {
                topic: old(self)@.topic,
                fields: old(self)@.fields.push(
                    pushed_entry(
                        DataType::Short,
                        WireType::Varint,
                        field_id,
                        ColumnKind::Short,
                        cells_short(data.spec_rows()),
                    ),
                ),
            }),
    {
        let ghost before = self@;
        let v = data.to_vec();
        let n = v.len();
        let ghost rows = v@;
        let d = Data::Short(v);
        assert(d@.cells =~= cells_short(rows));
        let f = Field {
            data_type: DataType::Short,
            extra_info: None,
            field_id: Some(field_id),
            null_flags: None,
            rows: n as u32,
            single_row: n == 1,
            wire_type: WireType::Varint,
        };
        self.fields.push((f, Some(d)));
        assert(self@.fields =~= before.fields.push(
            pushed_entry(
                DataType::Short,
                WireType::Varint,
                field_id,
                ColumnKind::Short,
                cells_short(rows),
            ),
        ));
    }

    /// Appends a field of id `field_id` holding `data`, one row per value.
    pub fn push_sdo<T: OneOrMany<SDO>>(&mut self, field_id: u32, data: T)
        ensures
            final(self)@ == (SdoView {
                topic: old(self)@.topic,
                fields: old(self)@.fields.push(
                    pushed_entry(
                        DataType::SDO,
                        WireType::EmbeddedSDO,
                        field_id,
                        ColumnKind::Sdo,
                        cells_sdo(data.spec_rows()),
                    ),
                ),
            }),
    {
        let ghost before = self@;
        let v = data.to_vec();
        let n = v.len();
        let ghost rows = v@;
        let d = Data::SDO(v);
        assert(d@.cells =~= cells_sdo(rows));
        let f = Field {
            data_type: DataType::SDO,
            extra_info: None,
            field_id: Some(field_id),
            null_flags: None,
            rows: n as u32,
            single_row: n == 1,
            wire_type: WireType::EmbeddedSDO,
        };
        self.fields.push((f, Some(d)));
        assert(self@.fields =~= before.fields.push(
            pushed_entry(
                DataType::SDO,
                WireType::EmbeddedSDO,
                field_id,
                ColumnKind::Sdo,
                cells_sdo(rows),
            ),
        ));
    }

    /// Appends a field of id `field_id` holding `data`, one row per value.
    pub fn push_string<T: OneOrMany<String>>(&mut self, field_id: u32, data: T)
        ensures
            final(self)@ == (SdoView {
                topic: old(self)@.topic,
                fields: old(self)@.fields.push(
                    pushed_entry(
                        DataType::String,
                        WireType::LengthDelimited,
                        field_id,
                        ColumnKind::AsciiString,
                        cells_string(data.spec_rows()),
                    ),
                ),
            }),
    {
        let ghost before = self@;
        let src = data.to_vec();
        let n = src.len();
        let ghost rows = src@;
        let mut v: Vec<Option<AsciiString>> = Vec::new();
        let mut i: usize = 0;
        while i < n
            invariant
                n == src@.len(),
                i <= n,
                v@.len() == i,
                forall|k: int| 0 <= k < i ==> same_text(#[trigger] v@[k], src@[k]),
            decreases n - i,
        {
            match &src[i] {
                Some(s) => v.push(Some(AsciiString(s.clone()))),
                None => v.push(None),
            }
            i = i + 1;
        }
        let d = Data::AsciiString(v);
        assert(d@.cells =~= cells_string(rows));
        let f = Field {
            data_type: DataType::String,
            extra_info: None,
            field_id: Some(field_id),
            null_flags: None,
            rows: n as u32,
            single_row: n == 1,
            wire_type: WireType::LengthDelimited,
        };
        self.fields.push((f, Some(d)));
        assert(self@.fields =~= before.fields.push(
            pushed_entry(
                DataType::String,
                WireType::LengthDelimited,
                field_id,
                ColumnKind::AsciiString,
                cells_string(rows),
            ),
        ));
    }

    /// Appends a field of id `field_id` holding `data`, one row per value.
    pub fn push_string_w<T: OneOrMany<String>>(&mut self, field_id: u32, data: T)
        ensures
            final(self)@ == (SdoView {
                topic: old(self)@.topic,
                fields: old(self)@.fields.push(
                    pushed_entry(
                        DataType::StringW,
                        WireType::LengthDelimited,
                        field_id,
                        ColumnKind::StringW,
                        cells_string_w(data.spec_rows()),
                    ),
                ),
            }),
    {
        let ghost before = self@;
        let v = data.to_vec();
        let n = v.len();
        let ghost rows = v@;
        let d = Data::StringW(v);
        assert(d@.cells =~= cells_string_w(rows));
        let f = Field {
            data_type: DataType::StringW,
            extra_info: None,
            field_id: Some(field_id),
            null_flags: None,
            rows: n as u32,
            single_row: n == 1,
            wire_type: WireType::LengthDelimited,
        };
        self.fields.push((f, Some(d)));
        assert(self@.fields =~= before.fields.push(
            pushed_entry(
                DataType::StringW,
                WireType::LengthDelimited,
                field_id,
                ColumnKind::StringW,
                cells_string_w(rows),
            ),
        ));
    }

    /// Appends a field of id `field_id` holding `data`, one row per value.
    pub fn push_long<T: OneOrMany<u32>>(&mut self, field_id: u32, data: T)
        ensures
            final(self)@ == (SdoView {
                topic: old(self)@.topic,
                fields: old(self)@.fields.push(
                    pushed_entry(
                        DataType::Long,
                        WireType::Varint,
                        field_id,
                        ColumnKind::Long,
                        cells_long(data.spec_rows()),
                    ),
                ),
            }),
    {
        let ghost before = self@;
        let v = data.to_vec();
        let n = v.len();
        let ghost rows = v@;
        let d = Data::Long(v);
        assert(d@.cells =~= cells_long(rows));
        let f = Field {
            data_type: DataType::Long,
            extra_info: None,
            field_id: Some(field_id),
            null_flags: None,
            rows: n as u32,
            single_row: n == 1,
            wire_type: WireType::Varint,
        };
        self.fields.push((f, Some(d)));
        assert(self@.fields =~= before.fields.push(
            pushed_entry(
                DataType::Long,
                WireType::Varint,
                field_id,
                ColumnKind::Long,
                cells_long(rows),
            ),
        ));
    }

    /// Appends a field of id `field_id` holding `data`, one row per value.
    pub fn push_bool<T: OneOrMany<bool>>(&mut self, field_id: u32, data: T)
        ensures
            final(self)@ == (SdoView {
                topic: old(self)@.topic,
                fields: old(self)@.fields.push(
                    pushed_entry(
                        DataType::Boolean,
                        WireType::Varint,
                        field_id,
                        ColumnKind::Bool,
                        cells_bool(data.spec_rows()),
                    ),
                ),
            }),
    {
        let ghost before = self@;
        let v = data.to_vec();
        let n = v.len();
        let ghost rows = v@;
        let d = Data::Bool(v);
        assert(d@.cells =~= cells_bool(rows));
        let f = Field {
            data_type: DataType::Boolean,
            extra_info: None,
            field_id: Some(field_id),
            null_flags: None,
            rows: n as u32,
            single_row: n == 1,
            wire_type: WireType::Varint,
        };
        self.fields.push((f, Some(d)));
        assert(self@.fields =~= before.fields.push(
            pushed_entry(
                DataType::Boolean,
                WireType::Varint,
                field_id,
                ColumnKind::Bool,
                cells_bool(rows),
            ),
        ));
    }

}

/// The values of the first field with id `id` from entry `i` on; `None` when there
/// is no such field or it holds no values.
pub open spec fn field_data(fs: Seq<(FieldView, Option<ColumnView>)>, id: u32, i: int) -> Option<ColumnView>
    decreases fs.len() - i,
{
    if i < 0 || i >= fs.len() {
        None
    } else if fs[i].0.field_id == Some(id) {
        fs[i].1
    } else {
        field_data(fs, id, i + 1)
    }
}

/// The entries whose field id is not `id`, in order.
pub open spec fn without_id(fs: Seq<(FieldView, Option<ColumnView>)>, id: u32) -> Seq<(FieldView, Option<ColumnView>)>
    decreases fs.len(),
{
    if fs.len() == 0 {
        Seq::empty()
    } else {
        let rest = without_id(fs.drop_last(), id);
        if fs.last().0.field_id == Some(id) {
            rest
        } else {
            rest.push(fs.last())
        }
    }
}

/// The first present string of the field with id `id`.
pub open spec fn str_field(s: SdoView, id: u32) -> Option<Seq<char>> {
    match field_data(s.fields, id, 0) {
        Some(c) => first_str(c),
        None => None,
    }
}

/// The first present boolean of the field with id `id`.
pub open spec fn bool_field(s: SdoView, id: u32) -> Option<bool> {
    match field_data(s.fields, id, 0) {
        Some(c) => first_bool(c),
        None => None,
    }
}

/// The first row of the long or short field with id `id`.
pub open spec fn u32_field(s: SdoView, id: u32) -> Option<u32> {
    match field_data(s.fields, id, 0) {
        Some(c) => first_u32(c),
        None => None,
    }
}

pub open spec fn opt_str_view(s: Option<&str>) -> Option<Seq<char>> {
    match s {
        Some(x) => Some(x@),
        None => None,
    }
}

/// The packet flags that a payload carries.
pub open spec fn packet_flag_of(s: SdoView) -> Option<PacketFlags> {
    match u32_field(s, PACKET_FLAG) {
        Some(b) => if b & !3u32 == 0 {
            Some(PacketFlags { bits: b })
        } else {
            None
        },
        None => None,
    }
}

impl SDO {
    /// The values of the first field with id `id`.
    pub fn get_field(&self, id: u32) -> (r: Option<&Data>)
        ensures
            match r {
                Some(d) => field_data(self@.fields, id, 0) == Some(d@),
                None => field_data(self@.fields, id, 0) is None,
            },
    {
        let mut i: usize = 0;
        while i < self.fields.len()
            invariant
                i <= self.fields@.len(),
                field_data(self@.fields, id, 0) == field_data(self@.fields, id, i as int),
            decreases self.fields@.len() - i,
        {
            if self.fields[i].0.field_id == Some(id) {
                return match &self.fields[i].1 {
                    Some(d) => Some(d),
                    None => None,
                };
            }
            i = i + 1;
        }
        None
    }

    /// Removes every field with id `id`; the others keep their order.
    pub fn remove_field(&mut self, id: u32)
        ensures
            final(self)@.topic == old(self)@.topic,
            final(self)@.fields == without_id(old(self)@.fields, id),
    {
        let ghost all = self@.fields;
        let ghost t0 = self.topic;
        let mut rest: Vec<(Field, Option<Data>)> = Vec::new();
        while self.fields.len() > 0
            invariant
                self.topic == t0,
                without_id(all, id) == without_id(self@.fields, id) + (SDO { topic: self.topic, fields: rest })@.fields,
            decreases self.fields@.len(),
        {
            let ghost before = self@.fields;
            let ghost kept = (SDO { topic: self.topic, fields: rest })@.fields;
            let e = self.fields.pop().unwrap();
            assert(before.drop_last() =~= self@.fields);
            if e.0.field_id != Some(id) {
                rest.insert(0, e);
                assert((SDO { topic: self.topic, fields: rest })@.fields =~= seq![before.last()] + kept);
                assert(without_id(before, id) =~= without_id(self@.fields, id).push(before.last()));
            }
        }
        assert(without_id(self@.fields, id) =~= Seq::<(FieldView, Option<ColumnView>)>::empty());
        self.fields = rest;
        assert(self@.fields =~= without_id(all, id));
    }

    /// An address SDO that sends to every client.
    pub fn new_with_broadcast_address() -> (r: SDO)
        ensures
            r@ == (SdoView {
                topic: Topic::UndefinedTopic,
                fields: seq![
                    pushed_entry(
                        DataType::StringW,
                        WireType::LengthDelimited,
                        REQUEST_ID,
                        ColumnKind::StringW,
                        seq![Some(ValueView::Str(BROADCAST_ADDRESS@))],
                    ),
                ],
            }),
    {
        let mut sdo = SDO::new(Topic::UndefinedTopic);
        let a = BROADCAST_ADDRESS.to_owned();
        sdo.push_string_w(REQUEST_ID, Some(a));
        assert(cells_string_w(seq![Some(a)]) =~= seq![Some(ValueView::Str(BROADCAST_ADDRESS@))]);
        assert(sdo@.fields =~= seq![
            pushed_entry(
                DataType::StringW,
                WireType::LengthDelimited,
                REQUEST_ID,
                ColumnKind::StringW,
                seq![Some(ValueView::Str(BROADCAST_ADDRESS@))],
            ),
        ]);
        sdo
    }

    /// An address SDO that sends updates to every client.
    pub fn new_with_broadcast_update_address() -> (r: SDO)
        ensures
            r@ == (SdoView {
                topic: Topic::UndefinedTopic,
                fields: seq![
                    pushed_entry(
                        DataType::StringW,
                        WireType::LengthDelimited,
                        REQUEST_ID,
                        ColumnKind::StringW,
                        seq![Some(ValueView::Str(BROADCAST_UPDATE_ADDRESS@))],
                    ),
                ],
            }),
    {
        let mut sdo = SDO::new(Topic::UndefinedTopic);
        let a = BROADCAST_UPDATE_ADDRESS.to_owned();
        sdo.push_string_w(REQUEST_ID, Some(a));
        assert(cells_string_w(seq![Some(a)]) =~= seq![Some(ValueView::Str(BROADCAST_UPDATE_ADDRESS@))]);
        assert(sdo@.fields =~= seq![
            pushed_entry(
                DataType::StringW,
                WireType::LengthDelimited,
                REQUEST_ID,
                ColumnKind::StringW,
                seq![Some(ValueView::Str(BROADCAST_UPDATE_ADDRESS@))],
            ),
        ]);
        sdo
    }

    /// The payload's packet flags; `None` when the field is missing or holds unknown bits.
    pub fn packet_flag(&self) -> (r: Option<PacketFlags>)
        ensures
            r == packet_flag_of(self@),
    {
        match self.get_field(PACKET_FLAG) {
            Some(d) => match d.as_first_u32() {
                Some(b) => PacketFlags::from_bits(b),
                None => None,
            },
            None => None,
        }
    }

    /// Whether the payload says that more data follows (its flag is 1).
    pub fn has_more_data(&self) -> (r: bool)
        ensures
            r == (u32_field(self@, HAS_MORE_DATA) == Some(1u32)),
    {
        match self.get_field(HAS_MORE_DATA) {
            Some(d) => d.as_first_u32() == Some(1u32),
            None => false,
        }
    }

    /// Whether this is the last packet: no packet flags, or the `LAST` flag set.
    pub fn is_last_packet(&self) -> (r: bool)
        ensures
            r == match packet_flag_of(self@) {
                None => true,
                Some(f) => f.bits & PacketFlags::LAST == PacketFlags::LAST,
            },
    {
        match self.packet_flag() {
            None => true,
            Some(f) => f.contains(PacketFlags::LAST),
        }
    }

    /// Whether this is the first packet: no packet flags, or the `FIRST` flag set.
    pub fn is_first_packet(&self) -> (r: bool)
        ensures
            r == match packet_flag_of(self@) {
                None => true,
                Some(f) => f.bits & PacketFlags::FIRST == PacketFlags::FIRST,
            },
    {
        match self.packet_flag() {
            None => true,
            Some(f) => f.contains(PacketFlags::FIRST),
        }
    }

    /// Whether this SDO carries watch updates; false when the field is missing.
    pub fn is_watch_updates(&self) -> (r: bool)
        ensures
            r == (bool_field(self@, IS_WATCH_UPDATES) == Some(true)),
    {
        match self.get_field(IS_WATCH_UPDATES) {
            Some(d) => match d.as_first_bool() {
                Some(b) => b,
                None => false,
            },
            None => false,
        }
    }

    /// Address SDO: the request id.
    pub fn request_id(&self) -> (r: Option<&str>)
        ensures
            opt_str_view(r) == str_field(self@, REQUEST_ID),
    {
        match self.get_field(REQUEST_ID) {
            Some(d) => d.as_first_str(),
            None => None,
        }
    }

    /// Control SDO: the target id.
    pub fn target_id(&self) -> (r: Option<&str>)
        ensures
            opt_str_view(r) == str_field(self@, TARGET_ID),
    {
        match self.get_field(TARGET_ID) {
            Some(d) => d.as_first_str(),
            None => None,
        }
    }

    /// Control SDO: the target name.
    pub fn target_name(&self) -> (r: Option<&str>)
        ensures
            opt_str_view(r) == str_field(self@, TARGET_NAME),
    {
        match self.get_field(TARGET_NAME) {
            Some(d) => d.as_first_str(),
            None => None,
        }
    }

    /// Control SDO: whether it carries test data.
    pub fn is_test_data(&self) -> (r: Option<bool>)
        ensures
            r == bool_field(self@, IS_TEST_DATA),
    {
        match self.get_field(IS_TEST_DATA) {
            Some(d) => d.as_first_bool(),
            None => None,
        }
    }

    /// Payload SDO: the message source.
    pub fn message_source(&self) -> (r: Option<&str>)
        ensures
            opt_str_view(r) == str_field(self@, MESSAGE_SOURCE),
    {
        match self.get_field(MESSAGE_SOURCE) {
            Some(d) => d.as_first_str(),
            None => None,
        }
    }

    /// Payload SDO: the watch topic.
    pub fn watch_topic(&self) -> (r: Option<u32>)
        ensures
            r == u32_field(self@, WATCH_TOPIC),
    {
        match self.get_field(WATCH_TOPIC) {
            Some(d) => d.as_first_u32(),
            None => None,
        }
    }

    /// The watch key index.
    pub fn watch_key_index(&self) -> (r: Option<u32>)
        ensures
            r == u32_field(self@, WATCH_KEY_INDEX),
    {
        match self.get_field(WATCH_KEY_INDEX) {
            Some(d) => d.as_first_u32(),
            None => None,
        }
    }

    /// The watch request id.
    pub fn watch_request_id(&self) -> (r: Option<&str>)
        ensures
            opt_str_view(r) == str_field(self@, WATCH_REQUEST_ID),
    {
        match self.get_field(WATCH_REQUEST_ID) {
            Some(d) => d.as_first_str(),
            None => None,
        }
    }

}

} // verus!
