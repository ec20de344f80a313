use vstd::prelude::*;

use crate::data::{
    ColumnKind, ColumnView, Data, DataType, FieldView, Message, SDO, SdoView, ValueView, WireType,
};
use crate::decode::{Error, read_sdo, sdo_at};
use crate::encode::{
    Error as EncodeError, fields_view_of, lemma_fields_bytes_concat, sdo_bytes, topic_wire_of,
    write_fields,
};
use crate::fields::{HEADER_ID, PAGE_SIZE, TIMEOUT};
use crate::sdo::{cells_string_w, pushed_entry};
use crate::topic::Topic;
use crate::varint::write_varint_u32;

verus! {

pub open spec fn digit_char(d: nat) -> char {
    if d == 0 {
        '0'
    } else if d == 1 {
        '1'
    } else if d == 2 {
        '2'
    } else if d == 3 {
        '3'
    } else if d == 4 {
        '4'
    } else if d == 5 {
        '5'
    } else if d == 6 {
        '6'
    } else if d == 7 {
        '7'
    } else if d == 8 {
        '8'
    } else {
        '9'
    }
}

/// The decimal digits of `x`, most significant first, with no leading zero.
pub open spec fn decimal(x: nat) -> Seq<char>
    decreases x,
{
    if x < 10 {
        seq![digit_char(x)]
    } else {
        decimal(x / 10).push(digit_char(x % 10))
    }
}

/// Relies on `u32`'s `Display` through `to_string`: its decimal digits, with no sign
/// and no leading zero.
#[verifier::external_body]
fn decimal_string(x: u32) -> (r: String)
    ensures
        r@ == decimal(x as nat),
{
    x.to_string()
}

/// A wide-string field of one row, as a push method makes it.
pub open spec fn string_w_entry(id: u32, row: Option<Seq<char>>) -> (FieldView, Option<ColumnView>) {
    pushed_entry(
        DataType::StringW,
        WireType::LengthDelimited,
        id,
        ColumnKind::StringW,
        seq![
            match row {
                Some(s) => Some(ValueView::Str(s)),
                None => None,
            },
        ],
    )
}

pub open spec fn opt_string_view(s: Option<String>) -> Option<Seq<char>> {
    match s {
        Some(x) => Some(x@),
        None => None,
    }
}

/// The header SDO of a message: undefined topic, one wide-string field with the id.
pub open spec fn header_view(id: Option<Seq<char>>) -> SdoView {
    SdoView { topic: Topic::UndefinedTopic, fields: seq![string_w_entry(HEADER_ID, id)] }
}

/// The fields that a message appends to its payload: the timeout, if set, and the
/// page size (1000 when not set).
pub open spec fn extra_fields(timeout: Option<Seq<char>>, page_size: Option<u32>) -> Seq<
    (FieldView, Option<ColumnView>),
> {
    let t = match timeout {
        Some(s) => seq![string_w_entry(TIMEOUT, Some(s))],
        None => Seq::empty(),
    };
    let n: u32 = match page_size {
        Some(n) => n,
        None => 1000,
    };
    t.push(string_w_entry(PAGE_SIZE, Some(decimal(n as nat))))
}

/// The payload SDO of a message.
pub open spec fn payload_view(m: &Message) -> SdoView {
    SdoView {
        topic: m.sdo.topic,
        fields: m.sdo@.fields + extra_fields(opt_string_view(m.timeout), m.page_size),
    }
}

/// The id that a message header carries: for a header of the undefined topic, the
/// first row of its first field, when that field holds strings or shorts (a short
/// is written in decimal); no id for a header of another topic or without fields.
pub open spec fn header_id_of(h: SdoView) -> Result<Option<Seq<char>>, Error> {
    if h.topic == Topic::UndefinedTopic && h.fields.len() > 0 {
        match h.fields[0].1 {
            Some(c) => if c.kind == ColumnKind::StringW || c.kind == ColumnKind::AsciiString {
                if c.cells.len() > 0 {
                    match c.cells[0] {
                        Some(ValueView::Str(s)) => Ok(Some(s)),
                        _ => Ok(None),
                    }
                } else {
                    Ok(None)
                }
            } else if c.kind == ColumnKind::Short {
                if c.cells.len() > 0 {
                    match c.cells[0] {
                        Some(ValueView::U32(x)) => Ok(Some(decimal(x as nat))),
                        _ => Ok(None),
                    }
                } else {
                    Ok(None)
                }
            } else {
                Err(Error::InvalidHeaderId)
            },
            None => Err(Error::InvalidHeaderId),
        }
    } else {
        Ok(None)
    }
}

impl Message {
    /// A message for a payload of the given topic, with the given request id.
    pub fn new_with_id(topic: Topic, id: Option<String>) -> (r: Message)
        ensures
            r.id == id,
            r.sdo@ == (SdoView { topic, fields: Seq::empty() }),
            r.timeout is None,
            r.page_size is None,
    {
        Message { id, sdo: SDO::new(topic), timeout: None, page_size: None }
    }

    /// Encodes the header SDO, then the payload with its timeout and page-size fields.
    pub fn encode(&self) -> (r: Result<Vec<u8>, EncodeError>)
        ensures
            r matches Ok(b) && b@ == sdo_bytes(header_view(opt_string_view(self.id))) + sdo_bytes(
                payload_view(self),
            ),
    {
        let mut header = SDO::new(Topic::UndefinedTopic);
        let id: Option<String> = match &self.id {
            Some(s) => Some(s.clone()),
            None => None,
        };
        let ghost idv = opt_string_view(id);
        let mut rows: Vec<Option<String>> = Vec::new();
        rows.push(id);
        header.push_string_w(HEADER_ID, rows);
        assert(cells_string_w(rows@) =~= seq![
            match idv {
                Some(s) => Some(ValueView::Str(s)),
                None => None,
            },
        ]);
        assert(header@ =~= header_view(opt_string_view(self.id)));
        let mut out = match header.encode() {
            Ok(b) => b,
            Err(e) => return Err(e),
        };
        let ghost first = out@;
        let extra = self.extra_sdo();
        out.push(0x17);
        write_varint_u32(&mut out, topic_wire_of(self.sdo.topic.code()));
        write_fields(&self.sdo.fields, &mut out);
        write_fields(&extra.fields, &mut out);
        out.push(0);
        proof {
            assert(self.sdo@.fields =~= fields_view_of(self.sdo.fields@));
            assert(extra@.fields =~= fields_view_of(extra.fields@));
            lemma_fields_bytes_concat(self.sdo@.fields, extra@.fields);
        }
        assert(out@ =~= first + sdo_bytes(payload_view(self)));
        Ok(out)
    }

    /// The fields that encoding appends to the payload, in an SDO of their own.
    fn extra_sdo(&self) -> (r: SDO)
        ensures
            r@.fields == extra_fields(opt_string_view(self.timeout), self.page_size),
    {
        let mut extra = SDO::new(self.sdo.topic);
        match &self.timeout {
            Some(t) => {
                let tc = t.clone();
                extra.push_string_w(TIMEOUT, Some(tc));
                assert(cells_string_w(seq![Some(tc)]) =~= seq![Some(ValueView::Str(t@))]);
            },
            None => {},
        }
        let n: u32 = match self.page_size {
            Some(n) => n,
            None => 1000,
        };
        let digits = decimal_string(n);
        let ghost dv = digits@;
        extra.push_string_w(PAGE_SIZE, Some(digits));
        assert(cells_string_w(seq![Some(digits)]) =~= seq![Some(ValueView::Str(dv))]);
        assert(extra@.fields =~= extra_fields(opt_string_view(self.timeout), self.page_size));
        extra
    }
}

/// Reads a message at `p`: a header SDO, whose first field may carry the request id,
/// then the payload SDO.
pub fn read_msg(b: &[u8], p: usize) -> (r: Result<(Message, usize), Error>)
    ensures
        match sdo_at(b@, p as int) {
            Err(e) => r == Err::<(Message, usize), Error>(e),
            Ok((h, q)) => match header_id_of(h) {
                Err(e) => r == Err::<(Message, usize), Error>(e),
                Ok(id) => match sdo_at(b@, q) {
                    Err(e) => r == Err::<(Message, usize), Error>(e),
                    Ok((s, q2)) => r matches Ok((m, q3)) && opt_string_view(m.id) == id && m.sdo@
                        == s && q3 == q2 && m.timeout is None && m.page_size is None,
                },
            },
        },
{
    let (header, q) = match read_sdo(b, p) {
        Err(e) => return Err(e),
        Ok(x) => x,
    };
    let mut id: Option<String> = None;
    if header.topic == Topic::UndefinedTopic && header.fields.len() > 0 {
        match &header.fields[0].1 {
            Some(Data::StringW(v)) => {
                if v.len() > 0 {
                    match &v[0] {
                        Some(s) => id = Some(s.clone()),
                        None => {},
                    }
                }
            },
            Some(Data::AsciiString(v)) => {
                if v.len() > 0 {
                    match &v[0] {
                        Some(s) => id = Some(s.0.clone()),
                        None => {},
                    }
                }
            },
            Some(Data::Short(v)) => {
                if v.len() > 0 {
                    match v[0] {
                        Some(x) => id = Some(decimal_string(x)),
                        None => {},
                    }
                }
            },
            _ => return Err(Error::InvalidHeaderId),
        }
    }
    assert(opt_string_view(id) == header_id_of(header@)->Ok_0);
    let (sdo, q2) = match read_sdo(b, q) {
        Err(e) => return Err(e),
        Ok(x) => x,
    };
    Ok((Message { id, sdo, timeout: None, page_size: None }, q2))
}

} // verus!
