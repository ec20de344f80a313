use itertools::Itertools;
use vstd::prelude::*;

use crate::data::{ColumnKind, ColumnView, Data, DateTime, SDO, ValueView};

verus! {

/// The first row at or after `i` that holds a value.
pub open spec fn first_present(cells: Seq<Option<ValueView>>, i: int) -> Option<ValueView>
    decreases cells.len() - i,
{
    if i < 0 || i >= cells.len() {
        None
    } else {
        match cells[i] {
            Some(v) => Some(v),
            None => first_present(cells, i + 1),
        }
    }
}

pub open spec fn is_string_kind(k: ColumnKind) -> bool {
    k == ColumnKind::StringW || k == ColumnKind::AsciiString
}

/// The first present string of a string column.
pub open spec fn first_str(c: ColumnView) -> Option<Seq<char>> {
    if is_string_kind(c.kind) {
        match first_present(c.cells, 0) {
            Some(ValueView::Str(s)) => Some(s),
            _ => None,
        }
    } else {
        None
    }
}

/// The first present value of a boolean column.
pub open spec fn first_bool(c: ColumnView) -> Option<bool> {
    if c.kind == ColumnKind::Bool {
        match first_present(c.cells, 0) {
            Some(ValueView::Bool(b)) => Some(b),
            _ => None,
        }
    } else {
        None
    }
}

/// The first row of a long or short column, if it holds a value.
pub open spec fn first_u32(c: ColumnView) -> Option<u32> {
    if (c.kind == ColumnKind::Long || c.kind == ColumnKind::Short) && c.cells.len() > 0 {
        match c.cells[0] {
            Some(ValueView::U32(x)) => Some(x),
            _ => None,
        }
    } else {
        None
    }
}

/// The present strings of a list, joined with ", ".
pub open spec fn joined(parts: Seq<Seq<char>>) -> Seq<char>
    decreases parts.len(),
{
    if parts.len() == 0 {
        Seq::empty()
    } else if parts.len() == 1 {
        parts[0]
    } else {
        joined(parts.drop_last()) + seq![',', ' '] + parts.last()
    }
}

/// The present strings of a string column, in order.
pub open spec fn present_strs(cells: Seq<Option<ValueView>>) -> Seq<Seq<char>>
    decreases cells.len(),
{
    if cells.len() == 0 {
        Seq::empty()
    } else {
        let rest = present_strs(cells.drop_last());
        match cells.last() {
            Some(ValueView::Str(s)) => rest.push(s),
            _ => rest,
        }
    }
}

pub open spec fn views_of(v: Seq<String>) -> Seq<Seq<char>> {
    Seq::new(v.len(), |i: int| v[i]@)
}

/// Relies on `Itertools::join`: the elements, each as `Display` writes it (for a
/// string, its characters), with ", " between two of them.
#[verifier::external_body]
fn join_comma(parts: &Vec<String>) -> (r: String)
    ensures
        r@ == joined(views_of(parts@)),
{
    parts.iter().join(", ")
}

impl Data {
    /// The present values of a wide or 8-bit string column joined with ", "; `None`
    /// for any other column.
    pub fn to_string(&self) -> (r: Option<String>)
        ensures
            is_string_kind(self@.kind) ==> (r matches Some(s) && s@ == joined(present_strs(self@.cells))),
            !is_string_kind(self@.kind) ==> r is None,
    {
        let mut parts: Vec<String> = Vec::new();
        let n: usize = match self {
            Data::StringW(v) => v.len(),
            Data::AsciiString(v) => v.len(),
            _ => return None,
        };
        let mut i: usize = 0;
        while i < n
            invariant
                is_string_kind(self@.kind),
                n == self@.cells.len(),
                i <= n,
                views_of(parts@) == present_strs(self@.cells.subrange(0, i as int)),
            decreases n - i,
        {
            let ghost before = parts@;
            let ghost cs = self@.cells.subrange(0, i + 1);
            assert(cs.drop_last() =~= self@.cells.subrange(0, i as int));
            let s: Option<String> = match self {
                Data::StringW(v) => match &v[i] {
                    Some(x) => Some(x.clone()),
                    None => None,
                },
                Data::AsciiString(v) => match &v[i] {
                    Some(x) => Some(x.0.clone()),
                    None => None,
                },
                _ => None,
            };
            match s {
                Some(x) => {
                    parts.push(x);
                    assert(views_of(parts@) =~= views_of(before).push(x@));
                },
                None => {},
            }
            i = i + 1;
        }
        assert(self@.cells.subrange(0, n as int) =~= self@.cells);
        Some(join_comma(&parts))
    }

    /// The first present value of a wide or 8-bit string column.
    pub fn as_first_str(&self) -> (r: Option<&str>)
        ensures
            match r {
                Some(s) => first_str(self@) == Some(s@),
                None => first_str(self@) is None,
            },
    {
        let n: usize = match self {
            Data::StringW(v) => v.len(),
            Data::AsciiString(v) => v.len(),
            _ => return None,
        };
        let mut i: usize = 0;
        while i < n
            invariant
                is_string_kind(self@.kind),
                n == self@.cells.len(),
                i <= n,
                first_present(self@.cells, 0) == first_present(self@.cells, i as int),
            decreases n - i,
        {
            match self {
                Data::StringW(v) => match &v[i] {
                    Some(x) => return Some(x.as_str()),
                    None => {},
                },
                Data::AsciiString(v) => match &v[i] {
                    Some(x) => return Some(x.0.as_str()),
                    None => {},
                },
                _ => {},
            }
            i = i + 1;
        }
        None
    }

    /// The first present value of a boolean column.
    pub fn as_first_bool(&self) -> (r: Option<bool>)
        ensures
            r == first_bool(self@),
    {
        match self {
            Data::Bool(v) => {
                let mut i: usize = 0;
                while i < v.len()
                    invariant
                        *self == Data::Bool(*v),
                        i <= v@.len(),
                        first_present(self@.cells, 0) == first_present(self@.cells, i as int),
                    decreases v@.len() - i,
                {
                    match v[i] {
                        Some(b) => return Some(b),
                        None => {},
                    }
                    i = i + 1;
                }
                None
            },
            _ => None,
        }
    }

    /// The first row of a long or short column, if it holds a value.
    pub fn as_first_u32(&self) -> (r: Option<u32>)
        ensures
            r == first_u32(self@),
    {
        match self {
            Data::Long(v) | Data::Short(v) => if v.len() > 0 {
                v[0]
            } else {
                None
            },
            _ => None,
        }
    }

    /// The rows of a long or short column.
    pub fn as_vec_u32(&self) -> (r: Option<Vec<Option<u32>>>)
        ensures
            (self@.kind == ColumnKind::Long || self@.kind == ColumnKind::Short) ==> (r matches Some(v)
                && v@.len() == self@.cells.len() && forall|i: int|
                0 <= i < v@.len() ==> match #[trigger] v@[i] {
                    Some(x) => self@.cells[i] == Some(ValueView::U32(x)),
                    None => self@.cells[i] is None,
                }),
            !(self@.kind == ColumnKind::Long || self@.kind == ColumnKind::Short) ==> r is None,
    {
        match self {
            Data::Long(v) | Data::Short(v) => Some(v.clone()),
            _ => None,
        }
    }

    /// The rows of a long, short or long-long column, widened to `u64`.
    pub fn as_vec_u64(&self) -> (r: Option<Vec<Option<u64>>>)
        ensures
            (self@.kind == ColumnKind::Long || self@.kind == ColumnKind::Short || self@.kind
                == ColumnKind::LongLong) ==> (r matches Some(v) && v@.len() == self@.cells.len()
                && forall|i: int|
                0 <= i < v@.len() ==> match #[trigger] v@[i] {
                    Some(x) => self@.cells[i] == Some(ValueView::U32(x as u32)) && x <= u32::MAX
                        || self@.cells[i] == Some(ValueView::U64(x)),
                    None => self@.cells[i] is None,
                }),
            !(self@.kind == ColumnKind::Long || self@.kind == ColumnKind::Short || self@.kind
                == ColumnKind::LongLong) ==> r is None,
    {
        match self {
            Data::LongLong(v) => Some(v.clone()),
            Data::Long(v) | Data::Short(v) => {
                let mut out: Vec<Option<u64>> = Vec::new();
                let mut i: usize = 0;
                while i < v.len()
                    invariant
                        *self == Data::Long(*v) || *self == Data::Short(*v),
                        i <= v@.len(),
                        out@.len() == i,
                        forall|k: int|
                            0 <= k < i ==> match #[trigger] out@[k] {
                                Some(x) => self@.cells[k] == Some(ValueView::U32(x as u32)) && x
                                    <= u32::MAX,
                                None => self@.cells[k] is None,
                            },
                    decreases v@.len() - i,
                {
                    match v[i] {
                        Some(x) => out.push(Some(x as u64)),
                        None => out.push(None),
                    }
                    i = i + 1;
                }
                Some(out)
            },
            _ => None,
        }
    }

    /// The rows of a wide or 8-bit string column, copied.
    pub fn to_vec_string(&self) -> (r: Option<Vec<Option<String>>>)
        ensures
            is_string_kind(self@.kind) ==> (r matches Some(v) && v@.len() == self@.cells.len()
                && forall|i: int|
                0 <= i < v@.len() ==> match #[trigger] v@[i] {
                    Some(x) => self@.cells[i] == Some(ValueView::Str(x@)),
                    None => self@.cells[i] is None,
                }),
            !is_string_kind(self@.kind) ==> r is None,
    {
        let n: usize = match self {
            Data::StringW(v) => v.len(),
            Data::AsciiString(v) => v.len(),
            _ => return None,
        };
        let mut out: Vec<Option<String>> = Vec::new();
        let mut i: usize = 0;
        while i < n
            invariant
                is_string_kind(self@.kind),
                n == self@.cells.len(),
                i <= n,
                out@.len() == i,
                forall|k: int|
                    0 <= k < i ==> match #[trigger] out@[k] {
                        Some(x) => self@.cells[k] == Some(ValueView::Str(x@)),
                        None => self@.cells[k] is None,
                    },
            decreases n - i,
        {
            let s: Option<String> = match self {
                Data::StringW(v) => match &v[i] {
                    Some(x) => Some(x.clone()),
                    None => None,
                },
                Data::AsciiString(v) => match &v[i] {
                    Some(x) => Some(x.0.clone()),
                    None => None,
                },
                _ => None,
            };
            out.push(s);
            i = i + 1;
        }
        Some(out)
    }

    /// The rows of a wide or 8-bit string column, borrowed.
    pub fn as_vec_str(&self) -> (r: Option<Vec<Option<&str>>>)
        ensures
            is_string_kind(self@.kind) ==> (r matches Some(v) && v@.len() == self@.cells.len()
                && forall|i: int|
                0 <= i < v@.len() ==> match #[trigger] v@[i] {
                    Some(x) => self@.cells[i] == Some(ValueView::Str(x@)),
                    None => self@.cells[i] is None,
                }),
            !is_string_kind(self@.kind) ==> r is None,
    {
        let n: usize = match self {
            Data::StringW(v) => v.len(),
            Data::AsciiString(v) => v.len(),
            _ => return None,
        };
        let mut out: Vec<Option<&str>> = Vec::new();
        let mut i: usize = 0;
        while i < n
            invariant
                is_string_kind(self@.kind),
                n == self@.cells.len(),
                i <= n,
                out@.len() == i,
                forall|k: int|
                    0 <= k < i ==> match #[trigger] out@[k] {
                        Some(x) => self@.cells[k] == Some(ValueView::Str(x@)),
                        None => self@.cells[k] is None,
                    },
            decreases n - i,
        {
            let s: Option<&str> = match self {
                Data::StringW(v) => match &v[i] {
                    Some(x) => Some(x.as_str()),
                    None => None,
                },
                Data::AsciiString(v) => match &v[i] {
                    Some(x) => Some(x.0.as_str()),
                    None => None,
                },
                _ => None,
            };
            out.push(s);
            i = i + 1;
        }
        Some(out)
    }

    /// The rows of a character column.
    pub fn as_vec_char(&self) -> (r: Option<Vec<Option<char>>>)
        ensures
            self@.kind == ColumnKind::Char ==> (r matches Some(v) && v@.len() == self@.cells.len()
                && forall|i: int|
                0 <= i < v@.len() ==> match #[trigger] v@[i] {
                    Some(x) => self@.cells[i] == Some(ValueView::Char(x as u32)),
                    None => self@.cells[i] is None,
                }),
            self@.kind != ColumnKind::Char ==> r is None,
    {
        match self {
            Data::Char(v) => {
                let mut out: Vec<Option<char>> = Vec::new();
                let mut i: usize = 0;
                while i < v.len()
                    invariant
                        *self == Data::Char(*v),
                        i <= v@.len(),
                        out@.len() == i,
                        forall|k: int| 0 <= k < i ==> #[trigger] out@[k] == v@[k],
                    decreases v@.len() - i,
                {
                    out.push(v[i]);
                    i = i + 1;
                }
                Some(out)
            },
            _ => None,
        }
    }

    /// The rows of a date-time column.
    pub fn to_vec_datetime(&self) -> (r: Option<Vec<Option<DateTime>>>)
        ensures
            self@.kind == ColumnKind::DateTime ==> (r matches Some(v) && v@.len() == self@.cells.len()
                && forall|i: int|
                0 <= i < v@.len() ==> match #[trigger] v@[i] {
                    Some(x) => self@.cells[i] == Some(ValueView::Time(x)),
                    None => self@.cells[i] is None,
                }),
            self@.kind != ColumnKind::DateTime ==> r is None,
    {
        match self {
            Data::DateTime(v) => {
                let mut out: Vec<Option<DateTime>> = Vec::new();
                let mut i: usize = 0;
                while i < v.len()
                    invariant
                        *self == Data::DateTime(*v),
                        i <= v@.len(),
                        out@.len() == i,
                        forall|k: int| 0 <= k < i ==> #[trigger] out@[k] == v@[k],
                    decreases v@.len() - i,
                {
                    out.push(v[i]);
                    i = i + 1;
                }
                Some(out)
            },
            _ => None,
        }
    }

    /// The rows of an SDO column, borrowed.
    pub fn to_vec_sdo(&self) -> (r: Option<Vec<Option<&SDO>>>)
        ensures
            self@.kind == ColumnKind::Sdo ==> (r matches Some(v) && v@.len() == self@.cells.len()
                && forall|i: int|
                0 <= i < v@.len() ==> match #[trigger] v@[i] {
                    Some(x) => self@.cells[i] == Some(ValueView::Sdo(x@)),
                    None => self@.cells[i] is None,
                }),
            self@.kind != ColumnKind::Sdo ==> r is None,
    {
        match self {
            Data::SDO(v) => {
                let mut out: Vec<Option<&SDO>> = Vec::new();
                let mut i: usize = 0;
                while i < v.len()
                    invariant
                        *self == Data::SDO(*v),
                        i <= v@.len(),
                        out@.len() == i,
                        forall|k: int|
                            0 <= k < i ==> match #[trigger] out@[k] {
                                Some(x) => v@[k] matches Some(y) && x@ == y@,
                                None => v@[k] is None,
                            },
                    decreases v@.len() - i,
                {
                    match &v[i] {
                        Some(x) => out.push(Some(x)),
                        None => out.push(None),
                    }
                    i = i + 1;
                }
                Some(out)
            },
            _ => None,
        }
    }
}

} // verus!
