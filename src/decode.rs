//! Row decoding: which value each native column type is read as.
use crate::column::Dialect;
use crate::fetch::{lemma_view_entries_index, view_entries, view_of, JsonView};
use crate::number::{decimal, i64_text, signed_decimal, u64_text};
use crate::text::str_eq;
use crate::value::JsonValue;
use vstd::prelude::*;

verus! {

/// The value that a column of a native type is read as. `Timestamp` is read
/// with its time zone; `NaiveTimestamp`, `Date`, `Time` and `Uuid` are read
/// as their text; `Unknown` columns decode to null.
#[derive(Clone, Copy, Debug, PartialEq, Eq, Structural)]
pub enum NativeKind {
    Bool,
    I8,
    I16,
    I32,
    I64,
    U8,
    U16,
    U32,
    U64,
    F32,
    F64,
    Text,
    Timestamp,
    NaiveTimestamp,
    Date,
    Time,
    Uuid,
    Bytes,
    TextArray,
    UuidArray,
    Json,
    Unknown,
}

/// The value that a column of the native type `t` is read as under the dialect.
pub open spec fn native_kind_spec(d: Dialect, t: Seq<char>) -> NativeKind {
    match d {
        Dialect::Postgres => {
            if t == "BOOL"@ {
                NativeKind::Bool
            } else if t == "INT2"@ {
                NativeKind::I16
            } else if t == "INT4"@ {
                NativeKind::I32
            } else if t == "INT8"@ {
                NativeKind::I64
            } else if t == "FLOAT4"@ {
                NativeKind::F32
            } else if t == "FLOAT8"@ {
                NativeKind::F64
            } else if t == "TEXT"@ {
                NativeKind::Text
            } else if t == "VARCHAR"@ {
                NativeKind::Text
            } else if t == "CHAR"@ {
                NativeKind::Text
            } else if t == "TIMESTAMPTZ"@ {
                NativeKind::Timestamp
            } else if t == "TIMESTAMP"@ {
                NativeKind::NaiveTimestamp
            } else if t == "DATE"@ {
                NativeKind::Date
            } else if t == "TIME"@ {
                NativeKind::Time
            } else if t == "UUID"@ {
                NativeKind::Uuid
            } else if t == "BYTEA"@ {
                NativeKind::Bytes
            } else if t == "TEXT[]"@ {
                NativeKind::TextArray
            } else if t == "UUID[]"@ {
                NativeKind::UuidArray
            } else if t == "JSONB"@ {
                NativeKind::Json
            } else if t == "JSON"@ {
                NativeKind::Json
            } else {
                NativeKind::Unknown
            }
        },
        Dialect::MySql => {
            if t == "BOOLEAN"@ {
                NativeKind::Bool
            } else if t == "TINYINT"@ {
                NativeKind::I8
            } else if t == "TINYINT UNSIGNED"@ {
                NativeKind::U8
            } else if t == "SMALLINT"@ {
                NativeKind::I16
            } else if t == "SMALLINT UNSIGNED"@ {
                NativeKind::U16
            } else if t == "INT"@ {
                NativeKind::I32
            } else if t == "INT UNSIGNED"@ {
                NativeKind::U32
            } else if t == "BIGINT"@ {
                NativeKind::I64
            } else if t == "BIGINT UNSIGNED"@ {
                NativeKind::U64
            } else if t == "FLOAT"@ {
                NativeKind::F32
            } else if t == "DOUBLE"@ {
                NativeKind::F64
            } else if t == "TEXT"@ {
                NativeKind::Text
            } else if t == "VARCHAR"@ {
                NativeKind::Text
            } else if t == "CHAR"@ {
                NativeKind::Text
            } else if t == "TIMESTAMP"@ {
                NativeKind::Timestamp
            } else if t == "DATETIME"@ {
                NativeKind::NaiveTimestamp
            } else if t == "DATE"@ {
                NativeKind::Date
            } else if t == "TIME"@ {
                NativeKind::Time
            } else if t == "BLOB"@ {
                NativeKind::Bytes
            } else if t == "VARBINARY"@ {
                NativeKind::Bytes
            } else if t == "BINARY"@ {
                NativeKind::Bytes
            } else if t == "JSON"@ {
                NativeKind::Json
            } else {
                NativeKind::Unknown
            }
        },
    }
}

/// The value that a column of the native type `t` is read as under the dialect.
pub fn native_kind(d: Dialect, t: &str) -> (r: NativeKind)
    ensures
        r == native_kind_spec(d, t@),
{
    match d {
        Dialect::Postgres => {
            if str_eq(t, "BOOL") {
                NativeKind::Bool
            } else if str_eq(t, "INT2") {
                NativeKind::I16
            } else if str_eq(t, "INT4") {
                NativeKind::I32
            } else if str_eq(t, "INT8") {
                NativeKind::I64
            } else if str_eq(t, "FLOAT4") {
                NativeKind::F32
            } else if str_eq(t, "FLOAT8") {
                NativeKind::F64
            } else if str_eq(t, "TEXT") {
                NativeKind::Text
            } else if str_eq(t, "VARCHAR") {
                NativeKind::Text
            } else if str_eq(t, "CHAR") {
                NativeKind::Text
            } else if str_eq(t, "TIMESTAMPTZ") {
                NativeKind::Timestamp
            } else if str_eq(t, "TIMESTAMP") {
                NativeKind::NaiveTimestamp
            } else if str_eq(t, "DATE") {
                NativeKind::Date
            } else if str_eq(t, "TIME") {
                NativeKind::Time
            } else if str_eq(t, "UUID") {
                NativeKind::Uuid
            } else if str_eq(t, "BYTEA") {
                NativeKind::Bytes
            } else if str_eq(t, "TEXT[]") {
                NativeKind::TextArray
            } else if str_eq(t, "UUID[]") {
                NativeKind::UuidArray
            } else if str_eq(t, "JSONB") {
                NativeKind::Json
            } else if str_eq(t, "JSON") {
                NativeKind::Json
            } else {
                NativeKind::Unknown
            }
        },
        Dialect::MySql => {
            if str_eq(t, "BOOLEAN") {
                NativeKind::Bool
            } else if str_eq(t, "TINYINT") {
                NativeKind::I8
            } else if str_eq(t, "TINYINT UNSIGNED") {
                NativeKind::U8
            } else if str_eq(t, "SMALLINT") {
                NativeKind::I16
            } else if str_eq(t, "SMALLINT UNSIGNED") {
                NativeKind::U16
            } else if str_eq(t, "INT") {
                NativeKind::I32
            } else if str_eq(t, "INT UNSIGNED") {
                NativeKind::U32
            } else if str_eq(t, "BIGINT") {
                NativeKind::I64
            } else if str_eq(t, "BIGINT UNSIGNED") {
                NativeKind::U64
            } else if str_eq(t, "FLOAT") {
                NativeKind::F32
            } else if str_eq(t, "DOUBLE") {
                NativeKind::F64
            } else if str_eq(t, "TEXT") {
                NativeKind::Text
            } else if str_eq(t, "VARCHAR") {
                NativeKind::Text
            } else if str_eq(t, "CHAR") {
                NativeKind::Text
            } else if str_eq(t, "TIMESTAMP") {
                NativeKind::Timestamp
            } else if str_eq(t, "DATETIME") {
                NativeKind::NaiveTimestamp
            } else if str_eq(t, "DATE") {
                NativeKind::Date
            } else if str_eq(t, "TIME") {
                NativeKind::Time
            } else if str_eq(t, "BLOB") {
                NativeKind::Bytes
            } else if str_eq(t, "VARBINARY") {
                NativeKind::Bytes
            } else if str_eq(t, "BINARY") {
                NativeKind::Bytes
            } else if str_eq(t, "JSON") {
                NativeKind::Json
            } else {
                NativeKind::Unknown
            }
        },
    }
}

/// A value as the driver hands it over, read as its column's `NativeKind`
/// says. Floating-point numbers and temporal values come as their text.
pub enum Cell {
    Null,
    Bool(bool),
    Int(i64),
    UInt(u64),
    Float(String),
    Text(String),
    Bytes(Vec<u8>),
    TextList(Vec<String>),
    Json(JsonValue),
}

/// The document value of a cell: numbers keep their decimal text, bytes
/// become an array of numbers and lists an array of strings.
pub open spec fn cell_view(c: Cell) -> JsonView {
    match c {
        Cell::Null => JsonView::Null,
        Cell::Bool(b) => JsonView::Bool(b),
        Cell::Int(i) => JsonView::Number(signed_decimal(i as int)),
        Cell::UInt(u) => JsonView::Number(decimal(u as nat)),
        Cell::Float(t) => JsonView::Number(t@),
        Cell::Text(t) => JsonView::Str(t@),
        Cell::Bytes(b) => JsonView::Array(b@.map_values(|x: u8| JsonView::Number(decimal(x as nat)))),
        Cell::TextList(l) => JsonView::Array(l@.map_values(|x: String| JsonView::Str(x@))),
        Cell::Json(v) => view_of(v),
    }
}

/// The document value of a cell.
pub fn decode_cell(c: Cell) -> (r: JsonValue)
    ensures
        view_of(r) == cell_view(c),
{
    match c {
        Cell::Null => JsonValue::Null,
        Cell::Bool(b) => JsonValue::Bool(b),
        Cell::Int(i) => JsonValue::Number(i64_text(i)),
        Cell::UInt(u) => JsonValue::Number(u64_text(u)),
        Cell::Float(t) => JsonValue::Number(t),
        Cell::Text(t) => JsonValue::Str(t),
        Cell::Bytes(b) => {
            let mut items: Vec<JsonValue> = Vec::new();
            let mut i: usize = 0;
            while i < b.len()
                invariant
                    i <= b@.len(),
                    items@.len() == i,
                    crate::fetch::view_items(items@, i as nat) == b@.subrange(0, i as int).map_values(
                        |x: u8| JsonView::Number(decimal(x as nat)),
                    ),
                decreases b.len() - i,
            {
                let ghost before = items@;
                items.push(JsonValue::Number(u64_text(b[i] as u64)));
                proof {
                    crate::fetch::lemma_view_items_prefix(before, items@, i as nat);
                    assert(crate::fetch::view_items(items@, (i + 1) as nat) == crate::fetch::view_items(
                        items@,
                        i as nat,
                    ).push(view_of(items@[i as int])));
                }
                i = i + 1;
                assert(crate::fetch::view_items(items@, i as nat) =~= b@.subrange(0, i as int).map_values(
                    |x: u8| JsonView::Number(decimal(x as nat)),
                ));
            }
            assert(b@.subrange(0, b@.len() as int) =~= b@);
            JsonValue::Array(items)
        },
        Cell::TextList(l) => {
            let mut items: Vec<JsonValue> = Vec::new();
            let mut i: usize = 0;
            while i < l.len()
                invariant
                    i <= l@.len(),
                    items@.len() == i,
                    crate::fetch::view_items(items@, i as nat) == l@.subrange(0, i as int).map_values(
                        |x: String| JsonView::Str(x@),
                    ),
                decreases l.len() - i,
            {
                let ghost before = items@;
                items.push(JsonValue::Str(l[i].clone()));
                proof {
                    crate::fetch::lemma_view_items_prefix(before, items@, i as nat);
                    assert(crate::fetch::view_items(items@, (i + 1) as nat) == crate::fetch::view_items(
                        items@,
                        i as nat,
                    ).push(view_of(items@[i as int])));
                }
                i = i + 1;
                assert(crate::fetch::view_items(items@, i as nat) =~= l@.subrange(0, i as int).map_values(
                    |x: String| JsonView::Str(x@),
                ));
            }
            assert(l@.subrange(0, l@.len() as int) =~= l@);
            JsonValue::Array(items)
        },
        Cell::Json(v) => v,
    }
}

/// The position of the first entry with key `k`.
pub open spec fn key_index(s: Seq<(Seq<char>, JsonView)>, k: Seq<char>) -> Option<int>
    decreases s.len(),
{
    if s.len() == 0 {
        None
    } else if s[0].0 == k {
        Some(0)
    } else {
        match key_index(s.drop_first(), k) {
            Some(i) => Some(i + 1),
            None => None,
        }
    }
}

/// `s` with the value under `k` set to `v`: in place where the key is
/// present, else at the end.
pub open spec fn upsert_view(s: Seq<(Seq<char>, JsonView)>, k: Seq<char>, v: JsonView) -> Seq<
    (Seq<char>, JsonView),
> {
    match key_index(s, k) {
        Some(i) => s.update(i, (k, v)),
        None => s.push((k, v)),
    }
}

/// The value that a column decodes to.
pub open spec fn column_value(d: Dialect, native: Seq<char>, cell: Cell) -> JsonView {
    if native_kind_spec(d, native) == NativeKind::Unknown {
        JsonView::Null
    } else {
        cell_view(cell)
    }
}

/// The document of the first `n` columns of a row: a repeated column name
/// keeps its first position and takes the later value.
pub open spec fn decoded(d: Dialect, row: Seq<(String, String, Cell)>, n: nat) -> Seq<(Seq<char>, JsonView)>
    decreases n,
{
    if n == 0 || n > row.len() {
        Seq::empty()
    } else {
        let (name, native, cell) = row[n - 1];
        upsert_view(decoded(d, row, (n - 1) as nat), name@, column_value(d, native@, cell))
    }
}

proof fn lemma_key_index(s: Seq<(Seq<char>, JsonView)>, k: Seq<char>, i: int)
    requires
        0 <= i <= s.len(),
        forall|j: int| 0 <= j < i ==> (#[trigger] s[j]).0 != k,
    ensures
        i < s.len() && s[i].0 == k ==> key_index(s, k) == Some(i),
        i == s.len() ==> key_index(s, k) is None,
    decreases s.len(),
{
    if s.len() > 0 && i > 0 {
        assert forall|j: int| 0 <= j < i - 1 implies (#[trigger] s.drop_first()[j]).0 != k by {
            assert(s.drop_first()[j] == s[j + 1]);
        }
        lemma_key_index(s.drop_first(), k, i - 1);
    }
}

/// Builds the document of a row from its columns: name, native type name
/// and cell. A column of a native type that the dialect does not know
/// decodes to null; a repeated column name keeps its first position and
/// takes the later value.
pub fn decode_row(d: Dialect, row: Vec<(String, String, Cell)>) -> (r: Vec<(String, JsonValue)>)
    ensures
        view_entries(r@, r@.len()) == decoded(d, row@, row@.len()),
{
    let ghost all = row@;
    let mut rest = row;
    let mut out: Vec<(String, JsonValue)> = Vec::new();
    let ghost mut i: int = 0;
    while rest.len() > 0
        invariant
            0 <= i <= all.len(),
            rest@ == all.subrange(i, all.len() as int),
            view_entries(out@, out@.len()) == decoded(d, all, i as nat),
        decreases rest.len(),
    {
        assert(i < all.len());
        let (name, native, cell) = rest.remove(0);
        assert((name, native, cell) == all[i]);
        let value = if native_kind(d, native.as_str()) == NativeKind::Unknown {
            JsonValue::Null
        } else {
            decode_cell(cell)
        };
        let ghost before = view_entries(out@, out@.len());
        proof {
            lemma_view_entries_index(out@, out@.len());
        }
        let mut k: usize = 0;
        while k < out.len() && !str_eq(out[k].0.as_str(), name.as_str())
            invariant
                k <= out@.len(),
                before == view_entries(out@, out@.len()),
                before.len() == out@.len(),
                forall|j: int| 0 <= j < before.len() ==> #[trigger] before[j] == (out@[j].0@, view_of(out@[j].1)),
                forall|j: int| 0 <= j < k ==> (#[trigger] before[j]).0 != name@,
            decreases out.len() - k,
        {
            k = k + 1;
        }
        proof {
            lemma_key_index(before, name@, k as int);
        }
        let ghost entry = (name@, view_of(value));
        if k < out.len() {
            let ghost old_out = out@;
            out.remove(k);
            out.insert(k, (name, value));
            proof {
                lemma_view_entries_index(out@, out@.len());
                assert forall|j: int| 0 <= j < out@.len() && j != k implies out@[j] == old_out[j] by {}
                assert(view_entries(out@, out@.len()) =~= before.update(k as int, entry));
            }
        } else {
            out.push((name, value));
            proof {
                lemma_view_entries_index(out@, out@.len());
                assert(view_entries(out@, out@.len()) =~= before.push(entry));
            }
        }
        proof {
            i = i + 1;
        }
        assert(rest@ =~= all.subrange(i, all.len() as int));
    }
    out
}

} // verus!
