//! Per-dialect rendering of values as SQL literals.
use crate::column::{Column, Dialect, TypeKind};
use crate::number::{is_float_text, is_i64_text, is_u64_text, parses_float, parses_i64, parses_u64};
use crate::json::{json_text, push_json};
use crate::text::{escape_string, join_seq, join_strings, quoted, split_char, split_seq, str_eq, views};
use crate::value::JsonValue;
use vstd::prelude::*;

verus! {

/// The SQL expression for a timestamp keyword, or the quoted text.
pub open spec fn timestamp_literal(d: Dialect, v: Seq<char>) -> Seq<char> {
    match d {
        Dialect::Postgres => if v == "epoch"@ {
            "'epoch'"@
        } else if v == "now"@ {
            "now()"@
        } else if v == "today"@ {
            "date_trunc('day', now())"@
        } else if v == "tomorrow"@ {
            "date_trunc('day', now()) + '1 day'::INTERVAL"@
        } else if v == "yesterday"@ {
            "date_trunc('day', now()) - '1 day'::INTERVAL"@
        } else {
            quoted(v)
        },
        Dialect::MySql => if v == "epoch"@ {
            "from_unixtime(0)"@
        } else if v == "now"@ {
            "current_timestamp(6)"@
        } else if v == "today"@ {
            "curdate()"@
        } else if v == "tomorrow"@ {
            "curdate() + INTERVAL 1 DAY"@
        } else if v == "yesterday"@ {
            "curdate() - INTERVAL 1 DAY"@
        } else {
            quoted(v)
        },
    }
}

/// The SQL expression for a date keyword, or the quoted text.
pub open spec fn date_literal(d: Dialect, v: Seq<char>) -> Seq<char> {
    if v == "epoch"@ {
        match d {
            Dialect::Postgres => "'epoch'"@,
            Dialect::MySql => "'1970-01-01'"@,
        }
    } else if v == "today"@ {
        "curdate()"@
    } else if v == "tomorrow"@ {
        "curdate() + INTERVAL 1 DAY"@
    } else if v == "yesterday"@ {
        "curdate() - INTERVAL 1 DAY"@
    } else {
        quoted(v)
    }
}

/// The SQL expression for a time keyword, or the quoted text.
pub open spec fn time_literal(d: Dialect, v: Seq<char>) -> Seq<char> {
    if v == "now"@ {
        "curtime()"@
    } else if v == "midnight"@ {
        match d {
            Dialect::Postgres => "'allballs'"@,
            Dialect::MySql => "'00:00:00'"@,
        }
    } else {
        quoted(v)
    }
}

/// An array literal holding the rendered `items` under the dialect.
pub open spec fn array_literal(d: Dialect, items: Seq<char>, column_type: Seq<char>) -> Seq<char> {
    match d {
        Dialect::Postgres => "ARRAY["@ + items + "]::"@ + column_type,
        Dialect::MySql => "json_array("@ + items + ")"@,
    }
}

/// The quoted parts of `v` between commas, joined by commas.
pub open spec fn quoted_list(v: Seq<char>) -> Seq<char> {
    join_seq(split_seq(v, ',').map_values(|p: Seq<char>| quoted(p)), ","@)
}

/// The literal for the text `v` in a column of semantic type `k`: texts that
/// do not parse as the column's type become `NULL`.
pub open spec fn format_value_spec(d: Dialect, col: Column, v: Seq<char>) -> Seq<char> {
    match col.kind() {
        TypeKind::Bool => if v == "true"@ {
            "TRUE"@
        } else {
            "FALSE"@
        },
        TypeKind::U64 | TypeKind::U32 | TypeKind::U16 | TypeKind::U8 | TypeKind::Usize => if parses_u64(v) {
            v
        } else {
            "NULL"@
        },
        TypeKind::I64 | TypeKind::I32 | TypeKind::I16 | TypeKind::I8 | TypeKind::Isize => if parses_i64(v) {
            v
        } else {
            "NULL"@
        },
        TypeKind::F64 | TypeKind::F32 => if parses_float(v) {
            v
        } else {
            "NULL"@
        },
        TypeKind::Text | TypeKind::Uuid | TypeKind::OptionUuid => quoted(v),
        TypeKind::DateTime | TypeKind::NaiveDateTime => timestamp_literal(d, v),
        TypeKind::Date | TypeKind::NaiveDate => date_literal(d, v),
        TypeKind::Time | TypeKind::NaiveTime => time_literal(d, v),
        TypeKind::Bytes => match d {
            Dialect::Postgres => "'\\x"@ + v + "'"@,
            Dialect::MySql => "'"@ + v + "'"@,
        },
        TypeKind::StringArray | TypeKind::UuidArray => array_literal(
            d,
            quoted_list(v),
            col.column_type_view(d),
        ),
        TypeKind::JsonMap => match d {
            Dialect::Postgres => quoted(v) + "::jsonb"@,
            Dialect::MySql => quoted(v),
        },
        TypeKind::Other => "NULL"@,
    }
}

/// Concatenates three strings.
fn concat3(a: &str, b: &str, c: &str) -> (r: String)
    ensures
        r@ == a@ + b@ + c@,
{
    let mut out = String::new();
    out.append(a);
    out.append(b);
    out.append(c);
    assert(out@ =~= a@ + b@ + c@);
    out
}

/// Quotes each part of `v` between commas and joins them with commas.
pub(crate) fn quote_list(v: &str) -> (r: String)
    ensures
        r@ == quoted_list(v@),
{
    let parts = split_char(v, ',');
    let mut quoted_parts: Vec<String> = Vec::new();
    let mut i: usize = 0;
    while i < parts.len()
        invariant
            i <= parts@.len(),
            quoted_parts@.len() == i,
            forall|j: int| 0 <= j < i ==> (#[trigger] quoted_parts@[j])@ == quoted(parts@[j]@),
        decreases parts.len() - i,
    {
        quoted_parts.push(escape_string(parts[i].as_str()));
        i = i + 1;
    }
    proof {
        assert(views(quoted_parts@) =~= split_seq(v@, ',').map_values(|p: Seq<char>| quoted(p)));
    }
    join_strings(&quoted_parts, ",")
}

/// Builds an array literal from rendered items.
fn array_text(d: Dialect, items: &str, column_type: &str) -> (r: String)
    ensures
        r@ == array_literal(d, items@, column_type@),
{
    match d {
        Dialect::Postgres => {
            let mut out = concat3("ARRAY[", items, "]::");
            out.append(column_type);
            out
        },
        Dialect::MySql => concat3("json_array(", items, ")"),
    }
}

impl Column {
    /// Renders the text `value` as a literal of the column's type under the
    /// dialect. Text that does not parse as the column's type becomes `NULL`,
    /// and temporal keywords become the dialect's expressions.
    pub fn format_value(&self, d: Dialect, value: &str) -> (r: String)
        ensures
            r@ == format_value_spec(d, *self, value@),
    {
        match self.type_kind() {
            TypeKind::Bool => if str_eq(value, "true") {
                "TRUE".to_owned()
            } else {
                "FALSE".to_owned()
            },
            TypeKind::U64 | TypeKind::U32 | TypeKind::U16 | TypeKind::U8 | TypeKind::Usize => {
                if is_u64_text(value) {
                    value.to_owned()
                } else {
                    "NULL".to_owned()
                }
            },
            TypeKind::I64 | TypeKind::I32 | TypeKind::I16 | TypeKind::I8 | TypeKind::Isize => {
                if is_i64_text(value) {
                    value.to_owned()
                } else {
                    "NULL".to_owned()
                }
            },
            TypeKind::F64 | TypeKind::F32 => {
                if is_float_text(value) {
                    value.to_owned()
                } else {
                    "NULL".to_owned()
                }
            },
            TypeKind::Text | TypeKind::Uuid | TypeKind::OptionUuid => escape_string(value),
            TypeKind::DateTime | TypeKind::NaiveDateTime => match d {
                Dialect::Postgres => if str_eq(value, "epoch") {
                    "'epoch'".to_owned()
                } else if str_eq(value, "now") {
                    "now()".to_owned()
                } else if str_eq(value, "today") {
                    "date_trunc('day', now())".to_owned()
                } else if str_eq(value, "tomorrow") {
                    "date_trunc('day', now()) + '1 day'::INTERVAL".to_owned()
                } else if str_eq(value, "yesterday") {
                    "date_trunc('day', now()) - '1 day'::INTERVAL".to_owned()
                } else {
                    escape_string(value)
                },
                Dialect::MySql => if str_eq(value, "epoch") {
                    "from_unixtime(0)".to_owned()
                } else if str_eq(value, "now") {
                    "current_timestamp(6)".to_owned()
                } else if str_eq(value, "today") {
                    "curdate()".to_owned()
                } else if str_eq(value, "tomorrow") {
                    "curdate() + INTERVAL 1 DAY".to_owned()
                } else if str_eq(value, "yesterday") {
                    "curdate() - INTERVAL 1 DAY".to_owned()
                } else {
                    escape_string(value)
                },
            },
            TypeKind::Date | TypeKind::NaiveDate => if str_eq(value, "epoch") {
                match d {
                    Dialect::Postgres => "'epoch'".to_owned(),
                    Dialect::MySql => "'1970-01-01'".to_owned(),
                }
            } else if str_eq(value, "today") {
                "curdate()".to_owned()
            } else if str_eq(value, "tomorrow") {
                "curdate() + INTERVAL 1 DAY".to_owned()
            } else if str_eq(value, "yesterday") {
                "curdate() - INTERVAL 1 DAY".to_owned()
            } else {
                escape_string(value)
            },
            TypeKind::Time | TypeKind::NaiveTime => if str_eq(value, "now") {
                "curtime()".to_owned()
            } else if str_eq(value, "midnight") {
                match d {
                    Dialect::Postgres => "'allballs'".to_owned(),
                    Dialect::MySql => "'00:00:00'".to_owned(),
                }
            } else {
                escape_string(value)
            },
            TypeKind::Bytes => match d {
                Dialect::Postgres => concat3("'\\x", value, "'"),
                Dialect::MySql => concat3("'", value, "'"),
            },
            TypeKind::StringArray | TypeKind::UuidArray => {
                let items = quote_list(value);
                array_text(d, items.as_str(), self.column_type(d))
            },
            TypeKind::JsonMap => match d {
                Dialect::Postgres => {
                    let mut out = escape_string(value);
                    out.append("::jsonb");
                    out
                },
                Dialect::MySql => escape_string(value),
            },
            TypeKind::Other => "NULL".to_owned(),
        }
    }
}

/// The literal that a document value becomes in a column.
pub open spec fn encode_spec(d: Dialect, col: Column, v: JsonValue) -> Seq<char>
    decreases v, 0nat,
{
    match v {
        JsonValue::Null => "NULL"@,
        JsonValue::Bool(b) => if b {
            "TRUE"@
        } else {
            "FALSE"@
        },
        JsonValue::Number(t) => t@,
        JsonValue::Str(s) => if s@.len() == 0 {
            match col.default_value {
                Some(dv) => format_value_spec(d, col, dv@),
                None => "''"@,
            }
        } else if s@ == "null"@ {
            "NULL"@
        } else {
            format_value_spec(d, col, s@)
        },
        JsonValue::Array(items) => array_literal(
            d,
            encode_items(d, col, items@, items@.len()),
            col.column_type_view(d),
        ),
        JsonValue::Object(_) => match d {
            Dialect::Postgres => quoted(json_text(v)) + "::"@ + col.column_type_view(d),
            Dialect::MySql => quoted(json_text(v)),
        },
    }
}

/// The first `n` array items rendered for an array literal, separated by
/// commas: strings are quoted, other values encoded.
pub open spec fn encode_items(d: Dialect, col: Column, items: Seq<JsonValue>, n: nat) -> Seq<char>
    decreases items, n,
{
    if n == 0 || n > items.len() {
        Seq::<char>::empty()
    } else {
        let item = match items[n - 1] {
            JsonValue::Str(s) => quoted(s@),
            _ => encode_spec(d, col, items[n - 1]),
        };
        if n == 1 {
            item
        } else {
            encode_items(d, col, items, (n - 1) as nat) + ","@ + item
        }
    }
}

/// The literal for an optional document value: a missing value becomes
/// `DEFAULT` where the column has a default and `NULL` otherwise.
pub open spec fn encode_value_spec(d: Dialect, col: Column, v: Option<JsonValue>) -> Seq<char> {
    match v {
        Some(x) => encode_spec(d, col, x),
        None => if col.default_value is Some {
            "DEFAULT"@
        } else {
            "NULL"@
        },
    }
}

impl Column {
    /// Renders a document value as a literal of the column.
    pub fn encode_json(&self, d: Dialect, v: &JsonValue) -> (r: String)
        ensures
            r@ == encode_spec(d, *self, *v),
        decreases v,
    {
        match v {
            JsonValue::Null => "NULL".to_owned(),
            JsonValue::Bool(b) => if *b {
                "TRUE".to_owned()
            } else {
                "FALSE".to_owned()
            },
            JsonValue::Number(t) => t.clone(),
            JsonValue::Str(s) => {
                if s.as_str().unicode_len() == 0 {
                    match &self.default_value {
                        Some(dv) => self.format_value(d, dv.as_str()),
                        None => "''".to_owned(),
                    }
                } else if str_eq(s.as_str(), "null") {
                    "NULL".to_owned()
                } else {
                    self.format_value(d, s.as_str())
                }
            },
            JsonValue::Array(items) => {
                let mut out = String::new();
                let mut i: usize = 0;
                assert forall|j: int| 0 <= j < items@.len() implies decreases_to!(*v => #[trigger] items@[j]) by {
                    assert(decreases_to!(*v => v->Array_0));
                    assert(decreases_to!(v->Array_0 => v->Array_0@));
                    assert(decreases_to!(v->Array_0@ => v->Array_0@[j]));
                }
                while i < items.len()
                    invariant
                        i <= items@.len(),
                        forall|j: int| 0 <= j < items@.len() ==> decreases_to!(*v => #[trigger] items@[j]),
                        out@ == encode_items(d, *self, items@, i as nat),
                    decreases items.len() - i,
                {
                    if i > 0 {
                        out.append(",");
                    }
                    let item = match &items[i] {
                        JsonValue::Str(s) => escape_string(s.as_str()),
                        other => self.encode_json(d, other),
                    };
                    out.append(item.as_str());
                    i = i + 1;
                    assert(out@ =~= encode_items(d, *self, items@, i as nat));
                }
                array_text(d, out.as_str(), self.column_type(d))
            },
            JsonValue::Object(_) => {
                let mut text = String::new();
                push_json(&mut text, v);
                let mut out = escape_string(text.as_str());
                if d == Dialect::Postgres {
                    out.append("::");
                    out.append(self.column_type(d));
                }
                assert(out@ =~= encode_spec(d, *self, *v));
                out
            },
        }
    }

    /// Renders an optional document value as a literal of the column.
    pub fn encode_value(&self, d: Dialect, value: Option<&JsonValue>) -> (r: String)
        ensures
            r@ == encode_value_spec(d, *self, match value { Some(x) => Some(*x), None => None }),
    {
        match value {
            Some(v) => self.encode_json(d, v),
            None => if self.default_value.is_some() {
                "DEFAULT".to_owned()
            } else {
                "NULL".to_owned()
            },
        }
    }
}

} // verus!
