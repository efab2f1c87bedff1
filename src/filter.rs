//! Compilation of one field's filter value into a SQL condition.
use crate::column::{Column, Dialect, TypeKind};
use crate::encode::{encode_spec, format_value_spec, quoted_list};
use crate::text::{
    contains_char, count_leading, escape_string, join_seq, join_strings, leading_count, quoted,
    split_char, split_seq, str_eq, views,
};
use crate::fetch::{lemma_same_content, lemma_same_parts, same_entries, same_items, view_of};
use crate::value::JsonValue;
use vstd::prelude::*;

verus! {

/// Where an operator prefix such as `<=` ends in `s`: zero when `s` has no
/// such prefix or consists of operator characters alone.
pub open spec fn operator_end(s: Seq<char>, set: Seq<char>) -> nat {
    let n = leading_count(s, set, true);
    if n == s.len() {
        0
    } else {
        n
    }
}

/// `a + " " + b + " " + c`.
pub open spec fn spaced(a: Seq<char>, op: Seq<char>, b: Seq<char>) -> Seq<char> {
    a + " "@ + op + " "@ + b
}

/// A condition that `field` holds all of `value` (array containment).
pub open spec fn contains_cond(d: Dialect, field: Seq<char>, value: Seq<char>) -> Seq<char> {
    match d {
        Dialect::Postgres => spaced(field, "@>"@, value),
        Dialect::MySql => "json_overlaps("@ + field + ", "@ + value + ")"@,
    }
}

/// A condition that `field` shares an element with `value`.
pub open spec fn overlaps_cond(d: Dialect, field: Seq<char>, value: Seq<char>) -> Seq<char> {
    match d {
        Dialect::Postgres => spaced(field, "&&"@, value),
        Dialect::MySql => "json_overlaps("@ + field + ", "@ + value + ")"@,
    }
}

/// The comparison that an operator key stands for; `array_length` marks `$size`.
pub open spec fn operator_of(d: Dialect, name: Seq<char>) -> Seq<char> {
    if name == "$eq"@ {
        "="@
    } else if name == "$ne"@ {
        "<>"@
    } else if name == "$lt"@ {
        "<"@
    } else if name == "$lte"@ {
        "<="@
    } else if name == "$gt"@ {
        ">"@
    } else if name == "$gte"@ {
        ">="@
    } else if name == "$in"@ {
        "IN"@
    } else if name == "$nin"@ {
        "NOT IN"@
    } else if d == Dialect::Postgres && name == "$all"@ {
        "@>"@
    } else if d == Dialect::Postgres && name == "$size"@ {
        "array_length"@
    } else {
        "="@
    }
}

/// The encoded values of `items`, separated by commas.
pub open spec fn encoded_list(d: Dialect, col: Column, items: Seq<JsonValue>) -> Seq<char> {
    join_seq(items.map_values(|x: JsonValue| encode_spec(d, col, x)), ","@)
}

/// The condition for one operator entry, or `None` where the entry adds none:
/// `$in` and `$nin` with an operand that is not a non-empty array.
pub open spec fn operator_cond(
    d: Dialect,
    col: Column,
    field: Seq<char>,
    name: Seq<char>,
    value: JsonValue,
) -> Option<Seq<char>> {
    let op = operator_of(d, name);
    if op == "array_length"@ {
        Some("array_length("@ + field + ", 1) = "@ + encode_spec(d, col, value))
    } else if op == "IN"@ || op == "NOT IN"@ {
        match value {
            JsonValue::Array(items) => if items@.len() > 0 {
                Some(spaced(field, op, "("@ + encoded_list(d, col, items@) + ")"@))
            } else {
                None
            },
            _ => None,
        }
    } else {
        Some(spaced(field, op, encode_spec(d, col, value)))
    }
}

/// The conditions of the first `n` operator entries, leaving out those that add none.
pub open spec fn operator_conds(
    d: Dialect,
    col: Column,
    field: Seq<char>,
    entries: Seq<(String, JsonValue)>,
    n: nat,
) -> Seq<Seq<char>>
    decreases n,
{
    if n == 0 || n > entries.len() {
        Seq::empty()
    } else {
        let init = operator_conds(d, col, field, entries, (n - 1) as nat);
        match operator_cond(d, col, field, entries[n - 1].0@, entries[n - 1].1) {
            Some(c) => init.push(c),
            None => init,
        }
    }
}

/// The condition for a text filter on a numeric or temporal column: a range
/// `min,max`, a comparison prefixed by `<`, `>` or `=`, or equality.
pub open spec fn ordered_cond(d: Dialect, col: Column, field: Seq<char>, s: Seq<char>) -> Seq<char> {
    if s.contains(',') {
        let i = leading_count(s, ","@, false) as int;
        field + " >= "@ + format_value_spec(d, col, s.subrange(0, i)) + " AND "@ + field + " < "@
            + format_value_spec(d, col, s.subrange(i + 1, s.len() as int))
    } else {
        let i = operator_end(s, "<>="@) as int;
        if i > 0 {
            spaced(field, s.subrange(0, i), format_value_spec(d, col, s.subrange(i, s.len() as int)))
        } else {
            spaced(field, "="@, format_value_spec(d, col, s))
        }
    }
}

/// The condition for a text filter on a string column.
pub open spec fn text_cond(field: Seq<char>, s: Seq<char>) -> Seq<char> {
    if s == "null"@ {
        "("@ + field + " = '') IS NOT FALSE"@
    } else if s == "notnull"@ {
        "("@ + field + " = '') IS FALSE"@
    } else {
        let i = operator_end(s, "!~*"@) as int;
        if i > 0 {
            spaced(field, s.subrange(0, i), quoted(s.subrange(i, s.len() as int)))
        } else {
            spaced(field, "="@, quoted(s))
        }
    }
}

/// The condition for a text filter on a UUID column.
pub open spec fn uuid_cond(field: Seq<char>, s: Seq<char>) -> Seq<char> {
    if s == "null"@ {
        field + " IS NULL"@
    } else if s == "notnull"@ {
        field + " IS NOT NULL"@
    } else if s.contains(',') {
        field + " IN ("@ + quoted_list(s) + ")"@
    } else {
        spaced(field, "="@, quoted(s))
    }
}

/// One overlap condition per group: the array must share a value with the
/// group's comma-separated values.
pub open spec fn overlaps_each(d: Dialect, col: Column, field: Seq<char>, groups: Seq<Seq<char>>) -> Seq<
    Seq<char>,
> {
    groups.map_values(|g: Seq<char>| overlaps_cond(d, field, format_value_spec(d, col, g)))
}

/// The condition for a text filter on an array column: the groups separated
/// by `;` must all hold, and a group holds where the array shares at least one
/// of the group's `,`-separated values.
pub open spec fn array_cond(d: Dialect, col: Column, field: Seq<char>, s: Seq<char>) -> Seq<char> {
    join_seq(overlaps_each(d, col, field, split_seq(s, ';')), " AND "@)
}

/// The SQL condition that a filter value on `field` compiles to in a column.
/// An empty result means no constraint.
pub open spec fn filter_spec(d: Dialect, col: Column, field: Seq<char>, v: JsonValue) -> Seq<char> {
    let k = col.kind();
    match v {
        JsonValue::Object(entries) => if k == TypeKind::JsonMap {
            contains_cond(d, field, encode_spec(d, col, v))
        } else {
            let conds = operator_conds(d, col, field, entries@, entries@.len());
            if conds.len() == 0 {
                Seq::empty()
            } else {
                "("@ + join_seq(conds, " AND "@) + ")"@
            }
        },
        _ => match k {
            TypeKind::Bool => if encode_spec(d, col, v) == "TRUE"@ {
                field + " IS TRUE"@
            } else {
                field + " IS NOT TRUE"@
            },
            TypeKind::U64 | TypeKind::I64 | TypeKind::U32 | TypeKind::I32 | TypeKind::U16
            | TypeKind::I16 | TypeKind::U8 | TypeKind::I8 | TypeKind::Usize | TypeKind::Isize
            | TypeKind::F64 | TypeKind::F32 | TypeKind::DateTime | TypeKind::Date | TypeKind::Time
            | TypeKind::NaiveDateTime | TypeKind::NaiveDate | TypeKind::NaiveTime => match v {
                JsonValue::Str(s) => ordered_cond(d, col, field, s@),
                _ => spaced(field, "="@, encode_spec(d, col, v)),
            },
            TypeKind::Text => match v {
                JsonValue::Str(s) => text_cond(field, s@),
                _ => spaced(field, "="@, encode_spec(d, col, v)),
            },
            TypeKind::Uuid | TypeKind::OptionUuid => match v {
                JsonValue::Str(s) => uuid_cond(field, s@),
                _ => spaced(field, "="@, encode_spec(d, col, v)),
            },
            TypeKind::StringArray | TypeKind::UuidArray => match v {
                JsonValue::Str(s) => array_cond(d, col, field, s@),
                _ => overlaps_cond(d, field, encode_spec(d, col, v)),
            },
            TypeKind::JsonMap => match (d, v) {
                (Dialect::Postgres, JsonValue::Str(s)) => spaced(field, "@?"@, quoted(s@)),
                _ => contains_cond(d, field, encode_spec(d, col, v)),
            },
            _ => spaced(field, "="@, encode_spec(d, col, v)),
        },
    }
}

/// Builds `a + " " + op + " " + b`.
fn spaced_text(a: &str, op: &str, b: &str) -> (r: String)
    ensures
        r@ == spaced(a@, op@, b@),
{
    let mut out = String::new();
    out.append(a);
    out.append(" ");
    out.append(op);
    out.append(" ");
    out.append(b);
    assert(out@ =~= spaced(a@, op@, b@));
    out
}

/// Builds `pre + a + mid + b + post`.
fn wrap2(pre: &str, a: &str, mid: &str, b: &str, post: &str) -> (r: String)
    ensures
        r@ == pre@ + a@ + mid@ + b@ + post@,
{
    let mut out = String::new();
    out.append(pre);
    out.append(a);
    out.append(mid);
    out.append(b);
    out.append(post);
    assert(out@ =~= pre@ + a@ + mid@ + b@ + post@);
    out
}

fn contains_text(d: Dialect, field: &str, value: &str) -> (r: String)
    ensures
        r@ == contains_cond(d, field@, value@),
{
    match d {
        Dialect::Postgres => spaced_text(field, "@>", value),
        Dialect::MySql => {
            let r = wrap2("json_overlaps(", field, ", ", value, ")");
            assert(r@ =~= contains_cond(d, field@, value@));
            r
        },
    }
}

fn overlaps_text(d: Dialect, field: &str, value: &str) -> (r: String)
    ensures
        r@ == overlaps_cond(d, field@, value@),
{
    match d {
        Dialect::Postgres => spaced_text(field, "&&", value),
        Dialect::MySql => {
            let r = wrap2("json_overlaps(", field, ", ", value, ")");
            assert(r@ =~= overlaps_cond(d, field@, value@));
            r
        },
    }
}

/// The comparison that an operator key stands for.
fn operator_name(d: Dialect, name: &str) -> (r: &'static str)
    ensures
        r@ == operator_of(d, name@),
{
    if str_eq(name, "$eq") {
        "="
    } else if str_eq(name, "$ne") {
        "<>"
    } else if str_eq(name, "$lt") {
        "<"
    } else if str_eq(name, "$lte") {
        "<="
    } else if str_eq(name, "$gt") {
        ">"
    } else if str_eq(name, "$gte") {
        ">="
    } else if str_eq(name, "$in") {
        "IN"
    } else if str_eq(name, "$nin") {
        "NOT IN"
    } else if d == Dialect::Postgres && str_eq(name, "$all") {
        "@>"
    } else if d == Dialect::Postgres && str_eq(name, "$size") {
        "array_length"
    } else {
        "="
    }
}

impl Column {
    /// The encoded values of `items`, separated by commas.
    fn encode_list(&self, d: Dialect, items: &Vec<JsonValue>) -> (r: String)
        ensures
            r@ == encoded_list(d, *self, items@),
    {
        let mut parts: Vec<String> = Vec::new();
        let mut i: usize = 0;
        while i < items.len()
            invariant
                i <= items@.len(),
                parts@.len() == i,
                forall|j: int| 0 <= j < i ==> (#[trigger] parts@[j])@ == encode_spec(d, *self, items@[j]),
            decreases items.len() - i,
        {
            parts.push(self.encode_json(d, &items[i]));
            i = i + 1;
        }
        assert(views(parts@) =~= items@.map_values(|x: JsonValue| encode_spec(d, *self, x)));
        join_strings(&parts, ",")
    }

    /// The condition for one operator entry of a filter object.
    fn operator_condition(&self, d: Dialect, field: &str, name: &str, value: &JsonValue) -> (r:
        Option<String>)
        ensures
            match r {
                Some(c) => operator_cond(d, *self, field@, name@, *value) == Some(c@),
                None => operator_cond(d, *self, field@, name@, *value) is None,
            },
    {
        let op = operator_name(d, name);
        proof {
            reveal_strlit("array_length");
            reveal_strlit("IN");
            reveal_strlit("NOT IN");
        }
        if str_eq(op, "array_length") {
            let mut c = String::new();
            c.append("array_length(");
            c.append(field);
            c.append(", 1) = ");
            c.append(self.encode_json(d, value).as_str());
            assert(c@ =~= "array_length("@ + field@ + ", 1) = "@ + encode_spec(d, *self, *value));
            Some(c)
        } else if str_eq(op, "IN") || str_eq(op, "NOT IN") {
            match value {
                JsonValue::Array(items) => if items.len() > 0 {
                    let list = self.encode_list(d, items);
                    let mut operand = String::new();
                    operand.append("(");
                    operand.append(list.as_str());
                    operand.append(")");
                    assert(operand@ =~= "("@ + encoded_list(d, *self, items@) + ")"@);
                    Some(spaced_text(field, op, operand.as_str()))
                } else {
                    None
                },
                _ => None,
            }
        } else {
            Some(spaced_text(field, op, self.encode_json(d, value).as_str()))
        }
    }

    /// The condition for a text filter on a numeric or temporal column.
    fn ordered_condition(&self, d: Dialect, field: &str, s: &str) -> (r: String)
        ensures
            r@ == ordered_cond(d, *self, field@, s@),
    {
        let n = s.unicode_len();
        if contains_char(s, ',') {
            let i = count_leading(s, ",", false);
            proof {
                reveal_strlit(",");
                lemma_leading_stops(s@, ","@, false);
                assert(s@.contains(','));
                if i == n {
                    let j = choose|j: int| 0 <= j < s@.len() && s@[j] == ',';
                    lemma_leading_prefix(s@, ","@, false, j);
                    assert(","@[0] == ',');
                    assert(","@.contains(','));
                }
            }
            let min_value = self.format_value(d, s.substring_char(0, i));
            let max_value = self.format_value(d, s.substring_char(i + 1, n));
            let mut out = String::new();
            out.append(field);
            out.append(" >= ");
            out.append(min_value.as_str());
            out.append(" AND ");
            out.append(field);
            out.append(" < ");
            out.append(max_value.as_str());
            assert(out@ =~= ordered_cond(d, *self, field@, s@));
            out
        } else {
            let k = count_leading(s, "<>=", true);
            if k > 0 && k < n {
                let value = self.format_value(d, s.substring_char(k, n));
                spaced_text(field, s.substring_char(0, k), value.as_str())
            } else {
                let value = self.format_value(d, s);
                spaced_text(field, "=", value.as_str())
            }
        }
    }

    /// The condition for a text filter on a string column.
    fn text_condition(&self, field: &str, s: &str) -> (r: String)
        ensures
            r@ == text_cond(field@, s@),
    {
        proof {
            reveal_strlit("");
        }
        if str_eq(s, "null") {
            let r = wrap2("(", field, "", "", " = '') IS NOT FALSE");
            assert(r@ =~= text_cond(field@, s@));
            r
        } else if str_eq(s, "notnull") {
            let r = wrap2("(", field, "", "", " = '') IS FALSE");
            assert(r@ =~= text_cond(field@, s@));
            r
        } else {
            let n = s.unicode_len();
            let k = count_leading(s, "!~*", true);
            if k > 0 && k < n {
                let value = escape_string(s.substring_char(k, n));
                spaced_text(field, s.substring_char(0, k), value.as_str())
            } else {
                spaced_text(field, "=", escape_string(s).as_str())
            }
        }
    }

    /// The condition for a text filter on a UUID column.
    fn uuid_condition(&self, field: &str, s: &str) -> (r: String)
        ensures
            r@ == uuid_cond(field@, s@),
    {
        proof {
            reveal_strlit("");
        }
        if str_eq(s, "null") {
            let r = wrap2("", field, "", "", " IS NULL");
            assert(r@ =~= uuid_cond(field@, s@));
            r
        } else if str_eq(s, "notnull") {
            let r = wrap2("", field, "", "", " IS NOT NULL");
            assert(r@ =~= uuid_cond(field@, s@));
            r
        } else if contains_char(s, ',') {
            let list = crate::encode::quote_list(s);
            let r = wrap2("", field, " IN (", list.as_str(), ")");
            assert(r@ =~= uuid_cond(field@, s@));
            r
        } else {
            spaced_text(field, "=", escape_string(s).as_str())
        }
    }

    /// One overlap condition per group.
    fn overlaps_each_text(&self, d: Dialect, field: &str, groups: &Vec<String>) -> (r: Vec<String>)
        ensures
            views(r@) == overlaps_each(d, *self, field@, views(groups@)),
    {
        let mut out: Vec<String> = Vec::new();
        let mut i: usize = 0;
        while i < groups.len()
            invariant
                i <= groups@.len(),
                out@.len() == i,
                forall|j: int|
                    0 <= j < i ==> (#[trigger] out@[j])@ == overlaps_each(
                        d,
                        *self,
                        field@,
                        views(groups@),
                    )[j],
            decreases groups.len() - i,
        {
            let value = self.format_value(d, groups[i].as_str());
            out.push(overlaps_text(d, field, value.as_str()));
            i = i + 1;
        }
        assert(views(out@) =~= overlaps_each(d, *self, field@, views(groups@)));
        out
    }

    /// The condition for a text filter on an array column.
    fn array_condition(&self, d: Dialect, field: &str, s: &str) -> (r: String)
        ensures
            r@ == array_cond(d, *self, field@, s@),
    {
        let groups = split_char(s, ';');
        let conds = self.overlaps_each_text(d, field, &groups);
        join_strings(&conds, " AND ")
    }
}

proof fn lemma_leading_stops(s: Seq<char>, set: Seq<char>, inside: bool)
    ensures
        leading_count(s, set, inside) < s.len() ==> set.contains(s[leading_count(s, set, inside) as int]) != inside,
    decreases s.len(),
{
    if s.len() > 0 && set.contains(s[0]) == inside {
        lemma_leading_stops(s.drop_first(), set, inside);
    }
}

proof fn lemma_leading_prefix(s: Seq<char>, set: Seq<char>, inside: bool, j: int)
    requires
        0 <= j < leading_count(s, set, inside),
    ensures
        set.contains(s[j]) == inside,
    decreases s.len(),
{
    crate::text::lemma_leading_count_bound(s, set, inside);
    if j > 0 {
        lemma_leading_prefix(s.drop_first(), set, inside, j - 1);
        assert(s.drop_first()[j - 1] == s[j]);
    }
}

impl Column {
    /// Compiles a filter value on `field` into a SQL condition. `$in` and
    /// `$nin` with an empty operand add no condition, and a filter object
    /// whose entries add none compiles to the empty string.
    pub fn format_filter(&self, d: Dialect, field: &str, value: &JsonValue) -> (r: String)
        ensures
            r@ == filter_spec(d, *self, field@, *value),
    {
        let k = self.type_kind();
        if let JsonValue::Object(entries) = value {
            if k == TypeKind::JsonMap {
                return contains_text(d, field, self.encode_json(d, value).as_str());
            }
            let mut conds: Vec<String> = Vec::new();
            let mut i: usize = 0;
            while i < entries.len()
                invariant
                    i <= entries@.len(),
                    views(conds@) == operator_conds(d, *self, field@, entries@, i as nat),
                decreases entries.len() - i,
            {
                let c = self.operator_condition(d, field, entries[i].0.as_str(), &entries[i].1);
                let ghost before = views(conds@);
                match c {
                    Some(c) => {
                        conds.push(c);
                        assert(views(conds@) =~= before.push(c@));
                    },
                    None => {},
                }
                i = i + 1;
            }
            if conds.len() == 0 {
                return String::new();
            }
            let joined = join_strings(&conds, " AND ");
            let mut out = String::new();
            out.append("(");
            out.append(joined.as_str());
            out.append(")");
            assert(out@ =~= filter_spec(d, *self, field@, *value));
            return out;
        }
        match k {
            TypeKind::Bool => {
                let v = self.encode_json(d, value);
                let mut out = String::new();
                out.append(field);
                if str_eq(v.as_str(), "TRUE") {
                    out.append(" IS TRUE");
                } else {
                    out.append(" IS NOT TRUE");
                }
                out
            },
            TypeKind::U64 | TypeKind::I64 | TypeKind::U32 | TypeKind::I32 | TypeKind::U16
            | TypeKind::I16 | TypeKind::U8 | TypeKind::I8 | TypeKind::Usize | TypeKind::Isize
            | TypeKind::F64 | TypeKind::F32 | TypeKind::DateTime | TypeKind::Date | TypeKind::Time
            | TypeKind::NaiveDateTime | TypeKind::NaiveDate | TypeKind::NaiveTime => match value {
                JsonValue::Str(s) => self.ordered_condition(d, field, s.as_str()),
                _ => spaced_text(field, "=", self.encode_json(d, value).as_str()),
            },
            TypeKind::Text => match value {
                JsonValue::Str(s) => self.text_condition(field, s.as_str()),
                _ => spaced_text(field, "=", self.encode_json(d, value).as_str()),
            },
            TypeKind::Uuid | TypeKind::OptionUuid => match value {
                JsonValue::Str(s) => self.uuid_condition(field, s.as_str()),
                _ => spaced_text(field, "=", self.encode_json(d, value).as_str()),
            },
            TypeKind::StringArray | TypeKind::UuidArray => match value {
                JsonValue::Str(s) => self.array_condition(d, field, s.as_str()),
                _ => overlaps_text(d, field, self.encode_json(d, value).as_str()),
            },
            TypeKind::JsonMap => match (d, value) {
                (Dialect::Postgres, JsonValue::Str(s)) => spaced_text(
                    field,
                    "@?",
                    escape_string(s.as_str()).as_str(),
                ),
                _ => contains_text(d, field, self.encode_json(d, value).as_str()),
            },
            _ => spaced_text(field, "=", self.encode_json(d, value).as_str()),
        }
    }
}

proof fn lemma_same_list(d: Dialect, col: Column, a: Seq<JsonValue>, b: Seq<JsonValue>)
    requires
        same_items(a, b),
    ensures
        encoded_list(d, col, a) == encoded_list(d, col, b),
{
    assert forall|i: int| 0 <= i < a.len() implies #[trigger] encode_spec(d, col, a[i]) == encode_spec(d, col, b[i]) by {
        lemma_same_content(a[i], b[i]);
    }
    assert(a.map_values(|x: JsonValue| encode_spec(d, col, x)) =~= b.map_values(
        |x: JsonValue| encode_spec(d, col, x),
    ));
}

proof fn lemma_same_operator_conds(
    d: Dialect,
    col: Column,
    field: Seq<char>,
    a: Seq<(String, JsonValue)>,
    b: Seq<(String, JsonValue)>,
    n: nat,
)
    requires
        same_entries(a, b),
        n <= a.len(),
    ensures
        operator_conds(d, col, field, a, n) == operator_conds(d, col, field, b, n),
    decreases n,
{
    if n > 0 {
        lemma_same_operator_conds(d, col, field, a, b, (n - 1) as nat);
        let (x, y) = (a[n - 1].1, b[n - 1].1);
        assert(a[n - 1].0@ == b[n - 1].0@ && view_of(x) == view_of(y));
        lemma_same_content(x, y);
        lemma_same_parts(x, y);
        if x is Array {
            lemma_same_list(d, col, x->Array_0@, y->Array_0@);
        }
        assert(operator_cond(d, col, field, a[n - 1].0@, x) == operator_cond(d, col, field, b[n - 1].0@, y));
    }
}

/// Filter values with the same content compile to the same condition.
pub proof fn lemma_same_filter(d: Dialect, col: Column, field: Seq<char>, a: JsonValue, b: JsonValue)
    requires
        view_of(a) == view_of(b),
    ensures
        filter_spec(d, col, field, a) == filter_spec(d, col, field, b),
{
    lemma_same_content(a, b);
    lemma_same_parts(a, b);
    assert(encode_spec(d, col, a) == encode_spec(d, col, b));
    if a is Object {
        let (x, y) = (a->Object_0@, b->Object_0@);
        lemma_same_operator_conds(d, col, field, x, y, x.len());
    }
}

} // verus!
