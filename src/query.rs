//! Query and mutation documents and the SQL fragments they compile to.
use crate::column::{Column, Dialect};
use crate::encode::encode_spec;
use crate::column::TypeKind;
use crate::fetch::{same_entries, view_of};
use crate::filter::{lemma_same_filter, filter_spec, operator_cond, operator_conds, operator_of};
use crate::number::{decimal, u64_text};
use crate::text::{join_seq, join_strings, push_char, split_char, split_seq, str_eq, views};
use crate::value::{find_entry, lookup, JsonValue};
use vstd::prelude::*;

verus! {

/// What to select, filter, sort and paginate.
pub struct Query {
    /// The projection; empty selects every column.
    pub fields: Vec<String>,
    /// Filter values keyed by field name.
    pub filters: Vec<(String, JsonValue)>,
    /// The field to sort by; empty for no order.
    pub sort_by: String,
    pub descending: bool,
    pub offset: u64,
    pub limit: u64,
}

/// The fields to assign in an update.
pub struct Mutation {
    pub updates: Vec<(String, JsonValue)>,
}

/// The first column named `name`.
pub open spec fn find_column(cols: Seq<Column>, name: Seq<char>) -> Option<Column>
    decreases cols.len(),
{
    if cols.len() == 0 {
        None
    } else if cols[0].name@ == name {
        Some(cols[0])
    } else {
        find_column(cols.drop_first(), name)
    }
}

/// Finds the index of the first column named `name`.
pub fn column_index(cols: &Vec<Column>, name: &str) -> (r: Option<usize>)
    ensures
        match r {
            Some(i) => i < cols@.len() && find_column(cols@, name@) == Some(cols@[i as int]),
            None => find_column(cols@, name@) is None,
        },
{
    let mut i: usize = 0;
    assert(cols@.subrange(0, cols@.len() as int) =~= cols@);
    while i < cols.len()
        invariant
            i <= cols@.len(),
            find_column(cols@, name@) == find_column(cols@.subrange(i as int, cols@.len() as int), name@),
        decreases cols.len() - i,
    {
        let ghost rest = cols@.subrange(i as int, cols@.len() as int);
        assert(rest.drop_first() =~= cols@.subrange(i + 1, cols@.len() as int));
        if str_eq(cols[i].name.as_str(), name) {
            return Some(i);
        }
        i = i + 1;
    }
    None
}

/// A field reference quoted for the dialect, each dotted part on its own.
pub open spec fn field_spec(d: Dialect, field: Seq<char>) -> Seq<char> {
    let q = match d {
        Dialect::Postgres => '"',
        Dialect::MySql => '`',
    };
    join_seq(split_seq(field, '.').map_values(|p: Seq<char>| seq![q] + p + seq![q]), "."@)
}

/// The conditions of the first `n` filters whose keys name columns, leaving
/// out those that compile to nothing.
pub open spec fn filter_conds(
    d: Dialect,
    cols: Seq<Column>,
    filters: Seq<(String, JsonValue)>,
    n: nat,
) -> Seq<Seq<char>>
    decreases n,
{
    if n == 0 || n > filters.len() {
        Seq::empty()
    } else {
        let init = filter_conds(d, cols, filters, (n - 1) as nat);
        let (key, value) = filters[n - 1];
        match find_column(cols, key@) {
            Some(col) => {
                let c = filter_spec(d, col, key@, value);
                if c.len() == 0 {
                    init
                } else {
                    init.push(c)
                }
            },
            None => init,
        }
    }
}

/// The `WHERE` clause of the filters, or the empty string where no condition remains.
pub open spec fn where_spec(d: Dialect, cols: Seq<Column>, filters: Seq<(String, JsonValue)>) -> Seq<
    char,
> {
    let conds = filter_conds(d, cols, filters, filters.len());
    if conds.len() == 0 {
        Seq::empty()
    } else {
        "WHERE "@ + join_seq(conds, " AND "@)
    }
}

/// The assignments of the first `n` updates whose keys name columns.
pub open spec fn assignments(d: Dialect, cols: Seq<Column>, updates: Seq<(String, JsonValue)>, n: nat) -> Seq<
    Seq<char>,
>
    decreases n,
{
    if n == 0 || n > updates.len() {
        Seq::empty()
    } else {
        let init = assignments(d, cols, updates, (n - 1) as nat);
        let (key, value) = updates[n - 1];
        match find_column(cols, key@) {
            Some(col) => init.push(key@ + " = "@ + encode_spec(d, col, value)),
            None => init,
        }
    }
}

/// Quotes a field reference for the dialect.
pub fn format_field(d: Dialect, field: &str) -> (r: String)
    ensures
        r@ == field_spec(d, field@),
{
    let q = match d {
        Dialect::Postgres => '"',
        Dialect::MySql => '`',
    };
    let parts = split_char(field, '.');
    let mut quoted: Vec<String> = Vec::new();
    let mut i: usize = 0;
    while i < parts.len()
        invariant
            i <= parts@.len(),
            quoted@.len() == i,
            forall|j: int| 0 <= j < i ==> (#[trigger] quoted@[j])@ == seq![q] + parts@[j]@ + seq![q],
        decreases parts.len() - i,
    {
        let mut p = String::new();
        push_char(&mut p, q);
        p.append(parts[i].as_str());
        push_char(&mut p, q);
        quoted.push(p);
        i = i + 1;
    }
    assert(views(quoted@) =~= split_seq(field@, '.').map_values(|p: Seq<char>| seq![q] + p + seq![q]));
    join_strings(&quoted, ".")
}

/// The placeholder for the `n`-th bound parameter.
pub open spec fn placeholder_spec(d: Dialect, n: u64) -> Seq<char> {
    match d {
        Dialect::Postgres => "$"@ + decimal(n as nat),
        Dialect::MySql => "?"@,
    }
}

/// The placeholder for the `n`-th bound parameter.
pub fn placeholder(d: Dialect, n: u64) -> (r: String)
    ensures
        r@ == placeholder_spec(d, n),
{
    match d {
        Dialect::Postgres => {
            let mut out = String::new();
            out.append("$");
            out.append(u64_text(n).as_str());
            out
        },
        Dialect::MySql => "?".to_owned(),
    }
}

impl Query {
    /// The `LIMIT` clause: the offset is left out where the filters already
    /// constrain the sort field, for continuation from a cursor.
    pub open spec fn pagination_spec(&self, d: Dialect) -> Seq<char> {
        if lookup(self.filters@, self.sort_by@) is Some {
            "LIMIT "@ + decimal(self.limit as nat)
        } else {
            match d {
                Dialect::Postgres => "LIMIT "@ + decimal(self.limit as nat) + " OFFSET "@ + decimal(
                    self.offset as nat,
                ),
                Dialect::MySql => "LIMIT "@ + decimal(self.offset as nat) + ", "@ + decimal(
                    self.limit as nat,
                ),
            }
        }
    }

    /// The `ORDER BY` clause, or the empty string without a sort field.
    pub open spec fn sort_spec(&self) -> Seq<char> {
        if self.sort_by@.len() == 0 {
            Seq::empty()
        } else {
            "ORDER BY "@ + self.sort_by@ + if self.descending {
                " DESC"@
            } else {
                " ASC"@
            }
        }
    }

    /// The projection: `*` without fields, else the quoted fields.
    pub open spec fn fields_spec(&self, d: Dialect) -> Seq<char> {
        if self.fields@.len() == 0 {
            "*"@
        } else {
            join_seq(views(self.fields@).map_values(|f: Seq<char>| field_spec(d, f)), ", "@)
        }
    }

    /// The `LIMIT` clause.
    pub fn format_pagination(&self, d: Dialect) -> (r: String)
        ensures
            r@ == self.pagination_spec(d),
    {
        let limit = u64_text(self.limit);
        let offset = u64_text(self.offset);
        let mut out = String::new();
        out.append("LIMIT ");
        if find_entry(&self.filters, self.sort_by.as_str()).is_some() {
            out.append(limit.as_str());
        } else {
            match d {
                Dialect::Postgres => {
                    out.append(limit.as_str());
                    out.append(" OFFSET ");
                    out.append(offset.as_str());
                },
                Dialect::MySql => {
                    out.append(offset.as_str());
                    out.append(", ");
                    out.append(limit.as_str());
                },
            }
        }
        assert(out@ =~= self.pagination_spec(d));
        out
    }

    /// The `ORDER BY` clause.
    pub fn format_sort(&self) -> (r: String)
        ensures
            r@ == self.sort_spec(),
    {
        if self.sort_by.as_str().unicode_len() == 0 {
            return String::new();
        }
        let mut out = String::new();
        out.append("ORDER BY ");
        out.append(self.sort_by.as_str());
        if self.descending {
            out.append(" DESC");
        } else {
            out.append(" ASC");
        }
        out
    }

    /// The projection.
    pub fn format_fields(&self, d: Dialect) -> (r: String)
        ensures
            r@ == self.fields_spec(d),
    {
        if self.fields.len() == 0 {
            return "*".to_owned();
        }
        let mut parts: Vec<String> = Vec::new();
        let mut i: usize = 0;
        while i < self.fields.len()
            invariant
                i <= self.fields@.len(),
                parts@.len() == i,
                forall|j: int| 0 <= j < i ==> (#[trigger] parts@[j])@ == field_spec(d, self.fields@[j]@),
            decreases self.fields.len() - i,
        {
            parts.push(format_field(d, self.fields[i].as_str()));
            i = i + 1;
        }
        assert(views(parts@) =~= views(self.fields@).map_values(|f: Seq<char>| field_spec(d, f)));
        join_strings(&parts, ", ")
    }

    /// The `WHERE` clause over the columns.
    pub fn format_filter(&self, d: Dialect, cols: &Vec<Column>) -> (r: String)
        ensures
            r@ == where_spec(d, cols@, self.filters@),
    {
        let mut conds: Vec<String> = Vec::new();
        let mut i: usize = 0;
        while i < self.filters.len()
            invariant
                i <= self.filters@.len(),
                views(conds@) == filter_conds(d, cols@, self.filters@, i as nat),
            decreases self.filters.len() - i,
        {
            let key = self.filters[i].0.as_str();
            let ghost before = views(conds@);
            match column_index(cols, key) {
                Some(k) => {
                    let c = cols[k].format_filter(d, key, &self.filters[i].1);
                    if c.as_str().unicode_len() > 0 {
                        conds.push(c);
                        assert(views(conds@) =~= before.push(c@));
                    }
                },
                None => {},
            }
            i = i + 1;
        }
        if conds.len() == 0 {
            return String::new();
        }
        let mut out = String::new();
        out.append("WHERE ");
        out.append(join_strings(&conds, " AND ").as_str());
        assert(out@ =~= where_spec(d, cols@, self.filters@));
        out
    }
}

impl Mutation {
    /// The `SET` clause over the columns; keys that name no column are left out.
    pub open spec fn update_spec(&self, d: Dialect, cols: Seq<Column>) -> Seq<char> {
        "SET "@ + join_seq(assignments(d, cols, self.updates@, self.updates@.len()), ", "@)
    }

    /// The `SET` clause over the columns.
    pub fn format_update(&self, d: Dialect, cols: &Vec<Column>) -> (r: String)
        ensures
            r@ == self.update_spec(d, cols@),
    {
        let mut parts: Vec<String> = Vec::new();
        let mut i: usize = 0;
        while i < self.updates.len()
            invariant
                i <= self.updates@.len(),
                views(parts@) == assignments(d, cols@, self.updates@, i as nat),
            decreases self.updates.len() - i,
        {
            let key = self.updates[i].0.as_str();
            let ghost before = views(parts@);
            match column_index(cols, key) {
                Some(k) => {
                    let mut a = String::new();
                    a.append(key);
                    a.append(" = ");
                    a.append(cols[k].encode_json(d, &self.updates[i].1).as_str());
                    parts.push(a);
                    assert(views(parts@) =~= before.push(a@));
                },
                None => {},
            }
            i = i + 1;
        }
        let mut out = String::new();
        out.append("SET ");
        out.append(join_strings(&parts, ", ").as_str());
        assert(out@ =~= self.update_spec(d, cols@));
        out
    }
}

proof fn lemma_in_operator(d: Dialect, name: Seq<char>)
    requires
        name == "$in"@ || name == "$nin"@,
    ensures
        operator_of(d, name) == "IN"@ || operator_of(d, name) == "NOT IN"@,
        operator_of(d, name) != "array_length"@,
{
    reveal_strlit("$eq");
    reveal_strlit("$ne");
    reveal_strlit("$lt");
    reveal_strlit("$lte");
    reveal_strlit("$gt");
    reveal_strlit("$gte");
    reveal_strlit("$in");
    reveal_strlit("$nin");
    reveal_strlit("$all");
    reveal_strlit("$size");
    reveal_strlit("=");
    reveal_strlit("IN");
    reveal_strlit("NOT IN");
    reveal_strlit("array_length");
    assert("$in"@[1] != "$eq"@[1]);
    assert("$in"@[1] != "$ne"@[1]);
    assert("$in"@[1] != "$lt"@[1]);
    assert("$in"@.len() != "$lte"@.len());
    assert("$in"@[1] != "$gt"@[1]);
    assert("$in"@.len() != "$gte"@.len());
    assert("$in"@.len() != "$all"@.len());
    assert("$in"@.len() != "$size"@.len());
    assert("$in"@.len() != "$nin"@.len());
    assert("$nin"@.len() != "$eq"@.len());
    assert("$nin"@.len() != "$ne"@.len());
    assert("$nin"@.len() != "$lt"@.len());
    assert("$nin"@[1] != "$lte"@[1]);
    assert("$nin"@.len() != "$gt"@.len());
    assert("$nin"@[1] != "$gte"@[1]);
    assert("$nin"@[1] != "$all"@[1]);
    assert("$nin"@.len() != "$size"@.len());
    assert("$nin"@.len() != "$in"@.len());
    assert("IN"@.len() != "array_length"@.len());
    assert("NOT IN"@.len() != "array_length"@.len());
}

/// An operator entry that makes every condition of a filter object vacuous:
/// `$in` or `$nin` with an empty list.
pub open spec fn is_empty_membership(e: (String, JsonValue)) -> bool {
    (e.0@ == "$in"@ || e.0@ == "$nin"@) && e.1 is Array && e.1->Array_0@.len() == 0
}

proof fn lemma_no_operator_conds(
    d: Dialect,
    col: Column,
    field: Seq<char>,
    entries: Seq<(String, JsonValue)>,
    n: nat,
)
    requires
        n <= entries.len(),
        forall|i: int| 0 <= i < entries.len() ==> is_empty_membership(#[trigger] entries[i]),
    ensures
        operator_conds(d, col, field, entries, n).len() == 0,
    decreases n,
{
    if n > 0 {
        lemma_no_operator_conds(d, col, field, entries, (n - 1) as nat);
        assert(is_empty_membership(entries[n - 1]));
        lemma_in_operator(d, entries[n - 1].0@);
        assert(operator_cond(d, col, field, entries[n - 1].0@, entries[n - 1].1) is None);
    }
}

proof fn lemma_filter_conds_prefix(
    d: Dialect,
    cols: Seq<Column>,
    filters: Seq<(String, JsonValue)>,
    e: (String, JsonValue),
    n: nat,
)
    requires
        n <= filters.len(),
    ensures
        filter_conds(d, cols, filters.push(e), n) == filter_conds(d, cols, filters, n),
    decreases n,
{
    if n > 0 {
        lemma_filter_conds_prefix(d, cols, filters, e, (n - 1) as nat);
        assert(filters.push(e)[n - 1] == filters[n - 1]);
    }
}

/// A filter whose operators are all `$in` or `$nin` with an empty list adds
/// no condition: the `WHERE` clause is the one without that filter.
pub proof fn lemma_empty_membership_dropped(
    d: Dialect,
    cols: Seq<Column>,
    filters: Seq<(String, JsonValue)>,
    key: String,
    entries: Vec<(String, JsonValue)>,
)
    requires
        forall|i: int| 0 <= i < entries@.len() ==> is_empty_membership(#[trigger] entries@[i]),
        find_column(cols, key@) matches Some(c) ==> c.kind() != TypeKind::JsonMap,
    ensures
        where_spec(d, cols, filters.push((key, JsonValue::Object(entries)))) == where_spec(
            d,
            cols,
            filters,
        ),
{
    let e = (key, JsonValue::Object(entries));
    let all = filters.push(e);
    lemma_filter_conds_prefix(d, cols, filters, e, filters.len());
    if let Some(c) = find_column(cols, key@) {
        lemma_no_operator_conds(d, c, key@, entries@, entries@.len());
        assert(filter_spec(d, c, key@, JsonValue::Object(entries)).len() == 0);
    }
    assert(all[all.len() - 1] == e);
    assert(filter_conds(d, cols, all, all.len()) == filter_conds(d, cols, filters, filters.len()));
}

/// The strings that a value lists: the parts of a comma-separated string or
/// the strings of an array.
pub open spec fn str_list(v: JsonValue) -> Option<Seq<Seq<char>>> {
    match v {
        JsonValue::Str(_) | JsonValue::Array(_) => Some(crate::fetch::value_keys(v)),
        _ => None,
    }
}

/// The full-text search condition of a filter with `$fields`, `$search` and
/// an optional `$language` (English by default).
pub open spec fn text_search_spec(d: Dialect, filter: Seq<(String, JsonValue)>) -> Option<Seq<char>> {
    let fields = match lookup(filter, "$fields"@) {
        Some(v) => str_list(v),
        None => None,
    };
    let search = match lookup(filter, "$search"@) {
        Some(JsonValue::Str(s)) => Some(s@),
        _ => None,
    };
    let lang = match lookup(filter, "$language"@) {
        Some(JsonValue::Str(s)) => s@,
        _ => "english"@,
    };
    match (fields, search) {
        (Some(f), Some(q)) => Some(
            match d {
                Dialect::Postgres => "to_tsvector('"@ + lang + "', "@ + join_seq(f, " || ' ' || "@)
                    + ") @@ websearch_to_tsquery('"@ + lang + "', "@ + crate::text::quoted(q) + ")"@,
                Dialect::MySql => "match("@ + join_seq(f, ","@) + ") against("@ + crate::text::quoted(q)
                    + ")"@,
            },
        ),
        _ => None,
    }
}

/// Compiles a full-text search filter; `None` without `$fields` or `$search`.
pub fn parse_text_search(d: Dialect, filter: &Vec<(String, JsonValue)>) -> (r: Option<String>)
    ensures
        match r {
            Some(t) => text_search_spec(d, filter@) == Some(t@),
            None => text_search_spec(d, filter@) is None,
        },
{
    let fields = match find_entry(filter, "$fields") {
        Some(k) => match &filter[k].1 {
            JsonValue::Str(_) | JsonValue::Array(_) => crate::fetch::keys_of(&filter[k].1),
            _ => return None,
        },
        None => return None,
    };
    let search = match find_entry(filter, "$search") {
        Some(k) => match &filter[k].1 {
            JsonValue::Str(s) => s.as_str(),
            _ => return None,
        },
        None => return None,
    };
    let lang: &str = match find_entry(filter, "$language") {
        Some(k) => match &filter[k].1 {
            JsonValue::Str(s) => s.as_str(),
            _ => "english",
        },
        None => "english",
    };
    let mut out = String::new();
    match d {
        Dialect::Postgres => {
            out.append("to_tsvector('");
            out.append(lang);
            out.append("', ");
            out.append(join_strings(&fields, " || ' ' || ").as_str());
            out.append(") @@ websearch_to_tsquery('");
            out.append(lang);
            out.append("', ");
            out.append(crate::text::escape_string(search).as_str());
            out.append(")");
        },
        Dialect::MySql => {
            out.append("match(");
            out.append(join_strings(&fields, ",").as_str());
            out.append(") against(");
            out.append(crate::text::escape_string(search).as_str());
            out.append(")");
        },
    }
    assert(out@ =~= text_search_spec(d, filter@)->0);
    Some(out)
}

/// Two queries with the same content: the same fields, filters (keys and
/// values compared by content), sort and pagination.
pub open spec fn same_query(a: Query, b: Query) -> bool {
    &&& views(a.fields@) == views(b.fields@)
    &&& same_entries(a.filters@, b.filters@)
    &&& a.sort_by@ == b.sort_by@
    &&& a.descending == b.descending
    &&& a.offset == b.offset
    &&& a.limit == b.limit
}

proof fn lemma_same_lookup(a: Seq<(String, JsonValue)>, b: Seq<(String, JsonValue)>, key: Seq<char>)
    requires
        same_entries(a, b),
    ensures
        (lookup(a, key) is Some) == (lookup(b, key) is Some),
    decreases a.len(),
{
    if a.len() > 0 {
        assert(a[0].0@ == b[0].0@);
        assert(same_entries(a.drop_first(), b.drop_first())) by {
            assert forall|i: int| 0 <= i < a.drop_first().len() implies (#[trigger] a.drop_first()[i]).0@
                == b.drop_first()[i].0@ && view_of(a.drop_first()[i].1) == view_of(b.drop_first()[i].1) by {
                assert(a.drop_first()[i] == a[i + 1] && b.drop_first()[i] == b[i + 1]);
            }
        }
        lemma_same_lookup(a.drop_first(), b.drop_first(), key);
    }
}

proof fn lemma_same_filter_conds(
    d: Dialect,
    cols: Seq<Column>,
    a: Seq<(String, JsonValue)>,
    b: Seq<(String, JsonValue)>,
    n: nat,
)
    requires
        same_entries(a, b),
        n <= a.len(),
    ensures
        filter_conds(d, cols, a, n) == filter_conds(d, cols, b, n),
    decreases n,
{
    if n > 0 {
        lemma_same_filter_conds(d, cols, a, b, (n - 1) as nat);
        assert(a[n - 1].0@ == b[n - 1].0@ && view_of(a[n - 1].1) == view_of(b[n - 1].1));
        if let Some(c) = find_column(cols, a[n - 1].0@) {
            lemma_same_filter(d, c, a[n - 1].0@, a[n - 1].1, b[n - 1].1);
        }
    }
}

impl Query {
    /// Queries with the same content compile to the same clauses.
    pub proof fn lemma_same_clauses(a: Query, b: Query, d: Dialect, cols: Seq<Column>)
        requires
            same_query(a, b),
        ensures
            a.fields_spec(d) == b.fields_spec(d),
            a.sort_spec() == b.sort_spec(),
            a.pagination_spec(d) == b.pagination_spec(d),
            where_spec(d, cols, a.filters@) == where_spec(d, cols, b.filters@),
    {
        lemma_same_lookup(a.filters@, b.filters@, a.sort_by@);
        lemma_same_filter_conds(d, cols, a.filters@, b.filters@, a.filters@.len());
    }
}

/// The entries of a filter object without its `$in` and `$nin` entries that
/// have an empty list.
pub open spec fn drop_empty_membership(e: Seq<(String, JsonValue)>) -> Seq<(String, JsonValue)>
    decreases e.len(),
{
    if e.len() == 0 {
        e
    } else {
        let init = drop_empty_membership(e.drop_last());
        if is_empty_membership(e.last()) {
            init
        } else {
            init.push(e.last())
        }
    }
}

proof fn lemma_operator_conds_prefix(
    d: Dialect,
    col: Column,
    field: Seq<char>,
    s: Seq<(String, JsonValue)>,
    x: (String, JsonValue),
    k: nat,
)
    requires
        k <= s.len(),
    ensures
        operator_conds(d, col, field, s.push(x), k) == operator_conds(d, col, field, s, k),
    decreases k,
{
    if k > 0 {
        lemma_operator_conds_prefix(d, col, field, s, x, (k - 1) as nat);
        assert(s.push(x)[k - 1] == s[k - 1]);
    }
}

proof fn lemma_operator_conds_dropped(d: Dialect, col: Column, field: Seq<char>, e: Seq<(String, JsonValue)>)
    ensures
        operator_conds(d, col, field, e, e.len()) == operator_conds(
            d,
            col,
            field,
            drop_empty_membership(e),
            drop_empty_membership(e).len(),
        ),
    decreases e.len(),
{
    if e.len() > 0 {
        let init = e.drop_last();
        let x = e.last();
        assert(init.push(x) =~= e);
        lemma_operator_conds_dropped(d, col, field, init);
        lemma_operator_conds_prefix(d, col, field, init, x, init.len());
        let dd = drop_empty_membership(init);
        if is_empty_membership(x) {
            lemma_in_operator(d, x.0@);
        } else {
            lemma_operator_conds_prefix(d, col, field, dd, x, dd.len());
            assert(dd.push(x)[dd.len() as int] == x);
        }
    }
}

/// `$in` and `$nin` entries with an empty list are dropped: a filter object
/// compiles to the same condition as the object without them.
pub proof fn lemma_empty_membership_ignored(
    d: Dialect,
    col: Column,
    field: Seq<char>,
    o: Vec<(String, JsonValue)>,
    o2: Vec<(String, JsonValue)>,
)
    requires
        col.kind() != TypeKind::JsonMap,
        o2@ == drop_empty_membership(o@),
    ensures
        filter_spec(d, col, field, JsonValue::Object(o)) == filter_spec(d, col, field, JsonValue::Object(o2)),
{
    lemma_operator_conds_dropped(d, col, field, o@);
}

} // verus!
