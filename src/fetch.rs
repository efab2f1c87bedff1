//! Association splicing: one extra query fetches every referenced entity,
//! and the references in the documents are replaced in memory.
use crate::column::{Column, Dialect};
use crate::encode::{encode_items, encode_spec};
use crate::json::{json_entries, json_items, json_text};
use crate::schema::Schema;
use crate::query::{where_spec, Query};
use crate::text::{split_char, split_seq, views};
use crate::value::{find_entry, lookup, JsonValue};
use vstd::prelude::*;

verus! {

/// The content of a value, with strings as character sequences.
pub enum JsonView {
    Null,
    Bool(bool),
    Number(Seq<char>),
    Str(Seq<char>),
    Array(Seq<JsonView>),
    Object(Seq<(Seq<char>, JsonView)>),
}

/// The content of `v`.
pub open spec fn view_of(v: JsonValue) -> JsonView
    decreases v, 0nat,
{
    match v {
        JsonValue::Null => JsonView::Null,
        JsonValue::Bool(b) => JsonView::Bool(b),
        JsonValue::Number(t) => JsonView::Number(t@),
        JsonValue::Str(s) => JsonView::Str(s@),
        JsonValue::Array(items) => JsonView::Array(view_items(items@, items@.len())),
        JsonValue::Object(entries) => JsonView::Object(view_entries(entries@, entries@.len())),
    }
}

/// The contents of the first `n` items.
pub open spec fn view_items(items: Seq<JsonValue>, n: nat) -> Seq<JsonView>
    decreases items, n,
{
    if n == 0 || n > items.len() {
        Seq::empty()
    } else {
        view_items(items, (n - 1) as nat).push(view_of(items[n - 1]))
    }
}

/// The contents of the first `n` entries.
pub open spec fn view_entries(entries: Seq<(String, JsonValue)>, n: nat) -> Seq<(Seq<char>, JsonView)>
    decreases entries, n,
{
    if n == 0 || n > entries.len() {
        Seq::empty()
    } else {
        view_entries(entries, (n - 1) as nat).push((entries[n - 1].0@, view_of(entries[n - 1].1)))
    }
}

/// Copies a value, keeping its content.
pub fn copy_value(v: &JsonValue) -> (r: JsonValue)
    ensures
        view_of(r) == view_of(*v),
    decreases v,
{
    match v {
        JsonValue::Null => JsonValue::Null,
        JsonValue::Bool(b) => JsonValue::Bool(*b),
        JsonValue::Number(t) => JsonValue::Number(t.clone()),
        JsonValue::Str(s) => JsonValue::Str(s.clone()),
        JsonValue::Array(items) => {
            let mut out: Vec<JsonValue> = Vec::new();
            let mut i: usize = 0;
            assert forall|j: int| 0 <= j < items@.len() implies decreases_to!(*v => #[trigger] items@[j]) by {
                assert(decreases_to!(*v => v->Array_0));
                assert(decreases_to!(v->Array_0 => v->Array_0@));
                assert(decreases_to!(v->Array_0@ => v->Array_0@[j]));
            }
            while i < items.len()
                invariant
                    i <= items@.len(),
                    out@.len() == i,
                    forall|j: int| 0 <= j < items@.len() ==> decreases_to!(*v => #[trigger] items@[j]),
                    view_items(out@, i as nat) == view_items(items@, i as nat),
                decreases items.len() - i,
            {
                let c = copy_value(&items[i]);
                let ghost before = out@;
                out.push(c);
                proof {
                    lemma_view_items_prefix(before, out@, i as nat);
                }
                i = i + 1;
            }
            JsonValue::Array(out)
        },
        JsonValue::Object(entries) => {
            let mut out: Vec<(String, JsonValue)> = Vec::new();
            let mut i: usize = 0;
            assert forall|j: int| 0 <= j < entries@.len() implies decreases_to!(*v => #[trigger] entries@[j].1) by {
                assert(decreases_to!(*v => v->Object_0));
                assert(decreases_to!(v->Object_0 => v->Object_0@));
                assert(decreases_to!(v->Object_0@ => v->Object_0@[j]));
                assert(decreases_to!(v->Object_0@[j] => v->Object_0@[j].1));
            }
            while i < entries.len()
                invariant
                    i <= entries@.len(),
                    out@.len() == i,
                    forall|j: int| 0 <= j < entries@.len() ==> decreases_to!(*v => #[trigger] entries@[j].1),
                    view_entries(out@, i as nat) == view_entries(entries@, i as nat),
                decreases entries.len() - i,
            {
                let c = copy_value(&entries[i].1);
                let ghost before = out@;
                out.push((entries[i].0.clone(), c));
                proof {
                    lemma_view_entries_prefix(before, out@, i as nat);
                }
                i = i + 1;
            }
            JsonValue::Object(out)
        },
    }
}

pub(crate) proof fn lemma_view_items_prefix(a: Seq<JsonValue>, b: Seq<JsonValue>, n: nat)
    requires
        n <= a.len(),
        n < b.len(),
        forall|j: int| 0 <= j < n ==> a[j] == b[j],
    ensures
        view_items(a, n) == view_items(b, n),
    decreases n,
{
    if n > 0 {
        lemma_view_items_prefix(a, b, (n - 1) as nat);
    }
}

proof fn lemma_view_entries_prefix(a: Seq<(String, JsonValue)>, b: Seq<(String, JsonValue)>, n: nat)
    requires
        n <= a.len(),
        n < b.len(),
        forall|j: int| 0 <= j < n ==> a[j] == b[j],
    ensures
        view_entries(a, n) == view_entries(b, n),
    decreases n,
{
    if n > 0 {
        lemma_view_entries_prefix(a, b, (n - 1) as nat);
    }
}

/// The string items among the first `n` items.
pub open spec fn string_items(items: Seq<JsonValue>, n: nat) -> Seq<Seq<char>>
    decreases n,
{
    if n == 0 || n > items.len() {
        Seq::empty()
    } else {
        let init = string_items(items, (n - 1) as nat);
        match items[n - 1] {
            JsonValue::Str(s) => init.push(s@),
            _ => init,
        }
    }
}

/// The keys that a reference value holds: a comma-separated string, or the
/// strings of an array.
pub open spec fn value_keys(v: JsonValue) -> Seq<Seq<char>> {
    match v {
        JsonValue::Str(s) => split_seq(s@, ','),
        JsonValue::Array(items) => string_items(items@, items@.len()),
        _ => Seq::empty(),
    }
}

/// The keys in the reference fields `cols` of a document, field by field.
pub open spec fn row_keys(row: Seq<(String, JsonValue)>, cols: Seq<Seq<char>>, n: nat) -> Seq<Seq<char>>
    decreases n,
{
    if n == 0 || n > cols.len() {
        Seq::empty()
    } else {
        row_keys(row, cols, (n - 1) as nat) + match lookup(row, cols[n - 1]) {
            Some(v) => value_keys(v),
            None => Seq::empty(),
        }
    }
}

/// The keys in the reference fields of the first `n` documents.
pub open spec fn all_keys(rows: Seq<Vec<(String, JsonValue)>>, cols: Seq<Seq<char>>, n: nat) -> Seq<Seq<char>>
    decreases n,
{
    if n == 0 || n > rows.len() {
        Seq::empty()
    } else {
        all_keys(rows, cols, (n - 1) as nat) + row_keys(rows[n - 1]@, cols, cols.len())
    }
}

/// The keys that a reference value holds.
pub(crate) fn keys_of(v: &JsonValue) -> (r: Vec<String>)
    ensures
        views(r@) == value_keys(*v),
{
    match v {
        JsonValue::Str(s) => split_char(s.as_str(), ','),
        JsonValue::Array(items) => {
            let mut out: Vec<String> = Vec::new();
            let mut i: usize = 0;
            while i < items.len()
                invariant
                    i <= items@.len(),
                    views(out@) == string_items(items@, i as nat),
                decreases items.len() - i,
            {
                let ghost before = views(out@);
                if let JsonValue::Str(s) = &items[i] {
                    out.push(s.clone());
                    assert(views(out@) =~= before.push(s@));
                }
                i = i + 1;
            }
            out
        },
        _ => Vec::new(),
    }
}

/// Appends `b` to `a`.
fn append_strings(a: &mut Vec<String>, b: Vec<String>)
    ensures
        views(final(a)@) == views(old(a)@) + views(b@),
{
    let mut i: usize = 0;
    while i < b.len()
        invariant
            i <= b@.len(),
            views(a@) == views(old(a)@) + views(b@).subrange(0, i as int),
        decreases b.len() - i,
    {
        let ghost before = views(a@);
        a.push(b[i].clone());
        assert(views(a@) =~= before.push(b@[i as int]@));
        i = i + 1;
        assert(views(a@) =~= views(old(a)@) + views(b@).subrange(0, i as int));
    }
    assert(views(b@).subrange(0, b@.len() as int) =~= views(b@));
}

/// Collects the keys that the reference fields `cols` of the documents hold,
/// document by document and field by field.
pub fn collect_keys(data: &Vec<Vec<(String, JsonValue)>>, cols: &Vec<String>) -> (r: Vec<String>)
    ensures
        views(r@) == all_keys(data@, views(cols@), data@.len()),
{
    let mut out: Vec<String> = Vec::new();
    let mut i: usize = 0;
    while i < data.len()
        invariant
            i <= data@.len(),
            views(out@) == all_keys(data@, views(cols@), i as nat),
        decreases data.len() - i,
    {
        let row = &data[i];
        let ghost outer = views(out@);
        let mut j: usize = 0;
        while j < cols.len()
            invariant
                i < data@.len(),
                *row == data@[i as int],
                j <= cols@.len(),
                views(out@) == outer + row_keys(row@, views(cols@), j as nat),
            decreases cols.len() - j,
        {
            let ghost before = views(out@);
            match find_entry(row, cols[j].as_str()) {
                Some(k) => {
                    let keys = keys_of(&row[k].1);
                    append_strings(&mut out, keys);
                },
                None => {},
            }
            j = j + 1;
            assert(views(cols@)[j - 1] == cols@[j - 1]@);
            assert(views(out@) =~= outer + row_keys(row@, views(cols@), j as nat));
        }
        i = i + 1;
    }
    out
}

impl Schema {
    /// The statement that fetches every referenced entity at once. Where keys
    /// were collected, the query first gets a `$in` filter on the primary key.
    pub fn fetch_query(&self, d: Dialect, q: &mut Query, keys: &Vec<String>) -> (r: String)
        ensures
            keys@.len() == 0 ==> final(q).filters@ == old(q).filters@,
            keys@.len() > 0 ==> final(q).filters@.drop_last() == old(q).filters@ && ({
                let (k, v) = final(q).filters@.last();
                &&& k@ == self.primary_key_name@
                &&& view_of(v) == JsonView::Object(
                    seq![("$in"@, JsonView::Array(keys@.map_values(|s: String| JsonView::Str(s@))))],
                )
            }),
            final(q).fields == old(q).fields,
            r@ == "SELECT "@ + final(q).fields_spec(d) + " FROM "@ + self.table_name@ + " "@ + where_spec(
                d,
                self.columns@,
                final(q).filters@,
            ) + ";"@,
    {
        if keys.len() > 0 {
            let mut items: Vec<JsonValue> = Vec::new();
            let mut i: usize = 0;
            while i < keys.len()
                invariant
                    i <= keys@.len(),
                    view_items(items@, items@.len()) == keys@.subrange(0, i as int).map_values(
                        |s: String| JsonView::Str(s@),
                    ),
                    items@.len() == i,
                decreases keys.len() - i,
            {
                let ghost before = items@;
                items.push(JsonValue::Str(keys[i].clone()));
                proof {
                    lemma_view_items_prefix(before, items@, i as nat);
                    assert(view_items(items@, (i + 1) as nat) == view_items(items@, i as nat).push(
                        view_of(items@[i as int]),
                    ));
                }
                i = i + 1;
                assert(view_items(items@, items@.len()) =~= keys@.subrange(0, i as int).map_values(
                    |s: String| JsonView::Str(s@),
                ));
            }
            assert(keys@.subrange(0, keys@.len() as int) =~= keys@);
            let ghost items_view = view_items(items@, items@.len());
            let ops = vec![("$in".to_owned(), JsonValue::Array(items))];
            let ghost ops_seq = ops@;
            let ghost old_filters = q.filters@;
            q.filters.push((self.primary_key_name.clone(), JsonValue::Object(ops)));
            assert(q.filters@.drop_last() =~= old_filters);
            proof {
                assert(view_entries(ops_seq, 1) == view_entries(ops_seq, 0).push(
                    (ops_seq[0].0@, view_of(ops_seq[0].1)),
                ));
                assert(view_entries(ops_seq, 1) =~= seq![("$in"@, JsonView::Array(items_view))]);
            }
        }
        let mut out = String::new();
        out.append("SELECT ");
        out.append(q.format_fields(d).as_str());
        out.append(" FROM ");
        out.append(self.table_name.as_str());
        out.append(" ");
        out.append(q.format_filter(d, &self.columns).as_str());
        out.append(";");
        out
    }
}

/// What an array item becomes: a key with an associated entity becomes that
/// entity, anything else stays.
pub open spec fn spliced_item(x: JsonValue, assoc: Seq<(String, JsonValue)>) -> JsonView {
    match x {
        JsonValue::Str(s) => match lookup(assoc, s@) {
            Some(a) => view_of(a),
            None => view_of(x),
        },
        _ => view_of(x),
    }
}

/// The first `n` items of an array, each spliced.
pub open spec fn spliced_items(items: Seq<JsonValue>, assoc: Seq<(String, JsonValue)>, n: nat) -> Seq<
    JsonView,
>
    decreases n,
{
    if n == 0 || n > items.len() {
        Seq::empty()
    } else {
        spliced_items(items, assoc, (n - 1) as nat).push(spliced_item(items[n - 1], assoc))
    }
}

/// What a reference field becomes: a key is replaced by its associated
/// entity, and so is each key in an array.
pub open spec fn spliced(v: JsonValue, assoc: Seq<(String, JsonValue)>) -> JsonView {
    match v {
        JsonValue::Array(items) => JsonView::Array(spliced_items(items@, assoc, items@.len())),
        _ => spliced_item(v, assoc),
    }
}

/// Replaces the keys in a reference value by their associated entities.
pub fn splice_value(v: &JsonValue, assoc: &Vec<(String, JsonValue)>) -> (r: JsonValue)
    ensures
        view_of(r) == spliced(*v, assoc@),
{
    match v {
        JsonValue::Str(s) => match find_entry(assoc, s.as_str()) {
            Some(k) => copy_value(&assoc[k].1),
            None => copy_value(v),
        },
        JsonValue::Array(items) => {
            let mut out: Vec<JsonValue> = Vec::new();
            let mut i: usize = 0;
            while i < items.len()
                invariant
                    i <= items@.len(),
                    out@.len() == i,
                    view_items(out@, i as nat) == spliced_items(items@, assoc@, i as nat),
                decreases items.len() - i,
            {
                let item = match &items[i] {
                    JsonValue::Str(s) => match find_entry(assoc, s.as_str()) {
                        Some(k) => copy_value(&assoc[k].1),
                        None => copy_value(&items[i]),
                    },
                    other => copy_value(other),
                };
                let ghost before = out@;
                out.push(item);
                proof {
                    lemma_view_items_prefix(before, out@, i as nat);
                }
                i = i + 1;
            }
            JsonValue::Array(out)
        },
        _ => copy_value(v),
    }
}

/// Replaces, in every document, the keys in the reference fields `cols` by
/// the entities associated with them; other fields keep their content.
pub fn splice_rows(
    data: &mut Vec<Vec<(String, JsonValue)>>,
    cols: &Vec<String>,
    assoc: &Vec<(String, JsonValue)>,
)
    ensures
        final(data)@.len() == old(data)@.len(),
        forall|r: int|
            0 <= r < old(data)@.len() ==> (#[trigger] final(data)@[r])@.len() == old(data)@[r]@.len(),
        forall|r: int, i: int|
            0 <= r < old(data)@.len() && 0 <= i < old(data)@[r]@.len() ==> {
                let (k, v) = old(data)@[r]@[i];
                &&& (#[trigger] final(data)@[r]@[i]).0@ == k@
                &&& view_of(final(data)@[r]@[i].1) == if views(cols@).contains(k@) {
                    spliced(v, assoc@)
                } else {
                    view_of(v)
                }
            },
{
    let mut out: Vec<Vec<(String, JsonValue)>> = Vec::new();
    let mut r: usize = 0;
    while r < data.len()
        invariant
            r <= data@.len(),
            out@.len() == r,
            forall|x: int| 0 <= x < r ==> (#[trigger] out@[x])@.len() == data@[x]@.len(),
            forall|x: int, i: int|
                0 <= x < r && 0 <= i < data@[x]@.len() ==> {
                    let (k, v) = data@[x]@[i];
                    &&& (#[trigger] out@[x]@[i]).0@ == k@
                    &&& view_of(out@[x]@[i].1) == if views(cols@).contains(k@) {
                        spliced(v, assoc@)
                    } else {
                        view_of(v)
                    }
                },
        decreases data.len() - r,
    {
        let new_row = spliced_copy(&data[r], cols, assoc);
        out.push(new_row);
        r = r + 1;
    }
    *data = out;
}

/// Whether `cols` holds `key`.
fn contains_key(cols: &Vec<String>, key: &str) -> (r: bool)
    ensures
        r == views(cols@).contains(key@),
{
    let mut i: usize = 0;
    while i < cols.len()
        invariant
            i <= cols@.len(),
            forall|j: int| 0 <= j < i ==> cols@[j]@ != key@,
        decreases cols.len() - i,
    {
        if crate::text::str_eq(cols[i].as_str(), key) {
            assert(views(cols@)[i as int] == key@);
            return true;
        }
        i = i + 1;
    }
    assert forall|j: int| 0 <= j < views(cols@).len() implies views(cols@)[j] != key@ by {
        assert(views(cols@)[j] == cols@[j]@);
    }
    false
}

/// The associations of the first `n` fetched documents: each document whose
/// primary key is a string, keyed by that string.
pub open spec fn associations(rows: Seq<Vec<(String, JsonValue)>>, pk: Seq<char>, n: nat) -> Seq<
    (Seq<char>, JsonView),
>
    decreases n,
{
    if n == 0 || n > rows.len() {
        Seq::empty()
    } else {
        let init = associations(rows, pk, (n - 1) as nat);
        let row = rows[n - 1]@;
        match lookup(row, pk) {
            Some(JsonValue::Str(k)) => init.push((k@, JsonView::Object(view_entries(row, row.len())))),
            _ => init,
        }
    }
}

/// Keys each fetched document by its primary key.
pub fn associate(rows: Vec<Vec<(String, JsonValue)>>, pk: &str) -> (r: Vec<(String, JsonValue)>)
    ensures
        view_entries(r@, r@.len()) == associations(rows@, pk@, rows@.len()),
{
    let ghost all = rows@;
    let mut rest = rows;
    let mut out: Vec<(String, JsonValue)> = Vec::new();
    let ghost mut i: int = 0;
    while rest.len() > 0
        invariant
            0 <= i <= all.len(),
            rest@ == all.subrange(i, all.len() as int),
            view_entries(out@, out@.len()) == associations(all, pk@, i as nat),
        decreases rest.len(),
    {
        assert(i < all.len());
        let row = rest.remove(0);
        assert(row == all[i]);
        let key = match find_entry(&row, pk) {
            Some(k) => match &row[k].1 {
                JsonValue::Str(s) => Some(s.clone()),
                _ => None,
            },
            None => None,
        };
        let ghost before = out@;
        match key {
            Some(k) => {
                out.push((k, JsonValue::Object(row)));
                proof {
                    lemma_view_entries_prefix(before, out@, before.len());
                    assert(view_entries(out@, out@.len()) == view_entries(out@, before.len()).push(
                        (out@.last().0@, view_of(out@.last().1)),
                    ));
                }
            },
            None => {},
        }
        proof {
            i = i + 1;
        }
        assert(rest@ =~= all.subrange(i, all.len() as int));
    }
    out
}

/// A reference field that holds the key of a fetched entity is replaced by
/// that entity, and each such key in an array field is replaced likewise.
pub proof fn lemma_reference_replaced(v: JsonValue, assoc: Seq<(String, JsonValue)>, i: int)
    ensures
        v is Str ==> match lookup(assoc, v->Str_0@) {
            Some(a) => spliced(v, assoc) == view_of(a),
            None => spliced(v, assoc) == view_of(v),
        },
        v is Array && 0 <= i < v->Array_0@.len() ==> (spliced(v, assoc) is Array && spliced(
            v,
            assoc,
        )->Array_0[i] == spliced_item(v->Array_0@[i], assoc)),
{
    if v is Array && 0 <= i < v->Array_0@.len() {
        lemma_spliced_items_index(v->Array_0@, assoc, v->Array_0@.len(), i);
    }
}

proof fn lemma_spliced_items_index(items: Seq<JsonValue>, assoc: Seq<(String, JsonValue)>, n: nat, i: int)
    requires
        n <= items.len(),
        0 <= i < n,
    ensures
        spliced_items(items, assoc, n).len() == n,
        spliced_items(items, assoc, n)[i] == spliced_item(items[i], assoc),
    decreases n,
{
    if i < n - 1 {
        lemma_spliced_items_index(items, assoc, (n - 1) as nat, i);
    } else if n > 1 {
        lemma_spliced_items_index(items, assoc, (n - 1) as nat, 0);
    } else {
        assert(spliced_items(items, assoc, 0).len() == 0);
    }
}

/// Collects the keys that the reference fields `cols` of one document hold,
/// field by field.
pub fn collect_document_keys(row: &Vec<(String, JsonValue)>, cols: &Vec<String>) -> (r: Vec<String>)
    ensures
        views(r@) == row_keys(row@, views(cols@), cols@.len()),
{
    let mut out: Vec<String> = Vec::new();
    let mut j: usize = 0;
    while j < cols.len()
        invariant
            j <= cols@.len(),
            views(out@) == row_keys(row@, views(cols@), j as nat),
        decreases cols.len() - j,
    {
        match find_entry(row, cols[j].as_str()) {
            Some(k) => {
                let keys = keys_of(&row[k].1);
                append_strings(&mut out, keys);
            },
            None => {},
        }
        j = j + 1;
        assert(views(cols@)[j - 1] == cols@[j - 1]@);
        assert(views(out@) =~= row_keys(row@, views(cols@), j as nat));
    }
    out
}


/// A copy of a document whose reference fields `cols` have their keys
/// replaced by the associated entities.
fn spliced_copy(row: &Vec<(String, JsonValue)>, cols: &Vec<String>, assoc: &Vec<(String, JsonValue)>) -> (r:
    Vec<(String, JsonValue)>)
    ensures
        r@.len() == row@.len(),
        forall|i: int|
            0 <= i < row@.len() ==> {
                let (k, v) = row@[i];
                &&& (#[trigger] r@[i]).0@ == k@
                &&& view_of(r@[i].1) == if views(cols@).contains(k@) {
                    spliced(v, assoc@)
                } else {
                    view_of(v)
                }
            },
{
    let mut new_row: Vec<(String, JsonValue)> = Vec::new();
    let mut i: usize = 0;
    while i < row.len()
        invariant
            i <= row@.len(),
            new_row@.len() == i,
            forall|j: int|
                0 <= j < i ==> {
                    let (k, v) = row@[j];
                    &&& (#[trigger] new_row@[j]).0@ == k@
                    &&& view_of(new_row@[j].1) == if views(cols@).contains(k@) {
                        spliced(v, assoc@)
                    } else {
                        view_of(v)
                    }
                },
        decreases row.len() - i,
    {
        let v = if contains_key(cols, row[i].0.as_str()) {
            splice_value(&row[i].1, assoc)
        } else {
            copy_value(&row[i].1)
        };
        new_row.push((row[i].0.clone(), v));
        i = i + 1;
    }
    new_row
}

/// Replaces, in one document, the keys in the reference fields `cols` by the
/// entities associated with them; other fields keep their content.
pub fn splice_document(row: &mut Vec<(String, JsonValue)>, cols: &Vec<String>, assoc: &Vec<(String, JsonValue)>)
    ensures
        final(row)@.len() == old(row)@.len(),
        forall|i: int|
            0 <= i < old(row)@.len() ==> {
                let (k, v) = old(row)@[i];
                &&& (#[trigger] final(row)@[i]).0@ == k@
                &&& view_of(final(row)@[i].1) == if views(cols@).contains(k@) {
                    spliced(v, assoc@)
                } else {
                    view_of(v)
                }
            },
{
    *row = spliced_copy(row, cols, assoc);
}

proof fn lemma_view_items_index(items: Seq<JsonValue>, n: nat)
    requires
        n <= items.len(),
    ensures
        view_items(items, n).len() == n,
        forall|i: int| 0 <= i < n ==> #[trigger] view_items(items, n)[i] == view_of(items[i]),
    decreases n,
{
    if n > 0 {
        lemma_view_items_index(items, (n - 1) as nat);
    }
}

pub(crate) proof fn lemma_view_entries_index(entries: Seq<(String, JsonValue)>, n: nat)
    requires
        n <= entries.len(),
    ensures
        view_entries(entries, n).len() == n,
        forall|i: int|
            0 <= i < n ==> #[trigger] view_entries(entries, n)[i] == (entries[i].0@, view_of(entries[i].1)),
    decreases n,
{
    if n > 0 {
        lemma_view_entries_index(entries, (n - 1) as nat);
    }
}

/// Two sequences of values with the same contents, item by item.
pub open spec fn same_items(a: Seq<JsonValue>, b: Seq<JsonValue>) -> bool {
    a.len() == b.len() && forall|i: int| 0 <= i < a.len() ==> view_of(#[trigger] a[i]) == view_of(b[i])
}

/// Two sequences of entries with the same keys and contents, entry by entry.
pub open spec fn same_entries(a: Seq<(String, JsonValue)>, b: Seq<(String, JsonValue)>) -> bool {
    a.len() == b.len() && forall|i: int|
        0 <= i < a.len() ==> (#[trigger] a[i]).0@ == b[i].0@ && view_of(a[i].1) == view_of(b[i].1)
}

/// Values with the same content as their items, where both are arrays, and
/// their entries, where both are objects.
pub proof fn lemma_same_parts(a: JsonValue, b: JsonValue)
    requires
        view_of(a) == view_of(b),
    ensures
        a is Array ==> b is Array && same_items(a->Array_0@, b->Array_0@),
        a is Object ==> b is Object && same_entries(a->Object_0@, b->Object_0@),
        a is Str ==> b is Str && a->Str_0@ == b->Str_0@,
        a is Array || a is Object || a is Str || a == b || (a is Number && b is Number && a->Number_0@ == b->Number_0@),
{
    match (a, b) {
        (JsonValue::Array(x), JsonValue::Array(y)) => {
            lemma_view_items_index(x@, x@.len());
            lemma_view_items_index(y@, y@.len());
            assert forall|i: int| 0 <= i < x@.len() implies view_of(#[trigger] x@[i]) == view_of(y@[i]) by {
                assert(view_items(x@, x@.len())[i] == view_items(y@, y@.len())[i]);
            }
        },
        (JsonValue::Object(x), JsonValue::Object(y)) => {
            lemma_view_entries_index(x@, x@.len());
            lemma_view_entries_index(y@, y@.len());
            assert forall|i: int| 0 <= i < x@.len() implies (#[trigger] x@[i]).0@ == y@[i].0@ && view_of(x@[i].1) == view_of(y@[i].1) by {
                assert(view_entries(x@, x@.len())[i] == view_entries(y@, y@.len())[i]);
            }
        },
        _ => {},
    }
}

/// Values with the same content have the same JSON text and encode to the
/// same literal in any column.
pub proof fn lemma_same_content(a: JsonValue, b: JsonValue)
    requires
        view_of(a) == view_of(b),
    ensures
        json_text(a) == json_text(b),
        forall|d: Dialect, col: Column| encode_spec(d, col, a) == encode_spec(d, col, b),
    decreases a, 0nat,
{
    lemma_same_parts(a, b);
    match a {
        JsonValue::Array(x) => {
            let y = b->Array_0;
            lemma_same_items_text(x@, y@, x@.len());
        },
        JsonValue::Object(x) => {
            let y = b->Object_0;
            lemma_same_entries_text(x@, y@, x@.len());
        },
        _ => {},
    }
    assert forall|d: Dialect, col: Column| #[trigger] encode_spec(d, col, a) == encode_spec(d, col, b) by {
        if a is Array {
            lemma_same_items_text(a->Array_0@, b->Array_0@, a->Array_0@.len());
            assert(encode_items(d, col, a->Array_0@, a->Array_0@.len()) == encode_items(
                d,
                col,
                b->Array_0@,
                b->Array_0@.len(),
            ));
        }
    }
}

proof fn lemma_same_items_text(a: Seq<JsonValue>, b: Seq<JsonValue>, n: nat)
    requires
        same_items(a, b),
        n <= a.len(),
    ensures
        json_items(a, n) == json_items(b, n),
        forall|d: Dialect, col: Column| encode_items(d, col, a, n) == encode_items(d, col, b, n),
    decreases a, n,
{
    if n > 0 {
        lemma_same_items_text(a, b, (n - 1) as nat);
        assert(view_of(a[n - 1]) == view_of(b[n - 1]));
        lemma_same_content(a[n - 1], b[n - 1]);
        lemma_same_parts(a[n - 1], b[n - 1]);
        assert forall|d: Dialect, col: Column| #[trigger] encode_items(d, col, a, n) == encode_items(d, col, b, n) by {
            assert(encode_items(d, col, a, (n - 1) as nat) == encode_items(d, col, b, (n - 1) as nat));
            assert(encode_spec(d, col, a[n - 1]) == encode_spec(d, col, b[n - 1]));
        }
    }
}

proof fn lemma_same_entries_text(a: Seq<(String, JsonValue)>, b: Seq<(String, JsonValue)>, n: nat)
    requires
        same_entries(a, b),
        n <= a.len(),
    ensures
        json_entries(a, n) == json_entries(b, n),
    decreases a, n,
{
    if n > 0 {
        lemma_same_entries_text(a, b, (n - 1) as nat);
        assert(a[n - 1].0@ == b[n - 1].0@);
        lemma_same_content(a[n - 1].1, b[n - 1].1);
    }
}

/// The content stored under `k` in a sequence of keyed contents: the first
/// entry with that key.
pub open spec fn lookup_view(a: Seq<(Seq<char>, JsonView)>, k: Seq<char>) -> Option<JsonView>
    decreases a.len(),
{
    if a.len() == 0 {
        None
    } else if a[0].0 == k {
        Some(a[0].1)
    } else {
        lookup_view(a.drop_first(), k)
    }
}

proof fn lemma_lookup_view(r: Seq<(String, JsonValue)>, k: Seq<char>)
    ensures
        match lookup(r, k) {
            Some(v) => lookup_view(view_entries(r, r.len()), k) == Some(view_of(v)),
            None => lookup_view(view_entries(r, r.len()), k) is None,
        },
    decreases r.len(),
{
    let v = view_entries(r, r.len());
    lemma_view_entries_index(r, r.len());
    if r.len() > 0 {
        let t = r.drop_first();
        lemma_view_entries_index(t, t.len());
        assert forall|i: int| 0 <= i < t.len() implies #[trigger] v.drop_first()[i] == view_entries(t, t.len())[i] by {
            assert(t[i] == r[i + 1]);
        }
        assert(v.drop_first() =~= view_entries(t, t.len()));
        lemma_lookup_view(t, k);
    }
}

proof fn lemma_lookup_view_push(a: Seq<(Seq<char>, JsonView)>, e: (Seq<char>, JsonView), k: Seq<char>)
    ensures
        lookup_view(a.push(e), k) == match lookup_view(a, k) {
            Some(x) => Some(x),
            None => if e.0 == k {
                Some(e.1)
            } else {
                None
            },
        },
    decreases a.len(),
{
    if a.len() > 0 {
        assert(a.push(e).drop_first() =~= a.drop_first().push(e));
        assert(a.push(e)[0] == a[0]);
        lemma_lookup_view_push(a.drop_first(), e, k);
    } else {
        assert(a.push(e)[0] == e);
        assert(a.push(e).drop_first().len() == 0);
        assert(lookup_view(a.push(e).drop_first(), k) is None);
    }
}

/// The entity that a fetch associates with key `k`: the document of the
/// first fetched row whose primary key is the string `k`.
pub proof fn lemma_associated_row(rows: Seq<Vec<(String, JsonValue)>>, pk: Seq<char>, j: int, k: Seq<char>)
    requires
        0 <= j < rows.len(),
        lookup(rows[j]@, pk) matches Some(JsonValue::Str(s)) && s@ == k,
        forall|i: int|
            0 <= i < j ==> !(lookup(#[trigger] rows[i]@, pk) matches Some(JsonValue::Str(s)) && s@ == k),
    ensures
        lookup_view(associations(rows, pk, rows.len()), k) == Some(
            JsonView::Object(view_entries(rows[j]@, rows[j]@.len())),
        ),
{
    lemma_associated_prefix(rows, pk, j, k, rows.len());
}

proof fn lemma_associated_prefix(rows: Seq<Vec<(String, JsonValue)>>, pk: Seq<char>, j: int, k: Seq<char>, n: nat)
    requires
        0 <= j < n <= rows.len(),
        lookup(rows[j]@, pk) matches Some(JsonValue::Str(s)) && s@ == k,
        forall|i: int|
            0 <= i < j ==> !(lookup(#[trigger] rows[i]@, pk) matches Some(JsonValue::Str(s)) && s@ == k),
    ensures
        lookup_view(associations(rows, pk, n), k) == Some(
            JsonView::Object(view_entries(rows[j]@, rows[j]@.len())),
        ),
    decreases n,
{
    let prev = associations(rows, pk, (n - 1) as nat);
    let row = rows[n - 1]@;
    if n - 1 > j {
        lemma_associated_prefix(rows, pk, j, k, (n - 1) as nat);
        if let Some(JsonValue::Str(key)) = lookup(row, pk) {
            lemma_lookup_view_push(prev, (key@, JsonView::Object(view_entries(row, row.len()))), k);
        }
    } else {
        lemma_associated_absent(rows, pk, k, j as nat);
        if let Some(JsonValue::Str(key)) = lookup(row, pk) {
            lemma_lookup_view_push(prev, (key@, JsonView::Object(view_entries(row, row.len()))), k);
        }
    }
}

proof fn lemma_associated_absent(rows: Seq<Vec<(String, JsonValue)>>, pk: Seq<char>, k: Seq<char>, n: nat)
    requires
        n <= rows.len(),
        forall|i: int|
            0 <= i < n ==> !(lookup(#[trigger] rows[i]@, pk) matches Some(JsonValue::Str(s)) && s@ == k),
    ensures
        lookup_view(associations(rows, pk, n), k) is None,
    decreases n,
{
    if n > 0 {
        lemma_associated_absent(rows, pk, k, (n - 1) as nat);
        let row = rows[n - 1]@;
        if let Some(JsonValue::Str(key)) = lookup(row, pk) {
            assert(!(lookup(rows[n - 1]@, pk) matches Some(JsonValue::Str(s)) && s@ == k));
            lemma_lookup_view_push(
                associations(rows, pk, (n - 1) as nat),
                (key@, JsonView::Object(view_entries(row, row.len()))),
                k,
            );
        }
    }
}

/// After a fetch, a reference field that holds a key is replaced by the
/// document of the first fetched row with that primary key, and so is each
/// key in an array field; a key that no fetched row has stays as it is.
pub proof fn lemma_fetch_replaces(
    rows: Seq<Vec<(String, JsonValue)>>,
    pk: Seq<char>,
    assoc: Seq<(String, JsonValue)>,
    v: JsonValue,
    i: int,
)
    requires
        view_entries(assoc, assoc.len()) == associations(rows, pk, rows.len()),
    ensures
        v is Str ==> spliced(v, assoc) == match lookup_view(associations(rows, pk, rows.len()), v->Str_0@) {
            Some(doc) => doc,
            None => view_of(v),
        },
        v is Array && 0 <= i < v->Array_0@.len() ==> spliced(v, assoc)->Array_0[i] == match v->Array_0@[i] {
            JsonValue::Str(s) => match lookup_view(associations(rows, pk, rows.len()), s@) {
                Some(doc) => doc,
                None => view_of(v->Array_0@[i]),
            },
            _ => view_of(v->Array_0@[i]),
        },
{
    lemma_reference_replaced(v, assoc, i);
    if v is Str {
        lemma_lookup_view(assoc, v->Str_0@);
    }
    if v is Array && 0 <= i < v->Array_0@.len() {
        if let JsonValue::Str(s) = v->Array_0@[i] {
            lemma_lookup_view(assoc, s@);
        }
    }
}

} // verus!
