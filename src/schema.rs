//! An entity's table and columns, and the SQL statements built from them.
use crate::column::{Column, Dialect};
use crate::encode::{encode_value_spec, format_value_spec};
use crate::query::{Mutation, Query};
use crate::text::{join_seq, join_strings, views};
use crate::value::{find_entry, lookup, JsonValue};
use vstd::prelude::*;

verus! {

/// An entity: its table, primary key and columns in declaration order.
pub struct Schema {
    pub table_name: String,
    pub primary_key_name: String,
    pub columns: Vec<Column>,
}

/// A column's definition in `CREATE TABLE`.
pub open spec fn column_def(d: Dialect, col: Column) -> Seq<char> {
    col.name@ + " "@ + col.column_type_view(d) + match col.default_value {
        Some(v) => " DEFAULT "@ + format_value_spec(d, col, v@),
        None => if col.not_null {
            " NOT NULL"@
        } else {
            Seq::empty()
        },
    }
}

/// The value of each column for a document, in declaration order.
pub open spec fn encoded_row(d: Dialect, cols: Seq<Column>, doc: Seq<(String, JsonValue)>) -> Seq<Seq<char>> {
    cols.map_values(|c: Column| encode_value_spec(d, c, lookup(doc, c.name@)))
}

/// The column names in declaration order.
pub open spec fn column_names(cols: Seq<Column>) -> Seq<Seq<char>> {
    cols.map_values(|c: Column| c.name@)
}

/// `key = value` for the first `n` columns other than the primary key.
pub open spec fn row_assignments(
    d: Dialect,
    cols: Seq<Column>,
    doc: Seq<(String, JsonValue)>,
    pk: Seq<char>,
    n: nat,
) -> Seq<Seq<char>>
    decreases n,
{
    if n == 0 || n > cols.len() {
        Seq::empty()
    } else {
        let init = row_assignments(d, cols, doc, pk, (n - 1) as nat);
        let c = cols[n - 1];
        if c.name@ == pk {
            init
        } else {
            init.push(c.name@ + " = "@ + encode_value_spec(d, c, lookup(doc, c.name@)))
        }
    }
}

/// A parenthesised, comma-separated list.
pub open spec fn tuple(parts: Seq<Seq<char>>) -> Seq<char> {
    "("@ + join_seq(parts, ","@) + ")"@
}

impl Schema {
    pub open spec fn create_table_spec(&self, d: Dialect) -> Seq<char> {
        "CREATE TABLE IF NOT EXISTS "@ + self.table_name@ + " ("@ + join_seq(
            self.columns@.map_values(|c: Column| column_def(d, c)),
            ", "@,
        ) + ", CONSTRAINT "@ + self.table_name@ + "_pkey PRIMARY KEY ("@ + self.primary_key_name@
            + "));"@
    }

    pub open spec fn insert_spec(&self, d: Dialect, doc: Seq<(String, JsonValue)>) -> Seq<char> {
        "INSERT INTO "@ + self.table_name@ + " "@ + tuple(column_names(self.columns@)) + " VALUES "@
            + tuple(encoded_row(d, self.columns@, doc)) + ";"@
    }

    pub open spec fn insert_many_spec(&self, d: Dialect, docs: Seq<Vec<(String, JsonValue)>>) -> Seq<char> {
        "INSERT INTO "@ + self.table_name@ + " "@ + tuple(column_names(self.columns@)) + " VALUES "@
            + join_seq(
            docs.map_values(|doc: Vec<(String, JsonValue)>| tuple(encoded_row(d, self.columns@, doc@))),
            ","@,
        ) + ";"@
    }

    pub open spec fn update_spec(&self, d: Dialect, doc: Seq<(String, JsonValue)>, key: Seq<char>) -> Seq<char> {
        "UPDATE "@ + self.table_name@ + " SET "@ + join_seq(
            row_assignments(d, self.columns@, doc, self.primary_key_name@, self.columns@.len()),
            ","@,
        ) + " WHERE "@ + self.primary_key_name@ + " = "@ + crate::text::quoted(key) + ";"@
    }

    pub open spec fn upsert_spec(&self, d: Dialect, doc: Seq<(String, JsonValue)>) -> Seq<char> {
        "INSERT INTO "@ + self.table_name@ + " "@ + tuple(column_names(self.columns@)) + " VALUES "@
            + tuple(encoded_row(d, self.columns@, doc)) + " ON CONFLICT ("@ + self.primary_key_name@
            + ") DO UPDATE SET "@ + join_seq(
            row_assignments(d, self.columns@, doc, self.primary_key_name@, self.columns@.len()),
            ","@,
        ) + ";"@
    }

    /// The subquery that picks the primary key of the first row the query
    /// selects under its order.
    pub open spec fn first_key_spec(&self, d: Dialect, q: Query) -> Seq<char> {
        self.primary_key_name@ + " IN (SELECT "@ + self.primary_key_name@ + " FROM "@
            + self.table_name@ + " "@ + crate::query::where_spec(d, self.columns@, q.filters@) + " "@
            + q.sort_spec() + " LIMIT 1)"@
    }

    pub open spec fn update_one_spec(&self, d: Dialect, q: Query, m: Mutation) -> Seq<char> {
        "UPDATE "@ + self.table_name@ + " "@ + m.update_spec(d, self.columns@) + " WHERE "@
            + self.first_key_spec(d, q) + ";"@
    }

    pub open spec fn update_many_spec(&self, d: Dialect, q: Query, m: Mutation) -> Seq<char> {
        "UPDATE "@ + self.table_name@ + " "@ + m.update_spec(d, self.columns@) + " "@
            + crate::query::where_spec(d, self.columns@, q.filters@) + ";"@
    }

    pub open spec fn delete_spec(&self, key: Seq<char>) -> Seq<char> {
        "DELETE FROM "@ + self.table_name@ + " WHERE "@ + self.primary_key_name@ + " = "@
            + crate::text::quoted(key) + ";"@
    }

    pub open spec fn delete_one_spec(&self, d: Dialect, q: Query) -> Seq<char> {
        "DELETE FROM "@ + self.table_name@ + " WHERE "@ + self.first_key_spec(d, q) + ";"@
    }

    pub open spec fn delete_many_spec(&self, d: Dialect, q: Query) -> Seq<char> {
        "DELETE FROM "@ + self.table_name@ + " "@ + crate::query::where_spec(d, self.columns@, q.filters@)
            + ";"@
    }

    pub open spec fn find_spec(&self, d: Dialect, q: Query) -> Seq<char> {
        "SELECT "@ + q.fields_spec(d) + " FROM "@ + self.table_name@ + " "@ + crate::query::where_spec(
            d,
            self.columns@,
            q.filters@,
        ) + " "@ + q.sort_spec() + " "@ + q.pagination_spec(d) + ";"@
    }

    pub open spec fn find_one_spec(&self, d: Dialect, q: Query) -> Seq<char> {
        "SELECT "@ + q.fields_spec(d) + " FROM "@ + self.table_name@ + " "@ + crate::query::where_spec(
            d,
            self.columns@,
            q.filters@,
        ) + " "@ + q.sort_spec() + " LIMIT 1;"@
    }
}

impl Schema {
    /// The encoded values of a document for every column, in declaration order.
    fn encode_row(&self, d: Dialect, doc: &Vec<(String, JsonValue)>) -> (r: Vec<String>)
        ensures
            views(r@) == encoded_row(d, self.columns@, doc@),
    {
        let mut out: Vec<String> = Vec::new();
        let mut i: usize = 0;
        while i < self.columns.len()
            invariant
                i <= self.columns@.len(),
                out@.len() == i,
                forall|j: int|
                    0 <= j < i ==> (#[trigger] out@[j])@ == encode_value_spec(
                        d,
                        self.columns@[j],
                        lookup(doc@, self.columns@[j].name@),
                    ),
            decreases self.columns.len() - i,
        {
            let col = &self.columns[i];
            let v = match find_entry(doc, col.name.as_str()) {
                Some(k) => col.encode_value(d, Some(&doc[k].1)),
                None => col.encode_value(d, None),
            };
            out.push(v);
            i = i + 1;
        }
        assert(views(out@) =~= encoded_row(d, self.columns@, doc@));
        out
    }

    /// The column names in declaration order, as a parenthesised list.
    fn names_tuple(&self) -> (r: String)
        ensures
            r@ == tuple(column_names(self.columns@)),
    {
        let mut names: Vec<String> = Vec::new();
        let mut i: usize = 0;
        while i < self.columns.len()
            invariant
                i <= self.columns@.len(),
                names@.len() == i,
                forall|j: int| 0 <= j < i ==> (#[trigger] names@[j])@ == self.columns@[j].name@,
            decreases self.columns.len() - i,
        {
            names.push(self.columns[i].name.clone());
            i = i + 1;
        }
        assert(views(names@) =~= column_names(self.columns@));
        tuple_text(&names)
    }

    /// `key = value` for every column but the primary key.
    fn assignments_text(&self, d: Dialect, doc: &Vec<(String, JsonValue)>) -> (r: String)
        ensures
            r@ == join_seq(
                row_assignments(d, self.columns@, doc@, self.primary_key_name@, self.columns@.len()),
                ","@,
            ),
    {
        let mut parts: Vec<String> = Vec::new();
        let mut i: usize = 0;
        while i < self.columns.len()
            invariant
                i <= self.columns@.len(),
                views(parts@) == row_assignments(d, self.columns@, doc@, self.primary_key_name@, i as nat),
            decreases self.columns.len() - i,
        {
            let col = &self.columns[i];
            let ghost before = views(parts@);
            if !crate::text::str_eq(col.name.as_str(), self.primary_key_name.as_str()) {
                let v = match find_entry(doc, col.name.as_str()) {
                    Some(k) => col.encode_value(d, Some(&doc[k].1)),
                    None => col.encode_value(d, None),
                };
                let mut a = String::new();
                a.append(col.name.as_str());
                a.append(" = ");
                a.append(v.as_str());
                parts.push(a);
                assert(views(parts@) =~= before.push(a@));
            }
            i = i + 1;
        }
        join_strings(&parts, ",")
    }

    /// The `CREATE TABLE` statement.
    pub fn create_table(&self, d: Dialect) -> (r: String)
        ensures
            r@ == self.create_table_spec(d),
    {
        let mut defs: Vec<String> = Vec::new();
        let mut i: usize = 0;
        while i < self.columns.len()
            invariant
                i <= self.columns@.len(),
                defs@.len() == i,
                forall|j: int| 0 <= j < i ==> (#[trigger] defs@[j])@ == column_def(d, self.columns@[j]),
            decreases self.columns.len() - i,
        {
            let col = &self.columns[i];
            let mut def = String::new();
            def.append(col.name.as_str());
            def.append(" ");
            def.append(col.column_type(d));
            match &col.default_value {
                Some(v) => {
                    def.append(" DEFAULT ");
                    def.append(col.format_value(d, v.as_str()).as_str());
                },
                None => if col.not_null {
                    def.append(" NOT NULL");
                },
            }
            proof {
                reveal_strlit("");
            }
            assert(def@ =~= column_def(d, *col));
            defs.push(def);
            i = i + 1;
        }
        assert(views(defs@) =~= self.columns@.map_values(|c: Column| column_def(d, c)));
        let mut out = String::new();
        out.append("CREATE TABLE IF NOT EXISTS ");
        out.append(self.table_name.as_str());
        out.append(" (");
        out.append(join_strings(&defs, ", ").as_str());
        out.append(", CONSTRAINT ");
        out.append(self.table_name.as_str());
        out.append("_pkey PRIMARY KEY (");
        out.append(self.primary_key_name.as_str());
        out.append("));");
        assert(out@ =~= self.create_table_spec(d));
        out
    }

    /// The `INSERT` statement for one document: every column gets a value.
    pub fn insert(&self, d: Dialect, doc: &Vec<(String, JsonValue)>) -> (r: String)
        ensures
            r@ == self.insert_spec(d, doc@),
    {
        let values = self.encode_row(d, doc);
        let mut out = String::new();
        out.append("INSERT INTO ");
        out.append(self.table_name.as_str());
        out.append(" ");
        out.append(self.names_tuple().as_str());
        out.append(" VALUES ");
        out.append(tuple_text(&values).as_str());
        out.append(";");
        assert(out@ =~= self.insert_spec(d, doc@));
        out
    }

    /// One `INSERT` statement for many documents, one value tuple each.
    pub fn insert_many(&self, d: Dialect, docs: &Vec<Vec<(String, JsonValue)>>) -> (r: String)
        ensures
            r@ == self.insert_many_spec(d, docs@),
    {
        let mut rows: Vec<String> = Vec::new();
        let mut i: usize = 0;
        while i < docs.len()
            invariant
                i <= docs@.len(),
                rows@.len() == i,
                forall|j: int|
                    0 <= j < i ==> (#[trigger] rows@[j])@ == tuple(
                        encoded_row(d, self.columns@, docs@[j]@),
                    ),
            decreases docs.len() - i,
        {
            let values = self.encode_row(d, &docs[i]);
            rows.push(tuple_text(&values));
            i = i + 1;
        }
        assert(views(rows@) =~= docs@.map_values(
            |doc: Vec<(String, JsonValue)>| tuple(encoded_row(d, self.columns@, doc@)),
        ));
        let mut out = String::new();
        out.append("INSERT INTO ");
        out.append(self.table_name.as_str());
        out.append(" ");
        out.append(self.names_tuple().as_str());
        out.append(" VALUES ");
        out.append(join_strings(&rows, ",").as_str());
        out.append(";");
        assert(out@ =~= self.insert_many_spec(d, docs@));
        out
    }

    /// The `UPDATE` statement that writes every other column of a document to
    /// the row with the given primary key.
    pub fn update(&self, d: Dialect, doc: &Vec<(String, JsonValue)>, key: &str) -> (r: String)
        ensures
            r@ == self.update_spec(d, doc@, key@),
    {
        let mut out = String::new();
        out.append("UPDATE ");
        out.append(self.table_name.as_str());
        out.append(" SET ");
        out.append(self.assignments_text(d, doc).as_str());
        out.append(" WHERE ");
        out.append(self.primary_key_name.as_str());
        out.append(" = ");
        out.append(crate::text::escape_string(key).as_str());
        out.append(";");
        assert(out@ =~= self.update_spec(d, doc@, key@));
        out
    }

    /// The `INSERT ... ON CONFLICT ... DO UPDATE` statement for a document.
    pub fn upsert(&self, d: Dialect, doc: &Vec<(String, JsonValue)>) -> (r: String)
        ensures
            r@ == self.upsert_spec(d, doc@),
    {
        let values = self.encode_row(d, doc);
        let mut out = String::new();
        out.append("INSERT INTO ");
        out.append(self.table_name.as_str());
        out.append(" ");
        out.append(self.names_tuple().as_str());
        out.append(" VALUES ");
        out.append(tuple_text(&values).as_str());
        out.append(" ON CONFLICT (");
        out.append(self.primary_key_name.as_str());
        out.append(") DO UPDATE SET ");
        out.append(self.assignments_text(d, doc).as_str());
        out.append(";");
        assert(out@ =~= self.upsert_spec(d, doc@));
        out
    }

    /// The bounded subquery on the primary key.
    fn first_key(&self, d: Dialect, q: &Query) -> (r: String)
        ensures
            r@ == self.first_key_spec(d, *q),
    {
        let mut out = String::new();
        out.append(self.primary_key_name.as_str());
        out.append(" IN (SELECT ");
        out.append(self.primary_key_name.as_str());
        out.append(" FROM ");
        out.append(self.table_name.as_str());
        out.append(" ");
        out.append(q.format_filter(d, &self.columns).as_str());
        out.append(" ");
        out.append(q.format_sort().as_str());
        out.append(" LIMIT 1)");
        assert(out@ =~= self.first_key_spec(d, *q));
        out
    }

    /// The `UPDATE` statement for at most one row: the first that the query
    /// selects under its order, picked by a subquery on the primary key.
    pub fn update_one(&self, d: Dialect, q: &Query, m: &Mutation) -> (r: String)
        ensures
            r@ == self.update_one_spec(d, *q, *m),
    {
        let mut out = String::new();
        out.append("UPDATE ");
        out.append(self.table_name.as_str());
        out.append(" ");
        out.append(m.format_update(d, &self.columns).as_str());
        out.append(" WHERE ");
        out.append(self.first_key(d, q).as_str());
        out.append(";");
        assert(out@ =~= self.update_one_spec(d, *q, *m));
        out
    }

    /// The `UPDATE` statement for every row that the query selects.
    pub fn update_many(&self, d: Dialect, q: &Query, m: &Mutation) -> (r: String)
        ensures
            r@ == self.update_many_spec(d, *q, *m),
    {
        let mut out = String::new();
        out.append("UPDATE ");
        out.append(self.table_name.as_str());
        out.append(" ");
        out.append(m.format_update(d, &self.columns).as_str());
        out.append(" ");
        out.append(q.format_filter(d, &self.columns).as_str());
        out.append(";");
        assert(out@ =~= self.update_many_spec(d, *q, *m));
        out
    }

    /// The `DELETE` statement for the row with the given primary key.
    pub fn delete(&self, key: &str) -> (r: String)
        ensures
            r@ == self.delete_spec(key@),
    {
        let mut out = String::new();
        out.append("DELETE FROM ");
        out.append(self.table_name.as_str());
        out.append(" WHERE ");
        out.append(self.primary_key_name.as_str());
        out.append(" = ");
        out.append(crate::text::escape_string(key).as_str());
        out.append(";");
        assert(out@ =~= self.delete_spec(key@));
        out
    }

    /// The `DELETE` statement for at most one row, picked as in `update_one`.
    pub fn delete_one(&self, d: Dialect, q: &Query) -> (r: String)
        ensures
            r@ == self.delete_one_spec(d, *q),
    {
        let mut out = String::new();
        out.append("DELETE FROM ");
        out.append(self.table_name.as_str());
        out.append(" WHERE ");
        out.append(self.first_key(d, q).as_str());
        out.append(";");
        assert(out@ =~= self.delete_one_spec(d, *q));
        out
    }

    /// The `DELETE` statement for every row that the query selects.
    pub fn delete_many(&self, d: Dialect, q: &Query) -> (r: String)
        ensures
            r@ == self.delete_many_spec(d, *q),
    {
        let mut out = String::new();
        out.append("DELETE FROM ");
        out.append(self.table_name.as_str());
        out.append(" ");
        out.append(q.format_filter(d, &self.columns).as_str());
        out.append(";");
        assert(out@ =~= self.delete_many_spec(d, *q));
        out
    }

    /// The `SELECT` statement with order and pagination.
    pub fn find(&self, d: Dialect, q: &Query) -> (r: String)
        ensures
            r@ == self.find_spec(d, *q),
    {
        let mut out = String::new();
        out.append("SELECT ");
        out.append(q.format_fields(d).as_str());
        out.append(" FROM ");
        out.append(self.table_name.as_str());
        out.append(" ");
        out.append(q.format_filter(d, &self.columns).as_str());
        out.append(" ");
        out.append(q.format_sort().as_str());
        out.append(" ");
        out.append(q.format_pagination(d).as_str());
        out.append(";");
        assert(out@ =~= self.find_spec(d, *q));
        out
    }

    /// The `SELECT` statement for the first row under the query's order.
    pub fn find_one(&self, d: Dialect, q: &Query) -> (r: String)
        ensures
            r@ == self.find_one_spec(d, *q),
    {
        let mut out = String::new();
        out.append("SELECT ");
        out.append(q.format_fields(d).as_str());
        out.append(" FROM ");
        out.append(self.table_name.as_str());
        out.append(" ");
        out.append(q.format_filter(d, &self.columns).as_str());
        out.append(" ");
        out.append(q.format_sort().as_str());
        out.append(" LIMIT 1;");
        assert(out@ =~= self.find_one_spec(d, *q));
        out
    }
}

/// A parenthesised, comma-separated list.
fn tuple_text(parts: &Vec<String>) -> (r: String)
    ensures
        r@ == tuple(views(parts@)),
{
    let mut out = String::new();
    out.append("(");
    out.append(join_strings(parts, ",").as_str());
    out.append(")");
    assert(out@ =~= tuple(views(parts@)));
    out
}

/// The full-text language of an index kind that begins with `text`
/// (`text:<lang>`, or English), or `None` for another kind.
pub open spec fn text_language(kind: Seq<char>) -> Option<Seq<char>> {
    if kind.len() >= 4 && kind.subrange(0, 4) == "text"@ {
        if kind.len() >= 5 && kind.subrange(0, 5) == "text:"@ {
            Some(kind.subrange(5, kind.len() as int))
        } else {
            Some("english"@)
        }
    } else {
        None
    }
}

/// The statement that indexes one column directly.
pub open spec fn plain_index(table: Seq<char>, column: Seq<char>, kind: Seq<char>) -> Seq<char> {
    "CREATE INDEX CONCURRENTLY IF NOT EXISTS "@ + table + "_"@ + column + "_index ON "@ + table
        + " USING "@ + kind + "("@ + column + if kind == "btree"@ {
        " DESC"@
    } else {
        Seq::empty()
    } + ");"@
}

/// The direct indexes of the first `n` columns.
pub open spec fn plain_indexes(table: Seq<char>, cols: Seq<Column>, n: nat) -> Seq<Seq<char>>
    decreases n,
{
    if n == 0 || n > cols.len() {
        Seq::empty()
    } else {
        let init = plain_indexes(table, cols, (n - 1) as nat);
        match cols[n - 1].index_type {
            Some(k) => if text_language(k@) is None {
                init.push(plain_index(table, cols[n - 1].name@, k@))
            } else {
                init
            },
            None => init,
        }
    }
}

/// The distinct full-text languages of the first `n` columns, in order of first use.
pub open spec fn text_languages(cols: Seq<Column>, n: nat) -> Seq<Seq<char>>
    decreases n,
{
    if n == 0 || n > cols.len() {
        Seq::empty()
    } else {
        let init = text_languages(cols, (n - 1) as nat);
        match cols[n - 1].index_type {
            Some(k) => match text_language(k@) {
                Some(lang) => if init.contains(lang) {
                    init
                } else {
                    init.push(lang)
                },
                None => init,
            },
            None => init,
        }
    }
}

/// The text expressions of the first `n` columns indexed for `lang`.
pub open spec fn text_columns(cols: Seq<Column>, lang: Seq<char>, n: nat) -> Seq<Seq<char>>
    decreases n,
{
    if n == 0 || n > cols.len() {
        Seq::empty()
    } else {
        let init = text_columns(cols, lang, (n - 1) as nat);
        match cols[n - 1].index_type {
            Some(k) => if text_language(k@) == Some(lang) {
                init.push("coalesce("@ + cols[n - 1].name@ + ", '')"@)
            } else {
                init
            },
            None => init,
        }
    }
}

/// The one full-text index for the columns of a language.
pub open spec fn text_index(table: Seq<char>, cols: Seq<Column>, lang: Seq<char>) -> Seq<char> {
    "CREATE INDEX CONCURRENTLY IF NOT EXISTS "@ + table + "_text_search_"@ + lang + "_index ON "@
        + table + " USING gin(to_tsvector('"@ + lang + "', "@ + join_seq(
        text_columns(cols, lang, cols.len()),
        " || ' ' || "@,
    ) + "));"@
}

impl Schema {
    /// The index statements: one per directly indexed column, then one
    /// full-text index per language.
    pub open spec fn create_indexes_spec(&self) -> Seq<Seq<char>> {
        let t = self.table_name@;
        let cols = self.columns@;
        plain_indexes(t, cols, cols.len()) + text_languages(cols, cols.len()).map_values(
            |lang: Seq<char>| text_index(t, cols, lang),
        )
    }

    /// The text expressions of the columns indexed for `lang`.
    fn text_columns_text(&self, lang: &str) -> (r: Vec<String>)
        ensures
            views(r@) == text_columns(self.columns@, lang@, self.columns@.len()),
    {
        let mut out: Vec<String> = Vec::new();
        let mut i: usize = 0;
        while i < self.columns.len()
            invariant
                i <= self.columns@.len(),
                views(out@) == text_columns(self.columns@, lang@, i as nat),
            decreases self.columns.len() - i,
        {
            let ghost before = views(out@);
            if let Some(k) = &self.columns[i].index_type {
                if let Some(l) = index_language(k.as_str()) {
                    if crate::text::str_eq(l.as_str(), lang) {
                        let mut e = String::new();
                        e.append("coalesce(");
                        e.append(self.columns[i].name.as_str());
                        e.append(", '')");
                        out.push(e);
                        assert(views(out@) =~= before.push(e@));
                    }
                }
            }
            i = i + 1;
        }
        out
    }

    /// The `CREATE INDEX` statements of the schema.
    pub fn create_indexes(&self) -> (r: Vec<String>)
        ensures
            views(r@) == self.create_indexes_spec(),
    {
        let t = self.table_name.as_str();
        let mut out: Vec<String> = Vec::new();
        let mut langs: Vec<String> = Vec::new();
        let mut i: usize = 0;
        while i < self.columns.len()
            invariant
                i <= self.columns@.len(),
                t@ == self.table_name@,
                views(out@) == plain_indexes(t@, self.columns@, i as nat),
                views(langs@) == text_languages(self.columns@, i as nat),
            decreases self.columns.len() - i,
        {
            let ghost out_before = views(out@);
            let ghost langs_before = views(langs@);
            if let Some(k) = &self.columns[i].index_type {
                match index_language(k.as_str()) {
                    Some(lang) => {
                        if !contains_string(&langs, lang.as_str()) {
                            langs.push(lang);
                            assert(views(langs@) =~= langs_before.push(lang@));
                        }
                    },
                    None => {
                        let c = self.columns[i].name.as_str();
                        let mut st = String::new();
                        st.append("CREATE INDEX CONCURRENTLY IF NOT EXISTS ");
                        st.append(t);
                        st.append("_");
                        st.append(c);
                        st.append("_index ON ");
                        st.append(t);
                        st.append(" USING ");
                        st.append(k.as_str());
                        st.append("(");
                        st.append(c);
                        if crate::text::str_eq(k.as_str(), "btree") {
                            st.append(" DESC");
                        }
                        st.append(");");
                        proof {
                            reveal_strlit("");
                        }
                        assert(st@ =~= plain_index(t@, c@, k@));
                        out.push(st);
                        assert(views(out@) =~= out_before.push(st@));
                    },
                }
            }
            i = i + 1;
        }
        let ghost plain = views(out@);
        let mut j: usize = 0;
        while j < langs.len()
            invariant
                j <= langs@.len(),
                t@ == self.table_name@,
                views(langs@) == text_languages(self.columns@, self.columns@.len()),
                views(out@) == plain + views(langs@).subrange(0, j as int).map_values(
                    |lang: Seq<char>| text_index(t@, self.columns@, lang),
                ),
            decreases langs.len() - j,
        {
            let lang = langs[j].as_str();
            let exprs = self.text_columns_text(lang);
            let mut st = String::new();
            st.append("CREATE INDEX CONCURRENTLY IF NOT EXISTS ");
            st.append(t);
            st.append("_text_search_");
            st.append(lang);
            st.append("_index ON ");
            st.append(t);
            st.append(" USING gin(to_tsvector('");
            st.append(lang);
            st.append("', ");
            st.append(join_strings(&exprs, " || ' ' || ").as_str());
            st.append("));");
            assert(st@ =~= text_index(t@, self.columns@, lang@));
            let ghost before = views(out@);
            assert(views(langs@)[j as int] == lang@);
            out.push(st);
            j = j + 1;
            proof {
                let f = |lang: Seq<char>| text_index(t@, self.columns@, lang);
                let prev = views(langs@).subrange(0, j - 1).map_values(f);
                let next = views(langs@).subrange(0, j as int).map_values(f);
                assert(next =~= prev.push(f(lang@)));
                assert(views(out@) =~= before.push(st@));
            }
            assert(views(out@) =~= plain + views(langs@).subrange(0, j as int).map_values(
                |lang: Seq<char>| text_index(t@, self.columns@, lang),
            ));
        }
        assert(views(langs@).subrange(0, langs@.len() as int) =~= views(langs@));
        out
    }
}

/// The full-text language of an index kind.
fn index_language(kind: &str) -> (r: Option<String>)
    ensures
        match r {
            Some(l) => text_language(kind@) == Some(l@),
            None => text_language(kind@) is None,
        },
{
    proof {
        reveal_strlit("text");
        reveal_strlit("text:");
    }
    if crate::text::starts_with(kind, "text") {
        if crate::text::starts_with(kind, "text:") {
            let n = kind.unicode_len();
            Some(kind.substring_char(5, n).to_owned())
        } else {
            proof {
                if kind@.len() >= 5 && kind@.subrange(0, 5) == "text:"@ {
                    assert(false);
                }
            }
            Some("english".to_owned())
        }
    } else {
        proof {
            if kind@.len() >= 4 && kind@.subrange(0, 4) == "text"@ {
                assert(false);
            }
        }
        None
    }
}

/// Whether `v` holds a string equal to `s`.
fn contains_string(v: &Vec<String>, s: &str) -> (r: bool)
    ensures
        r == views(v@).contains(s@),
{
    let mut i: usize = 0;
    while i < v.len()
        invariant
            i <= v@.len(),
            forall|j: int| 0 <= j < i ==> v@[j]@ != s@,
        decreases v.len() - i,
    {
        if crate::text::str_eq(v[i].as_str(), s) {
            assert(views(v@)[i as int] == s@);
            return true;
        }
        i = i + 1;
    }
    assert forall|j: int| 0 <= j < views(v@).len() implies views(v@)[j] != s@ by {
        assert(views(v@)[j] == v@[j]@);
    }
    false
}


impl Schema {
    pub open spec fn get_model_spec(&self, key: Seq<char>) -> Seq<char> {
        "SELECT * FROM "@ + self.table_name@ + " WHERE "@ + self.primary_key_name@ + " = "@
            + crate::text::quoted(key) + ";"@
    }

    /// The statement that reads the row with the given primary key.
    pub fn get_model_query(&self, key: &str) -> (r: String)
        ensures
            r@ == self.get_model_spec(key@),
    {
        let mut out = String::new();
        out.append("SELECT * FROM ");
        out.append(self.table_name.as_str());
        out.append(" WHERE ");
        out.append(self.primary_key_name.as_str());
        out.append(" = ");
        out.append(crate::text::escape_string(key).as_str());
        out.append(";");
        assert(out@ =~= self.get_model_spec(key@));
        out
    }
}

/// Compiling a query document gives the same SQL text every time, and for
/// any query with the same content: the text depends on the characters of
/// the document's strings and on nothing else.
pub proof fn lemma_compile_deterministic(s: Schema, d: Dialect, q1: Query, q2: Query, m: Mutation)
    requires
        crate::query::same_query(q1, q2),
    ensures
        s.find_spec(d, q1) == s.find_spec(d, q2),
        s.find_one_spec(d, q1) == s.find_one_spec(d, q2),
        s.update_one_spec(d, q1, m) == s.update_one_spec(d, q2, m),
        s.update_many_spec(d, q1, m) == s.update_many_spec(d, q2, m),
        s.delete_one_spec(d, q1) == s.delete_one_spec(d, q2),
        s.delete_many_spec(d, q1) == s.delete_many_spec(d, q2),
{
    Query::lemma_same_clauses(q1, q2, d, s.columns@);
}

} // verus!
