//! Per-column DDL fragments and the naming of tables.
use crate::column::{Column, Dialect};
use crate::encode::format_value_spec;
use crate::text::{push_char, str_eq};
use convert_case::{Case, Casing};
use vstd::prelude::*;

verus! {

/// What `convert_case` makes of a text in upper case (`HELLO WORLD`).
pub uninterp spec fn upper_case_of(s: Seq<char>) -> Seq<char>;

/// What `convert_case` makes of a text in snake case (`hello_world`).
pub uninterp spec fn snake_case_of(s: Seq<char>) -> Seq<char>;

/// Relies on convert_case's `Casing::to_case` with `Case::Upper`, whose
/// result depends on the text alone.
#[verifier::external_body]
fn to_upper_case(s: &str) -> (r: String)
    ensures
        r@ == upper_case_of(s@),
{
    s.to_case(Case::Upper)
}

/// Relies on convert_case's `Casing::to_case` with `Case::Snake`, whose
/// result depends on the text alone.
#[verifier::external_body]
fn to_snake_case(s: &str) -> (r: String)
    ensures
        r@ == snake_case_of(s@),
{
    s.to_case(Case::Snake)
}

/// The cast that a parameter bound for a column of DDL type `t` needs under
/// PostgreSQL; MySQL needs none.
pub open spec fn annotation_spec(d: Dialect, t: Seq<char>) -> Seq<char> {
    match d {
        Dialect::Postgres => if t == "UUID"@ {
            "::UUID"@
        } else if t == "BIGINT"@ || t == "BIGSERIAL"@ {
            "::BIGINT"@
        } else if t == "INT"@ || t == "SERIAL"@ {
            "::INT"@
        } else if t == "SMALLINT"@ || t == "SMALLSERIAL"@ {
            "::SMALLINT"@
        } else {
            "::TEXT"@
        },
        Dialect::MySql => Seq::empty(),
    }
}

/// A column's definition: name, type, primary key, then its default (or the
/// auto-increment marker) or `NOT NULL`.
pub open spec fn definition_spec(d: Dialect, col: Column, pk: Seq<char>) -> Seq<char> {
    let name = col.table_column_name();
    name + " "@ + col.column_type_view(d) + if name == pk {
        " PRIMARY KEY"@
    } else {
        Seq::empty()
    } + match col.default_value {
        Some(v) => if col.auto_increment {
            match d {
                Dialect::MySql => " AUTO_INCREMENT"@,
                Dialect::Postgres => Seq::empty(),
            }
        } else {
            " DEFAULT "@ + format_value_spec(d, col, v@)
        },
        None => if col.not_null {
            " NOT NULL"@
        } else {
            Seq::empty()
        },
    }
}

/// The foreign-key constraint of a column, where it declares one.
pub open spec fn constraints_spec(col: Column) -> Seq<Seq<char>> {
    match col.reference {
        Some(r) => if col.foreign_key {
            seq![
                "FOREIGN KEY ("@ + col.table_column_name() + ") REFERENCES "@ + r.name@ + "("@
                    + r.column_name@ + ")"@ + match col.on_delete {
                    Some(a) => " ON DELETE "@ + upper_case_of(a@),
                    None => Seq::empty(),
                } + match col.on_update {
                    Some(a) => " ON UPDATE "@ + upper_case_of(a@),
                    None => Seq::empty(),
                },
            ]
        } else {
            Seq::empty()
        },
        None => Seq::empty(),
    }
}

impl Column {
    /// The cast for a bound parameter of the column.
    pub fn type_annotation(&self, d: Dialect) -> (r: &'static str)
        ensures
            r@ == annotation_spec(d, self.column_type_view(d)),
    {
        match d {
            Dialect::Postgres => {
                let t = self.column_type(d);
                if str_eq(t, "UUID") {
                    "::UUID"
                } else if str_eq(t, "BIGINT") || str_eq(t, "BIGSERIAL") {
                    "::BIGINT"
                } else if str_eq(t, "INT") || str_eq(t, "SERIAL") {
                    "::INT"
                } else if str_eq(t, "SMALLINT") || str_eq(t, "SMALLSERIAL") {
                    "::SMALLINT"
                } else {
                    "::TEXT"
                }
            },
            Dialect::MySql => {
                proof {
                    reveal_strlit("");
                }
                ""
            },
        }
    }

    /// The column's definition in a table whose primary key is `pk`.
    pub fn field_definition(&self, d: Dialect, pk: &str) -> (r: String)
        ensures
            r@ == definition_spec(d, *self, pk@),
    {
        let name = self.column_name();
        let mut out = String::new();
        out.append(name);
        out.append(" ");
        out.append(self.column_type(d));
        if str_eq(name, pk) {
            out.append(" PRIMARY KEY");
        }
        match &self.default_value {
            Some(v) => if self.auto_increment {
                if d == Dialect::MySql {
                    out.append(" AUTO_INCREMENT");
                }
            } else {
                out.append(" DEFAULT ");
                out.append(self.format_value(d, v.as_str()).as_str());
            },
            None => if self.not_null {
                out.append(" NOT NULL");
            },
        }
        assert(out@ =~= definition_spec(d, *self, pk@));
        out
    }

    /// The column's foreign-key constraint, where it declares one.
    pub fn constraints(&self) -> (r: Vec<String>)
        ensures
            crate::text::views(r@) == constraints_spec(*self),
    {
        let mut out: Vec<String> = Vec::new();
        if let Some(reference) = &self.reference {
            if self.foreign_key {
                let mut c = String::new();
                c.append("FOREIGN KEY (");
                c.append(self.column_name());
                c.append(") REFERENCES ");
                c.append(reference.name.as_str());
                c.append("(");
                c.append(reference.column_name.as_str());
                c.append(")");
                if let Some(a) = &self.on_delete {
                    c.append(" ON DELETE ");
                    c.append(to_upper_case(a.as_str()).as_str());
                }
                if let Some(a) = &self.on_update {
                    c.append(" ON UPDATE ");
                    c.append(to_upper_case(a.as_str()).as_str());
                }
                let ghost head = "FOREIGN KEY ("@ + self.table_column_name() + ") REFERENCES "@
                    + reference.name@ + "("@ + reference.column_name@ + ")"@;
                let ghost del = match &self.on_delete {
                    Some(a) => " ON DELETE "@ + upper_case_of(a@),
                    None => Seq::<char>::empty(),
                };
                let ghost upd = match &self.on_update {
                    Some(a) => " ON UPDATE "@ + upper_case_of(a@),
                    None => Seq::<char>::empty(),
                };
                assert(c@ =~= head + del + upd);
                out.push(c);
                assert(crate::text::views(out@) =~= seq![head + del + upd]);
            }
        }
        out
    }
}

/// Whether `c` is an ASCII letter or digit.
pub open spec fn is_alnum(c: char) -> bool {
    ('a' <= c && c <= 'z') || ('A' <= c && c <= 'Z') || ('0' <= c && c <= '9')
}

/// `s` with every character but ASCII letters and digits turned into `_`.
pub open spec fn normalize_separators(s: Seq<char>) -> Seq<char> {
    s.map_values(|c: char| if is_alnum(c) { c } else { '_' })
}

/// The table name of an entity: the namespace in snake case and the entity
/// name joined by `_`, with every separator that is not a letter or digit
/// turned into `_`.
pub open spec fn table_name_spec(namespace: Seq<char>, model: Seq<char>) -> Seq<char> {
    normalize_separators(snake_case_of(namespace) + "_"@ + model)
}

/// The model namespace of an entity: the namespace in snake case and the
/// entity name joined by `:`.
pub open spec fn model_namespace_spec(namespace: Seq<char>, model: Seq<char>) -> Seq<char> {
    snake_case_of(namespace) + ":"@ + model
}

/// The table name of an entity in a namespace.
pub fn table_name(namespace: &str, model: &str) -> (r: String)
    ensures
        r@ == table_name_spec(namespace@, model@),
        forall|i: int| 0 <= i < r@.len() ==> is_alnum(#[trigger] r@[i]) || r@[i] == '_',
{
    let mut joined = to_snake_case(namespace);
    joined.append("_");
    joined.append(model);
    let s = joined.as_str();
    let n = s.unicode_len();
    let mut out = String::new();
    let mut i: usize = 0;
    while i < n
        invariant
            n == s@.len(),
            i <= n,
            out@ == normalize_separators(s@.subrange(0, i as int)),
        decreases n - i,
    {
        let c = s.get_char(i);
        let alnum = ('a' <= c && c <= 'z') || ('A' <= c && c <= 'Z') || ('0' <= c && c <= '9');
        push_char(&mut out, if alnum { c } else { '_' });
        i = i + 1;
        assert(out@ =~= normalize_separators(s@.subrange(0, i as int)));
    }
    assert(s@.subrange(0, n as int) =~= s@);
    out
}

/// The model namespace of an entity in a namespace.
pub fn model_namespace(namespace: &str, model: &str) -> (r: String)
    ensures
        r@ == model_namespace_spec(namespace@, model@),
{
    let mut joined = to_snake_case(namespace);
    joined.append(":");
    joined.append(model);
    joined
}

} // verus!
