//! Column metadata and the semantic type of each column.
use crate::text::str_eq;
use vstd::prelude::*;

verus! {

/// The SQL dialect that statements are rendered for.
#[derive(Clone, Copy, Debug, PartialEq, Eq, Structural)]
pub enum Dialect {
    MySql,
    Postgres,
}

/// The semantic type of a column, read from its type name.
#[derive(Clone, Copy, Debug, PartialEq, Eq, Structural)]
pub enum TypeKind {
    Bool,
    U64,
    I64,
    Usize,
    Isize,
    U32,
    I32,
    U16,
    I16,
    U8,
    I8,
    F64,
    F32,
    Text,
    DateTime,
    NaiveDateTime,
    NaiveDate,
    Date,
    NaiveTime,
    Time,
    Uuid,
    OptionUuid,
    Bytes,
    StringArray,
    UuidArray,
    JsonMap,
    Other,
}

/// The semantic type that a type name denotes.
pub open spec fn kind_of(t: Seq<char>) -> TypeKind {
    if t == "bool"@ {
        TypeKind::Bool
    } else if t == "u64"@ {
        TypeKind::U64
    } else if t == "i64"@ {
        TypeKind::I64
    } else if t == "usize"@ {
        TypeKind::Usize
    } else if t == "isize"@ {
        TypeKind::Isize
    } else if t == "u32"@ {
        TypeKind::U32
    } else if t == "i32"@ {
        TypeKind::I32
    } else if t == "u16"@ {
        TypeKind::U16
    } else if t == "i16"@ {
        TypeKind::I16
    } else if t == "u8"@ {
        TypeKind::U8
    } else if t == "i8"@ {
        TypeKind::I8
    } else if t == "f64"@ {
        TypeKind::F64
    } else if t == "f32"@ {
        TypeKind::F32
    } else if t == "String"@ {
        TypeKind::Text
    } else if t == "DateTime"@ {
        TypeKind::DateTime
    } else if t == "NaiveDateTime"@ {
        TypeKind::NaiveDateTime
    } else if t == "NaiveDate"@ {
        TypeKind::NaiveDate
    } else if t == "Date"@ {
        TypeKind::Date
    } else if t == "NaiveTime"@ {
        TypeKind::NaiveTime
    } else if t == "Time"@ {
        TypeKind::Time
    } else if t == "Uuid"@ {
        TypeKind::Uuid
    } else if t == "Option<Uuid>"@ {
        TypeKind::OptionUuid
    } else if t == "Vec<u8>"@ {
        TypeKind::Bytes
    } else if t == "Vec<String>"@ {
        TypeKind::StringArray
    } else if t == "Vec<Uuid>"@ {
        TypeKind::UuidArray
    } else if t == "Map"@ {
        TypeKind::JsonMap
    } else {
        TypeKind::Other
    }
}

/// Reads the semantic type from a type name.
pub fn classify(t: &str) -> (r: TypeKind)
    ensures
        r == kind_of(t@),
{
    if str_eq(t, "bool") {
        TypeKind::Bool
    } else if str_eq(t, "u64") {
        TypeKind::U64
    } else if str_eq(t, "i64") {
        TypeKind::I64
    } else if str_eq(t, "usize") {
        TypeKind::Usize
    } else if str_eq(t, "isize") {
        TypeKind::Isize
    } else if str_eq(t, "u32") {
        TypeKind::U32
    } else if str_eq(t, "i32") {
        TypeKind::I32
    } else if str_eq(t, "u16") {
        TypeKind::U16
    } else if str_eq(t, "i16") {
        TypeKind::I16
    } else if str_eq(t, "u8") {
        TypeKind::U8
    } else if str_eq(t, "i8") {
        TypeKind::I8
    } else if str_eq(t, "f64") {
        TypeKind::F64
    } else if str_eq(t, "f32") {
        TypeKind::F32
    } else if str_eq(t, "String") {
        TypeKind::Text
    } else if str_eq(t, "DateTime") {
        TypeKind::DateTime
    } else if str_eq(t, "NaiveDateTime") {
        TypeKind::NaiveDateTime
    } else if str_eq(t, "NaiveDate") {
        TypeKind::NaiveDate
    } else if str_eq(t, "Date") {
        TypeKind::Date
    } else if str_eq(t, "NaiveTime") {
        TypeKind::NaiveTime
    } else if str_eq(t, "Time") {
        TypeKind::Time
    } else if str_eq(t, "Uuid") {
        TypeKind::Uuid
    } else if str_eq(t, "Option<Uuid>") {
        TypeKind::OptionUuid
    } else if str_eq(t, "Vec<u8>") {
        TypeKind::Bytes
    } else if str_eq(t, "Vec<String>") {
        TypeKind::StringArray
    } else if str_eq(t, "Vec<Uuid>") {
        TypeKind::UuidArray
    } else if str_eq(t, "Map") {
        TypeKind::JsonMap
    } else {
        TypeKind::Other
    }
}

/// The table and column that a foreign key points at.
pub struct Reference {
    pub name: String,
    pub column_name: String,
}

/// One field of an entity: its name, semantic type name and constraints.
pub struct Column {
    pub name: String,
    pub semantic_type: String,
    pub not_null: bool,
    pub default_value: Option<String>,
    pub index_type: Option<String>,
    pub auto_increment: bool,
    pub reference: Option<Reference>,
    /// A column name in the table that differs from the field name.
    pub column_name: Option<String>,
    /// Whether a foreign-key constraint is declared for the reference.
    pub foreign_key: bool,
    pub on_delete: Option<String>,
    pub on_update: Option<String>,
}

impl Column {
    /// The semantic type of the column.
    pub open spec fn kind(&self) -> TypeKind {
        kind_of(self.semantic_type@)
    }

    /// The name of the column in the table.
    pub open spec fn table_column_name(&self) -> Seq<char> {
        match self.column_name {
            Some(n) => n@,
            None => self.name@,
        }
    }

    /// A column with the given name and type name and no other attribute.
    pub fn new(name: &str, semantic_type: &str) -> (r: Column)
        ensures
            r.name@ == name@,
            r.semantic_type@ == semantic_type@,
            !r.not_null,
            r.default_value is None,
            r.index_type is None,
            !r.auto_increment,
            r.reference is None,
            r.column_name is None,
            !r.foreign_key,
            r.on_delete is None,
            r.on_update is None,
    {
        Column {
            name: name.to_owned(),
            semantic_type: semantic_type.to_owned(),
            not_null: false,
            default_value: None,
            index_type: None,
            auto_increment: false,
            reference: None,
            column_name: None,
            foreign_key: false,
            on_delete: None,
            on_update: None,
        }
    }

    /// The semantic type of the column.
    pub fn type_kind(&self) -> (r: TypeKind)
        ensures
            r == self.kind(),
    {
        classify(self.semantic_type.as_str())
    }

    /// The name of the column in the table.
    pub fn column_name(&self) -> (r: &str)
        ensures
            r@ == self.table_column_name(),
    {
        match &self.column_name {
            Some(n) => n.as_str(),
            None => self.name.as_str(),
        }
    }
}

/// The DDL type token of a column of semantic type `k` under dialect `d`.
/// `keyed` says whether the column has a default value or an index, which
/// bounds string columns under MySQL; `t` is the type name, which unknown
/// types pass through.
pub open spec fn column_type_spec(d: Dialect, k: TypeKind, keyed: bool, t: Seq<char>) -> Seq<char> {
    match d {
        Dialect::Postgres => match k {
            TypeKind::Bool => "BOOLEAN"@,
            TypeKind::U64 => "BIGINT"@,
            TypeKind::I64 => "BIGINT"@,
            TypeKind::Usize => "BIGINT"@,
            TypeKind::Isize => "BIGINT"@,
            TypeKind::U32 => "INT"@,
            TypeKind::I32 => "INT"@,
            TypeKind::U16 => "SMALLINT"@,
            TypeKind::I16 => "SMALLINT"@,
            TypeKind::U8 => "SMALLINT"@,
            TypeKind::I8 => "SMALLINT"@,
            TypeKind::F64 => "DOUBLE PRECISION"@,
            TypeKind::F32 => "REAL"@,
            TypeKind::Text => "TEXT"@,
            TypeKind::DateTime => "TIMESTAMPTZ"@,
            TypeKind::NaiveDateTime => "TIMESTAMP"@,
            TypeKind::NaiveDate => "DATE"@,
            TypeKind::Date => "DATE"@,
            TypeKind::NaiveTime => "TIME"@,
            TypeKind::Time => "TIME"@,
            TypeKind::Uuid => "UUID"@,
            TypeKind::OptionUuid => "UUID"@,
            TypeKind::Bytes => "BYTEA"@,
            TypeKind::StringArray => "TEXT[]"@,
            TypeKind::UuidArray => "UUID[]"@,
            TypeKind::JsonMap => "JSONB"@,
            TypeKind::Other => t,
        },
        Dialect::MySql => match k {
            TypeKind::Bool => "BOOLEAN"@,
            TypeKind::U64 => "BIGINT UNSIGNED"@,
            TypeKind::I64 => "BIGINT"@,
            TypeKind::Usize => "BIGINT UNSIGNED"@,
            TypeKind::Isize => "BIGINT"@,
            TypeKind::U32 => "INT UNSIGNED"@,
            TypeKind::I32 => "INT"@,
            TypeKind::U16 => "SMALLINT UNSIGNED"@,
            TypeKind::I16 => "SMALLINT"@,
            TypeKind::U8 => "TINYINT UNSIGNED"@,
            TypeKind::I8 => "TINYINT"@,
            TypeKind::F64 => "DOUBLE"@,
            TypeKind::F32 => "FLOAT"@,
            TypeKind::DateTime => "TIMESTAMP(6)"@,
            TypeKind::NaiveDateTime => "DATETIME(6)"@,
            TypeKind::NaiveDate => "DATE"@,
            TypeKind::Date => "DATE"@,
            TypeKind::NaiveTime => "TIME"@,
            TypeKind::Time => "TIME"@,
            TypeKind::Uuid => "VARCHAR(36)"@,
            TypeKind::OptionUuid => "VARCHAR(36)"@,
            TypeKind::Bytes => "BLOB"@,
            TypeKind::StringArray => "JSON"@,
            TypeKind::UuidArray => "JSON"@,
            TypeKind::JsonMap => "JSON"@,
            TypeKind::Text => if keyed { "VARCHAR(255)"@ } else { "TEXT"@ },
            TypeKind::Other => t,
        },
    }
}

impl Column {
    /// Whether the column has a default value or an index.
    pub open spec fn keyed(&self) -> bool {
        self.default_value is Some || self.index_type is Some
    }

    /// The DDL type token of the column under the dialect.
    pub open spec fn column_type_view(&self, d: Dialect) -> Seq<char> {
        column_type_spec(d, self.kind(), self.keyed(), self.semantic_type@)
    }

    /// The DDL type token of the column under the dialect.
    pub fn column_type(&self, d: Dialect) -> (r: &str)
        ensures
            r@ == self.column_type_view(d),
    {
        let k = self.type_kind();
        match d {
            Dialect::Postgres => match k {
            TypeKind::Bool => "BOOLEAN",
            TypeKind::U64 => "BIGINT",
            TypeKind::I64 => "BIGINT",
            TypeKind::Usize => "BIGINT",
            TypeKind::Isize => "BIGINT",
            TypeKind::U32 => "INT",
            TypeKind::I32 => "INT",
            TypeKind::U16 => "SMALLINT",
            TypeKind::I16 => "SMALLINT",
            TypeKind::U8 => "SMALLINT",
            TypeKind::I8 => "SMALLINT",
            TypeKind::F64 => "DOUBLE PRECISION",
            TypeKind::F32 => "REAL",
            TypeKind::Text => "TEXT",
            TypeKind::DateTime => "TIMESTAMPTZ",
            TypeKind::NaiveDateTime => "TIMESTAMP",
            TypeKind::NaiveDate => "DATE",
            TypeKind::Date => "DATE",
            TypeKind::NaiveTime => "TIME",
            TypeKind::Time => "TIME",
            TypeKind::Uuid => "UUID",
            TypeKind::OptionUuid => "UUID",
            TypeKind::Bytes => "BYTEA",
            TypeKind::StringArray => "TEXT[]",
            TypeKind::UuidArray => "UUID[]",
            TypeKind::JsonMap => "JSONB",
                TypeKind::Other => self.semantic_type.as_str(),
            },
            Dialect::MySql => match k {
            TypeKind::Bool => "BOOLEAN",
            TypeKind::U64 => "BIGINT UNSIGNED",
            TypeKind::I64 => "BIGINT",
            TypeKind::Usize => "BIGINT UNSIGNED",
            TypeKind::Isize => "BIGINT",
            TypeKind::U32 => "INT UNSIGNED",
            TypeKind::I32 => "INT",
            TypeKind::U16 => "SMALLINT UNSIGNED",
            TypeKind::I16 => "SMALLINT",
            TypeKind::U8 => "TINYINT UNSIGNED",
            TypeKind::I8 => "TINYINT",
            TypeKind::F64 => "DOUBLE",
            TypeKind::F32 => "FLOAT",
            TypeKind::DateTime => "TIMESTAMP(6)",
            TypeKind::NaiveDateTime => "DATETIME(6)",
            TypeKind::NaiveDate => "DATE",
            TypeKind::Date => "DATE",
            TypeKind::NaiveTime => "TIME",
            TypeKind::Time => "TIME",
            TypeKind::Uuid => "VARCHAR(36)",
            TypeKind::OptionUuid => "VARCHAR(36)",
            TypeKind::Bytes => "BLOB",
            TypeKind::StringArray => "JSON",
            TypeKind::UuidArray => "JSON",
            TypeKind::JsonMap => "JSON",
                TypeKind::Text => if self.default_value.is_some() || self.index_type.is_some() {
                    "VARCHAR(255)"
                } else {
                    "TEXT"
                },
                TypeKind::Other => self.semantic_type.as_str(),
            },
        }
    }
}

/// Every semantic type but an unknown one has a non-empty DDL token under
/// each dialect.
pub proof fn lemma_column_type_nonempty(d: Dialect, k: TypeKind, keyed: bool, t: Seq<char>)
    requires
        k != TypeKind::Other,
    ensures
        column_type_spec(d, k, keyed, t).len() > 0,
{
    reveal_strlit("BIGINT");
    reveal_strlit("BIGINT UNSIGNED");
    reveal_strlit("BLOB");
    reveal_strlit("BOOLEAN");
    reveal_strlit("BYTEA");
    reveal_strlit("DATE");
    reveal_strlit("DATETIME(6)");
    reveal_strlit("DOUBLE");
    reveal_strlit("DOUBLE PRECISION");
    reveal_strlit("FLOAT");
    reveal_strlit("INT");
    reveal_strlit("INT UNSIGNED");
    reveal_strlit("JSON");
    reveal_strlit("JSONB");
    reveal_strlit("REAL");
    reveal_strlit("SMALLINT");
    reveal_strlit("SMALLINT UNSIGNED");
    reveal_strlit("TEXT");
    reveal_strlit("TEXT[]");
    reveal_strlit("TIME");
    reveal_strlit("TIMESTAMP");
    reveal_strlit("TIMESTAMP(6)");
    reveal_strlit("TIMESTAMPTZ");
    reveal_strlit("TINYINT");
    reveal_strlit("TINYINT UNSIGNED");
    reveal_strlit("UUID");
    reveal_strlit("UUID[]");
    reveal_strlit("VARCHAR(255)");
    reveal_strlit("VARCHAR(36)");
}

} // verus!
