//! A schema-driven SQL compiler for document-shaped queries and mutations,
//! with per-dialect value encoding, row decoding and a pool registry.

mod column;
mod ddl;
mod decode;
mod encode;
mod fetch;
mod filter;
mod header;
mod json;
mod models;
mod number;
mod pool;
mod query;
mod schema;
mod text;
mod token;
mod trace;
mod value;

pub use column::{classify, Column, Dialect, Reference, TypeKind};
pub use ddl::{model_namespace, table_name};
pub use decode::{decode_cell, decode_row, native_kind, Cell, NativeKind};
pub use fetch::{
    associate, collect_document_keys, collect_keys, copy_value, splice_document, splice_rows,
    splice_value,
};
pub use header::{check_json_content_type, content_type_essence, get_data_type, select_language, trim};
pub use json::push_json;
pub use models::{Application, Group, Log, Message, Task};
pub use number::{i64_text, is_float_text, is_i64_text, is_u64_text, parse_i64, u64_text};
pub use pool::{needs_ping, ConfigError, ConnectionPool, ConnectionPools, PoolConfig, PoolSettings};
pub use query::{column_index, format_field, parse_text_search, placeholder, Mutation, Query};
pub use schema::Schema;
pub use text::{escape_string, join_strings, split_char};
pub use token::{ParseSecurityTokenError, SecurityToken};
pub use trace::{parse_hex, TraceContext, TraceState};
pub use value::{find_entry, Document, JsonValue};
