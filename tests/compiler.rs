use zino_orm::{
    format_field, placeholder, Column, Dialect, JsonValue, Mutation, Query, Reference, Schema,
    TypeKind,
};

fn s(v: &str) -> JsonValue {
    JsonValue::Str(v.to_string())
}

fn n(v: &str) -> JsonValue {
    JsonValue::Number(v.to_string())
}

fn obj(entries: Vec<(&str, JsonValue)>) -> JsonValue {
    JsonValue::Object(entries.into_iter().map(|(k, v)| (k.to_string(), v)).collect())
}

fn col(name: &str, ty: &str) -> Column {
    Column::new(name, ty)
}

fn query(filters: Vec<(&str, JsonValue)>, sort_by: &str, descending: bool) -> Query {
    Query {
        fields: Vec::new(),
        filters: filters.into_iter().map(|(k, v)| (k.to_string(), v)).collect(),
        sort_by: sort_by.to_string(),
        descending,
        offset: 0,
        limit: 10,
    }
}

fn users() -> Schema {
    let mut name = col("name", "String");
    name.not_null = true;
    let mut age = col("age", "u32");
    age.default_value = Some("0".to_string());
    Schema {
        table_name: "app_user".to_string(),
        primary_key_name: "id".to_string(),
        columns: vec![col("id", "Uuid"), name, age],
    }
}

fn doc(entries: Vec<(&str, JsonValue)>) -> Vec<(String, JsonValue)> {
    entries.into_iter().map(|(k, v)| (k.to_string(), v)).collect()
}

#[test]
fn range_filter_on_numeric_column() {
    let c = col("age", "u32");
    for d in [Dialect::Postgres, Dialect::MySql] {
        assert_eq!(c.format_filter(d, "age", &s("18,65")), "age >= 18 AND age < 65");
    }
}

#[test]
fn string_sentinels() {
    let c = col("bio", "String");
    assert_eq!(c.format_filter(Dialect::Postgres, "bio", &s("null")), "(bio = '') IS NOT FALSE");
    assert_eq!(c.format_filter(Dialect::MySql, "bio", &s("notnull")), "(bio = '') IS FALSE");
}

#[test]
fn empty_membership_is_dropped() {
    let c = col("age", "u64");
    for op in ["$in", "$nin"] {
        let f = obj(vec![(op, JsonValue::Array(Vec::new()))]);
        assert_eq!(c.format_filter(Dialect::Postgres, "age", &f), "");
    }
    let cols = vec![col("age", "u64"), col("bio", "String")];
    let q = query(
        vec![("age", obj(vec![("$in", JsonValue::Array(Vec::new()))])), ("bio", s("x"))],
        "",
        false,
    );
    let clause = q.format_filter(Dialect::Postgres, &cols);
    assert_eq!(clause, "WHERE bio = 'x'");
    assert!(!clause.contains("age"));
}

#[test]
fn operator_objects() {
    let c = col("age", "u64");
    let f = obj(vec![("$in", JsonValue::Array(vec![n("1"), n("2")]))]);
    assert_eq!(c.format_filter(Dialect::Postgres, "age", &f), "(age IN (1,2))");
    let f = obj(vec![("$gte", n("18")), ("$lt", n("65")), ("$ne", n("30"))]);
    assert_eq!(
        c.format_filter(Dialect::MySql, "age", &f),
        "(age >= 18 AND age < 65 AND age <> 30)"
    );
    let tags = col("tags", "Vec<String>");
    let f = obj(vec![("$size", n("2"))]);
    assert_eq!(tags.format_filter(Dialect::Postgres, "tags", &f), "(array_length(tags, 1) = 2)");
    assert_eq!(tags.format_filter(Dialect::MySql, "tags", &f), "(tags = 2)");
}

#[test]
fn comparison_prefixes() {
    let c = col("age", "i32");
    assert_eq!(c.format_filter(Dialect::Postgres, "age", &s(">=18")), "age >= 18");
    assert_eq!(c.format_filter(Dialect::Postgres, "age", &s("<=")), "age = NULL");
    assert_eq!(c.format_filter(Dialect::Postgres, "age", &s("7")), "age = 7");
    assert_eq!(c.format_filter(Dialect::Postgres, "age", &n("7")), "age = 7");
    let t = col("bio", "String");
    assert_eq!(t.format_filter(Dialect::Postgres, "bio", &s("~abc")), "bio ~ 'abc'");
    assert_eq!(t.format_filter(Dialect::Postgres, "bio", &s("it's")), "bio = 'it''s'");
}

#[test]
fn uuid_filters() {
    let c = col("owner", "Uuid");
    assert_eq!(c.format_filter(Dialect::Postgres, "owner", &s("null")), "owner IS NULL");
    assert_eq!(c.format_filter(Dialect::Postgres, "owner", &s("notnull")), "owner IS NOT NULL");
    assert_eq!(c.format_filter(Dialect::MySql, "owner", &s("a,b")), "owner IN ('a','b')");
    assert_eq!(c.format_filter(Dialect::MySql, "owner", &s("a")), "owner = 'a'");
}

#[test]
fn array_filters() {
    let c = col("tags", "Vec<String>");
    assert_eq!(
        c.format_filter(Dialect::Postgres, "tags", &s("a;b")),
        "tags && ARRAY['a']::TEXT[] AND tags && ARRAY['b']::TEXT[]"
    );
    assert_eq!(c.format_filter(Dialect::Postgres, "tags", &s("a")), "tags && ARRAY['a']::TEXT[]");
    assert_eq!(
        c.format_filter(Dialect::Postgres, "tags", &s("a,b;c")),
        "tags && ARRAY['a','b']::TEXT[] AND tags && ARRAY['c']::TEXT[]"
    );
    assert_eq!(
        c.format_filter(Dialect::MySql, "tags", &s("a;b")),
        "json_overlaps(tags, json_array('a')) AND json_overlaps(tags, json_array('b'))"
    );
    assert_eq!(
        c.format_filter(Dialect::MySql, "tags", &s("a;b,c")),
        "json_overlaps(tags, json_array('a')) AND json_overlaps(tags, json_array('b','c'))"
    );
}

#[test]
fn map_and_bool_filters() {
    let m = col("extra", "Map");
    assert_eq!(m.format_filter(Dialect::Postgres, "extra", &s("$.a")), "extra @? '$.a'");
    let f = obj(vec![("k", s("v"))]);
    assert_eq!(
        m.format_filter(Dialect::Postgres, "extra", &f),
        "extra @> '{\"k\":\"v\"}'::JSONB"
    );
    assert_eq!(m.format_filter(Dialect::MySql, "extra", &f), "json_overlaps(extra, '{\"k\":\"v\"}')");
    let b = col("flag", "bool");
    assert_eq!(b.format_filter(Dialect::Postgres, "flag", &JsonValue::Bool(true)), "flag IS TRUE");
    assert_eq!(b.format_filter(Dialect::Postgres, "flag", &s("no")), "flag IS NOT TRUE");
}

#[test]
fn column_types_per_dialect() {
    let names = [
        "bool", "u64", "i64", "usize", "isize", "u32", "i32", "u16", "i16", "u8", "i8", "f64",
        "f32", "String", "DateTime", "NaiveDateTime", "NaiveDate", "Date", "NaiveTime", "Time",
        "Uuid", "Option<Uuid>", "Vec<u8>", "Vec<String>", "Vec<Uuid>", "Map",
    ];
    for name in names {
        let c = col("c", name);
        assert_ne!(c.type_kind(), TypeKind::Other);
        for d in [Dialect::Postgres, Dialect::MySql] {
            let first = c.column_type(d).to_string();
            assert!(!first.is_empty());
            assert_eq!(first, c.column_type(d));
        }
    }
    assert_eq!(col("c", "u64").column_type(Dialect::MySql), "BIGINT UNSIGNED");
    assert_eq!(col("c", "u64").column_type(Dialect::Postgres), "BIGINT");
    assert_eq!(col("c", "String").column_type(Dialect::MySql), "TEXT");
    let mut keyed = col("c", "String");
    keyed.index_type = Some("hash".to_string());
    assert_eq!(keyed.column_type(Dialect::MySql), "VARCHAR(255)");
    assert_eq!(col("c", "Decimal").column_type(Dialect::Postgres), "Decimal");
}

#[test]
fn value_formatting() {
    let d = Dialect::Postgres;
    assert_eq!(col("c", "u64").format_value(d, "abc"), "NULL");
    assert_eq!(col("c", "u64").format_value(d, "18446744073709551616"), "NULL");
    assert_eq!(col("c", "u64").format_value(d, "+7"), "+7");
    assert_eq!(col("c", "i64").format_value(d, "-5"), "-5");
    assert_eq!(col("c", "f64").format_value(d, "1.5e3"), "1.5e3");
    assert_eq!(col("c", "f64").format_value(d, "-Infinity"), "-Infinity");
    assert_eq!(col("c", "f64").format_value(d, "1.2.3"), "NULL");
    assert_eq!(col("c", "f64").format_value(d, "."), "NULL");
    assert_eq!(col("c", "bool").format_value(d, "true"), "TRUE");
    assert_eq!(col("c", "DateTime").format_value(d, "now"), "now()");
    assert_eq!(col("c", "DateTime").format_value(Dialect::MySql, "now"), "current_timestamp(6)");
    assert_eq!(col("c", "Date").format_value(d, "today"), "curdate()");
    assert_eq!(col("c", "Time").format_value(d, "midnight"), "'allballs'");
    assert_eq!(col("c", "Time").format_value(Dialect::MySql, "midnight"), "'00:00:00'");
    assert_eq!(col("c", "Vec<u8>").format_value(d, "ff"), "'\\xff'");
    assert_eq!(col("c", "Map").format_value(d, "{}"), "'{}'::jsonb");
    assert_eq!(col("c", "Map").format_value(Dialect::MySql, "{\"a\":\"it's\"}"), "'{\"a\":\"it''s\"}'");
    assert_eq!(col("c", "Decimal").format_value(d, "1"), "NULL");
}

#[test]
fn value_encoding() {
    let d = Dialect::Postgres;
    let mut at = col("at", "DateTime");
    assert_eq!(at.encode_value(d, None), "NULL");
    at.default_value = Some("now".to_string());
    assert_eq!(at.encode_value(d, None), "DEFAULT");
    assert_eq!(at.encode_value(d, Some(&s(""))), "now()");
    assert_eq!(col("c", "String").encode_value(d, Some(&s(""))), "''");
    assert_eq!(col("c", "String").encode_value(d, Some(&s("null"))), "NULL");
    assert_eq!(col("c", "String").encode_value(d, Some(&JsonValue::Null)), "NULL");
    let tags = col("tags", "Vec<String>");
    let arr = JsonValue::Array(vec![s("a"), n("1")]);
    assert_eq!(tags.encode_value(d, Some(&arr)), "ARRAY['a',1]::TEXT[]");
    assert_eq!(tags.encode_value(Dialect::MySql, Some(&arr)), "json_array('a',1)");
    let m = col("extra", "Map");
    let v = obj(vec![("a", s("x\"y\n")), ("b", JsonValue::Array(vec![JsonValue::Bool(false)]))]);
    assert_eq!(
        m.encode_value(Dialect::MySql, Some(&v)),
        "'{\"a\":\"x\\\"y\\n\",\"b\":[false]}'"
    );
}

#[test]
fn pagination_sort_and_fields() {
    let mut q = query(vec![], "id", false);
    q.offset = 20;
    assert_eq!(q.format_pagination(Dialect::Postgres), "LIMIT 10 OFFSET 20");
    assert_eq!(q.format_pagination(Dialect::MySql), "LIMIT 20, 10");
    assert_eq!(q.format_sort(), "ORDER BY id ASC");
    let cursor = query(vec![("id", s(">5"))], "id", true);
    assert_eq!(cursor.format_pagination(Dialect::Postgres), "LIMIT 10");
    assert_eq!(cursor.format_sort(), "ORDER BY id DESC");
    assert_eq!(query(vec![], "", false).format_sort(), "");
    assert_eq!(format_field(Dialect::Postgres, "a.b"), "\"a\".\"b\"");
    assert_eq!(format_field(Dialect::MySql, "a"), "`a`");
    assert_eq!(placeholder(Dialect::Postgres, 3), "$3");
    assert_eq!(placeholder(Dialect::MySql, 3), "?");
    let mut p = query(vec![], "", false);
    p.fields = vec!["id".to_string(), "name".to_string()];
    assert_eq!(p.format_fields(Dialect::Postgres), "\"id\", \"name\"");
    assert_eq!(query(vec![], "", false).format_fields(Dialect::Postgres), "*");
}

#[test]
fn table_statements() {
    let u = users();
    let d = Dialect::Postgres;
    assert_eq!(
        u.create_table(d),
        "CREATE TABLE IF NOT EXISTS app_user (id UUID, name TEXT NOT NULL, age INT DEFAULT 0, CONSTRAINT app_user_pkey PRIMARY KEY (id));"
    );
    let one = doc(vec![("id", s("u1")), ("name", s("Ann"))]);
    assert_eq!(u.insert(d, &one), "INSERT INTO app_user (id,name,age) VALUES ('u1','Ann',DEFAULT);");
    let two = doc(vec![("name", s("Bob")), ("id", s("u2"))]);
    assert_eq!(
        u.insert_many(d, &vec![doc(vec![("id", s("u1")), ("name", s("Ann"))]), two]),
        "INSERT INTO app_user (id,name,age) VALUES ('u1','Ann',DEFAULT),('u2','Bob',DEFAULT);"
    );
    assert_eq!(
        u.update(d, &one, "u1"),
        "UPDATE app_user SET name = 'Ann',age = DEFAULT WHERE id = 'u1';"
    );
    assert_eq!(
        u.upsert(d, &one),
        "INSERT INTO app_user (id,name,age) VALUES ('u1','Ann',DEFAULT) ON CONFLICT (id) DO UPDATE SET name = 'Ann',age = DEFAULT;"
    );
    assert_eq!(u.delete("u1"), "DELETE FROM app_user WHERE id = 'u1';");
}

#[test]
fn bounded_update_and_delete() {
    let u = users();
    let d = Dialect::Postgres;
    let q = query(vec![("name", s("Ann"))], "age", true);
    let m = Mutation { updates: doc(vec![("age", n("30")), ("unknown", n("1"))]) };
    assert_eq!(
        u.update_one(d, &q, &m),
        "UPDATE app_user SET age = 30 WHERE id IN (SELECT id FROM app_user WHERE name = 'Ann' ORDER BY age DESC LIMIT 1);"
    );
    assert_eq!(
        u.delete_one(d, &q),
        "DELETE FROM app_user WHERE id IN (SELECT id FROM app_user WHERE name = 'Ann' ORDER BY age DESC LIMIT 1);"
    );
    assert_eq!(u.update_many(d, &q, &m), "UPDATE app_user SET age = 30 WHERE name = 'Ann';");
    assert_eq!(u.delete_many(d, &q), "DELETE FROM app_user WHERE name = 'Ann';");
}

#[test]
fn select_statements_are_repeatable() {
    let u = users();
    let d = Dialect::Postgres;
    let q = query(vec![("name", s("Ann"))], "age", true);
    let first = u.find(d, &q);
    assert_eq!(first, "SELECT * FROM app_user WHERE name = 'Ann' ORDER BY age DESC LIMIT 10 OFFSET 0;");
    assert_eq!(first, u.find(d, &q));
    assert_eq!(u.find_one(d, &q), "SELECT * FROM app_user WHERE name = 'Ann' ORDER BY age DESC LIMIT 1;");
}

#[test]
fn index_statements() {
    let mut name = col("name", "String");
    name.index_type = Some("text".to_string());
    let mut bio = col("bio", "String");
    bio.index_type = Some("text".to_string());
    let mut note = col("note", "String");
    note.index_type = Some("text:french".to_string());
    let mut status = col("status", "String");
    status.index_type = Some("hash".to_string());
    let mut created = col("created", "DateTime");
    created.index_type = Some("btree".to_string());
    let u = Schema {
        table_name: "t".to_string(),
        primary_key_name: "id".to_string(),
        columns: vec![name, status, bio, created, note],
    };
    assert_eq!(
        u.create_indexes(),
        vec![
            "CREATE INDEX CONCURRENTLY IF NOT EXISTS t_status_index ON t USING hash(status);",
            "CREATE INDEX CONCURRENTLY IF NOT EXISTS t_created_index ON t USING btree(created DESC);",
            "CREATE INDEX CONCURRENTLY IF NOT EXISTS t_text_search_english_index ON t USING gin(to_tsvector('english', coalesce(name, '') || ' ' || coalesce(bio, '')));",
            "CREATE INDEX CONCURRENTLY IF NOT EXISTS t_text_search_french_index ON t USING gin(to_tsvector('french', coalesce(note, '')));",
        ]
    );
}

#[test]
fn column_definitions() {
    let mut id = col("id", "u64");
    id.default_value = Some("0".to_string());
    id.auto_increment = true;
    assert_eq!(id.field_definition(Dialect::MySql, "id"), "id BIGINT UNSIGNED PRIMARY KEY AUTO_INCREMENT");
    assert_eq!(id.field_definition(Dialect::Postgres, "id"), "id BIGINT PRIMARY KEY");
    let mut age = col("age", "u32");
    age.default_value = Some("0".to_string());
    assert_eq!(age.field_definition(Dialect::MySql, "id"), "age INT UNSIGNED DEFAULT 0");
    let mut renamed = col("name", "String");
    renamed.column_name = Some("full_name".to_string());
    renamed.not_null = true;
    assert_eq!(renamed.field_definition(Dialect::Postgres, "id"), "full_name TEXT NOT NULL");
    assert_eq!(col("c", "Uuid").type_annotation(Dialect::Postgres), "::UUID");
    assert_eq!(col("c", "u64").type_annotation(Dialect::Postgres), "::BIGINT");
    assert_eq!(col("c", "String").type_annotation(Dialect::Postgres), "::TEXT");
    assert_eq!(col("c", "Uuid").type_annotation(Dialect::MySql), "");
}

#[test]
fn foreign_key_constraints() {
    let mut owner = col("owner_id", "Uuid");
    owner.reference = Some(Reference { name: "user".to_string(), column_name: "id".to_string() });
    assert!(owner.constraints().is_empty());
    owner.foreign_key = true;
    owner.on_delete = Some("cascade".to_string());
    owner.on_update = Some("set null".to_string());
    assert_eq!(
        owner.constraints(),
        vec!["FOREIGN KEY (owner_id) REFERENCES user(id) ON DELETE CASCADE ON UPDATE SET NULL"]
    );
}

#[test]
fn table_naming() {
    assert_eq!(zino_orm::table_name("MyApp", "user"), "my_app_user");
    assert_eq!(zino_orm::model_namespace("MyApp", "user"), "my_app:user");
}

#[test]
fn object_literals_are_escaped() {
    let m = col("extra", "Map");
    let v = obj(vec![("a", s("it's"))]);
    assert_eq!(m.encode_value(Dialect::MySql, Some(&v)), "'{\"a\":\"it''s\"}'");
    assert_eq!(m.encode_value(Dialect::Postgres, Some(&v)), "'{\"a\":\"it''s\"}'::JSONB");
}
