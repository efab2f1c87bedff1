use zino_orm::{
    associate, decode_row, Cell, check_json_content_type, collect_keys, get_data_type, native_kind, needs_ping,
    parse_i64, splice_rows, Column, ConfigError, ConnectionPool, ConnectionPools, Dialect,
    JsonValue, Message, NativeKind, ParseSecurityTokenError, PoolConfig, Query, Schema,
    SecurityToken, TraceContext,
};

fn s(v: &str) -> JsonValue {
    JsonValue::Str(v.to_string())
}

fn doc(entries: Vec<(&str, JsonValue)>) -> Vec<(String, JsonValue)> {
    entries.into_iter().map(|(k, v)| (k.to_string(), v)).collect()
}

fn pool(name: &str, database: &str, available: bool) -> ConnectionPool {
    let mut p = ConnectionPool::new(name, database);
    p.store_availability(available);
    p
}

#[test]
fn pool_lookup_prefers_available() {
    let pools = ConnectionPools::new(vec![pool("main", "a", false), pool("main", "b", true)]);
    assert_eq!(pools.get_pool("main").map(|p| p.database()), Some("b"));
    let pools = ConnectionPools::new(vec![pool("main", "a", true), pool("main", "b", false)]);
    assert_eq!(pools.get_pool("main").map(|p| p.database()), Some("a"));
}

#[test]
fn pool_lookup_falls_back() {
    let pools = ConnectionPools::new(vec![pool("main", "a", false), pool("main", "b", false)]);
    let p = pools.get_pool("main").expect("a pool of that name exists");
    assert_eq!(p.name(), "main");
    assert!(!p.is_available());
    assert!(pools.get_pool("other").is_none());
}

#[test]
fn health_check_transitions() {
    assert!(needs_ping(61, 60));
    assert!(!needs_ping(60, 60));
    let mut pools = ConnectionPools::new(vec![pool("main", "a", true), pool("main", "b", true)]);
    assert!(!pools.record_ping(1, false, 3));
    assert_eq!(pools.get_pool("main").map(|p| p.database()), Some("a"));
    assert!(pools.record_ping(0, false, 3) == false);
    assert_eq!(pools.get_pool("main").map(|p| (p.database(), p.is_available())), Some(("b", false)));
    assert!(pools.record_ping(1, true, 0));
    assert_eq!(pools.get_pool("main").map(|p| p.is_available()), Some(false));
    assert!(pools.record_ping(1, true, 2));
    assert_eq!(pools.get_pool("main").map(|p| (p.database(), p.is_available())), Some(("b", true)));
    assert!(pools.record_ping(9, true, 2));
    assert_eq!(pools.len(), 2);
}

fn config() -> PoolConfig {
    PoolConfig {
        name: None,
        database: Some("db".to_string()),
        username: Some("me".to_string()),
        password: Some("pw".to_string()),
        host: None,
        port: Some(5432),
        statement_cache_capacity: None,
        max_connections: None,
        min_connections: Some(4),
        max_lifetime: None,
        idle_timeout: None,
        acquire_timeout: None,
        health_check_interval: None,
    }
}

#[test]
fn pool_settings_defaults() {
    let settings = config().resolve().ok().expect("complete configuration");
    assert_eq!(settings.name, "main");
    assert_eq!(settings.max_connections, 16);
    assert_eq!(settings.min_connections, 4);
    assert_eq!(settings.max_lifetime, 3600);
    assert_eq!(settings.idle_timeout, 600);
    assert_eq!(settings.acquire_timeout, 30);
    assert_eq!(settings.health_check_interval, 60);
    assert_eq!(settings.port, Some(5432));
    let mut c = config();
    c.database = None;
    assert!(matches!(c.resolve(), Err(ConfigError::MissingDatabase)));
    let mut c = config();
    c.username = None;
    assert!(matches!(c.resolve(), Err(ConfigError::MissingUsername)));
    let mut c = config();
    c.password = None;
    assert!(matches!(c.resolve(), Err(ConfigError::MissingPassword)));
}

#[test]
fn fetch_splices_associations() {
    let mut data = vec![
        doc(vec![("id", s("m1")), ("owner", s("u1"))]),
        doc(vec![("id", s("m2")), ("owner", s("u2"))]),
        doc(vec![("id", s("m3")), ("owner", s("u1"))]),
    ];
    let refs = vec!["owner".to_string()];
    let keys = collect_keys(&data, &refs);
    assert_eq!(keys, vec!["u1", "u2", "u1"]);
    let users = Schema {
        table_name: "user".to_string(),
        primary_key_name: "id".to_string(),
        columns: vec![Column::new("id", "Uuid"), Column::new("name", "String")],
    };
    let mut q = Query {
        fields: Vec::new(),
        filters: Vec::new(),
        sort_by: String::new(),
        descending: false,
        offset: 0,
        limit: 0,
    };
    let sql = users.fetch_query(Dialect::Postgres, &mut q, &keys);
    assert_eq!(sql, "SELECT * FROM user WHERE (id IN ('u1','u2','u1'));");
    let fetched = vec![
        doc(vec![("id", s("u1")), ("name", s("Ann"))]),
        doc(vec![("id", s("u2")), ("name", s("Bob"))]),
    ];
    let assoc = associate(fetched, "id");
    assert_eq!(assoc.len(), 2);
    splice_rows(&mut data, &refs, &assoc);
    let expected = ["Ann", "Bob", "Ann"];
    for (row, name) in data.iter().zip(expected) {
        assert_eq!(row.len(), 2);
        assert!(matches!(&row[0].1, JsonValue::Str(v) if v.starts_with('m')));
        match &row[1].1 {
            JsonValue::Object(entries) => {
                assert_eq!(entries.len(), 2);
                assert!(matches!(&entries[1].1, JsonValue::Str(v) if v == name));
            }
            _ => panic!("reference was not replaced"),
        }
    }
}

#[test]
fn fetch_keeps_unknown_keys() {
    let mut data = vec![doc(vec![("tags", JsonValue::Array(vec![s("t1"), s("t9")]))])];
    let refs = vec!["tags".to_string()];
    let assoc = associate(vec![doc(vec![("id", s("t1"))])], "id");
    splice_rows(&mut data, &refs, &assoc);
    match &data[0][0].1 {
        JsonValue::Array(items) => {
            assert!(matches!(&items[0], JsonValue::Object(_)));
            assert!(matches!(&items[1], JsonValue::Str(v) if v == "t9"));
        }
        _ => panic!("array expected"),
    }
}

#[test]
fn native_types_decode() {
    assert_eq!(native_kind(Dialect::Postgres, "INT8"), NativeKind::I64);
    assert_eq!(native_kind(Dialect::Postgres, "UUID[]"), NativeKind::UuidArray);
    assert_eq!(native_kind(Dialect::MySql, "BIGINT UNSIGNED"), NativeKind::U64);
    assert_eq!(native_kind(Dialect::MySql, "GEOMETRY"), NativeKind::Unknown);
}

#[test]
fn trace_context_headers() {
    let header = "00-0af7651916cd43dd8448eb211c80319c-b7ad6b7169203331-01";
    let ctx = TraceContext::from_traceparent(header).expect("valid header");
    assert_eq!(ctx.version(), 0);
    assert_eq!(ctx.trace_id(), 0x0af7651916cd43dd8448eb211c80319c);
    assert_eq!(ctx.parent_id(), Some(0xb7ad6b7169203331));
    assert_eq!(ctx.trace_flags(), 1);
    assert!(ctx.sampled());
    assert!(!ctx.random_trace_id());
    let child = ctx.child();
    assert_eq!(child.parent_id(), Some(ctx.span_id()));
    assert_eq!(child.trace_id(), ctx.trace_id());
    let w3c = TraceContext::from_traceparent("00-4bf92f3577b34da6a3ce929d0e0e4736-00f067aa0ba902b7-01")
        .expect("valid header");
    assert_eq!(w3c.parent_id(), Some(0x00f067aa0ba902b7));
    assert_eq!(w3c.trace_id(), 0x4bf92f3577b34da6a3ce929d0e0e4736);
    assert!(TraceContext::from_traceparent("00-xyz-b7ad6b7169203331-01").is_none());
    assert!(TraceContext::from_traceparent("00-0af7-b7ad-100").is_none());
    assert!(TraceContext::from_traceparent("00-01-02").is_none());
}

#[test]
fn trace_context_flags_and_text() {
    let mut ctx = TraceContext::with_trace_id(0x0af7651916cd43dd8448eb211c80319c);
    assert_eq!(ctx.trace_flags(), 3);
    assert_eq!(
        ctx.traceparent(),
        format!("00-0af7651916cd43dd8448eb211c80319c-{:016x}-03", ctx.span_id())
    );
    ctx.set_sampled(false);
    assert_eq!(ctx.trace_flags(), 2);
    ctx.set_random_trace_id(false);
    assert_eq!(ctx.trace_flags(), 0);
    ctx.set_random_trace_id(true);
    assert_eq!(ctx.trace_flags(), 2);
    ctx.trace_state_mut().push("a", "1");
    ctx.trace_state_mut().push("b", "2");
    assert_eq!(ctx.tracestate(), "a=1,b=2");
    let fresh = TraceContext::new();
    assert_eq!(fresh.parent_id(), None);
    assert_eq!(fresh.tracestate(), "");
}

#[test]
fn security_token_authorization() {
    assert_eq!(SecurityToken::authorization("abc", 100), "abc:100");
    assert_eq!(SecurityToken::authorization("abc", -3), "abc:-3");
    match SecurityToken::parse_authorization("abc:100", 50) {
        Ok((assignee, expires)) => {
            assert_eq!(assignee, "abc");
            assert_eq!(expires, 100);
        }
        Err(_) => panic!("valid authorization"),
    }
    assert!(matches!(
        SecurityToken::parse_authorization("abc:100", 101),
        Err(ParseSecurityTokenError::ValidPeriodExpired)
    ));
    assert!(matches!(
        SecurityToken::parse_authorization("abc", 0),
        Err(ParseSecurityTokenError::InvalidFormat)
    ));
    assert!(matches!(
        SecurityToken::parse_authorization("abc:x", 0),
        Err(ParseSecurityTokenError::ParseExpiresError(_))
    ));
    let token = SecurityToken::new("g".to_string(), "a".to_string(), 9, "t".to_string());
    assert_eq!((token.grantor_id(), token.assignee_id(), token.expires(), token.as_str()), ("g", "a", 9, "t"));
}

#[test]
fn content_types() {
    assert!(check_json_content_type("application/json; charset=utf-8"));
    assert!(check_json_content_type("application/ld+json"));
    assert!(!check_json_content_type("text/plain"));
    assert_eq!(get_data_type("text/csv"), "csv");
    assert_eq!(get_data_type("application/problem+json"), "json");
    assert_eq!(get_data_type("application/vnd.api+json"), "json");
    assert_eq!(get_data_type("image/png"), "image/png");
}

#[test]
fn numbers_parse_and_render() {
    assert_eq!(parse_i64("-9223372036854775808"), Some(i64::MIN));
    assert_eq!(parse_i64("9223372036854775808"), None);
    assert_eq!(parse_i64("+12"), Some(12));
    assert_eq!(parse_i64(""), None);
    assert_eq!(zino_orm::u64_text(0), "0");
    assert_eq!(zino_orm::u64_text(u64::MAX), "18446744073709551615");
    assert_eq!(zino_orm::i64_text(-42), "-42");
    assert!(zino_orm::is_float_text("1e5"));
    assert!(zino_orm::is_float_text("NaN"));
    assert!(!zino_orm::is_float_text("1e"));
}

#[test]
fn model_setters() {
    let mut m = Message::new(7);
    m.set_owner_id(3);
    m.set_maintainer_id(4);
    assert_eq!((m.id, m.owner_id, m.maintainer_id), (7, Some(3), Some(4)));
    let mut a = zino_orm::Application::new(1);
    a.name = "app".to_string();
    a.set_access_key_id("key");
    assert_eq!(a.access_key_id, "key");
    assert_eq!((a.id, a.name.as_str()), (1, "app"));
}

#[test]
fn fetch_one_splices_document() {
    let mut row = doc(vec![("owner", s("u1")), ("editors", JsonValue::Array(vec![s("u2")]))]);
    let refs = vec!["owner".to_string(), "editors".to_string()];
    assert_eq!(zino_orm::collect_document_keys(&row, &refs), vec!["u1", "u2"]);
    let assoc = associate(
        vec![doc(vec![("id", s("u1"))]), doc(vec![("id", s("u2"))]), doc(vec![("id", JsonValue::Null)])],
        "id",
    );
    assert_eq!(assoc.len(), 2);
    zino_orm::splice_document(&mut row, &refs, &assoc);
    assert!(matches!(&row[0].1, JsonValue::Object(e) if e.len() == 1));
    assert!(matches!(&row[1].1, JsonValue::Array(items) if matches!(&items[0], JsonValue::Object(_))));
}

#[test]
fn lookup_by_primary_key() {
    let users = Schema {
        table_name: "user".to_string(),
        primary_key_name: "id".to_string(),
        columns: vec![Column::new("id", "Uuid")],
    };
    assert_eq!(users.get_model_query("o'k"), "SELECT * FROM user WHERE id = 'o''k';");
}

#[test]
fn text_search_filters() {
    let filter = doc(vec![("$fields", s("name,bio")), ("$search", s("rust"))]);
    assert_eq!(
        zino_orm::parse_text_search(Dialect::Postgres, &filter).unwrap(),
        "to_tsvector('english', name || ' ' || bio) @@ websearch_to_tsquery('english', 'rust')"
    );
    assert_eq!(
        zino_orm::parse_text_search(Dialect::MySql, &filter).unwrap(),
        "match(name,bio) against('rust')"
    );
    let filter = doc(vec![
        ("$fields", JsonValue::Array(vec![s("title")])),
        ("$search", s("x")),
        ("$language", s("french")),
    ]);
    assert_eq!(
        zino_orm::parse_text_search(Dialect::Postgres, &filter).unwrap(),
        "to_tsvector('french', title) @@ websearch_to_tsquery('french', 'x')"
    );
    assert!(zino_orm::parse_text_search(Dialect::Postgres, &doc(vec![("$search", s("x"))])).is_none());
}

#[test]
fn rows_decode_to_documents() {
    let row = vec![
        ("id".to_string(), "INT8".to_string(), Cell::Int(-7)),
        ("name".to_string(), "TEXT".to_string(), Cell::Text("Ann".to_string())),
        ("raw".to_string(), "BYTEA".to_string(), Cell::Bytes(vec![1, 255])),
        ("tags".to_string(), "TEXT[]".to_string(), Cell::TextList(vec!["a".to_string()])),
        ("shape".to_string(), "POINT".to_string(), Cell::Text("(1,2)".to_string())),
    ];
    let d = decode_row(Dialect::Postgres, row);
    assert_eq!(d.len(), 5);
    assert!(matches!(&d[0].1, JsonValue::Number(t) if t == "-7"));
    assert!(matches!(&d[1].1, JsonValue::Str(t) if t == "Ann"));
    match &d[2].1 {
        JsonValue::Array(items) => {
            assert!(matches!(&items[1], JsonValue::Number(t) if t == "255"));
        }
        _ => panic!("bytes decode to an array"),
    }
    assert!(matches!(&d[3].1, JsonValue::Array(items) if items.len() == 1));
    assert!(matches!(&d[4].1, JsonValue::Null));
    assert_eq!(d[4].0, "shape");
}

#[test]
fn repeated_columns_take_the_later_value() {
    let row = vec![
        ("a".to_string(), "INT4".to_string(), Cell::Int(1)),
        ("b".to_string(), "TEXT".to_string(), Cell::Text("x".to_string())),
        ("a".to_string(), "INT4".to_string(), Cell::Int(2)),
    ];
    let d = decode_row(Dialect::Postgres, row);
    assert_eq!(d.len(), 2);
    assert_eq!(d[0].0, "a");
    assert!(matches!(&d[0].1, JsonValue::Number(t) if t == "2"));
}

#[test]
fn table_names_normalize_separators() {
    assert_eq!(zino_orm::table_name("MyApp", "a-b.c d:e"), "my_app_a_b_c_d_e");
}
