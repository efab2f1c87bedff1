use zino_orm::select_language;

#[test]
fn it_selects_language() {
    let header_value = "zh-CN,zh;q=0.9,en;q=0.8,en-US;q=0.7";
    assert_eq!(select_language(header_value, &["en-US", "zh-CN"]), Some("zh-CN"));

    let header_value = "zh-HK,zh;q=0.8,en-US; q=0.7";
    assert_eq!(select_language(header_value, &["en-US", "zh-CN"]), Some("zh-CN"));

    let header_value = "zh-HK, zh;q=0.8,en-US; q=0.9";
    assert_eq!(select_language(header_value, &["en-US", "zh-CN"]), Some("en-US"));
}

#[test]
fn language_selection_edge_cases() {
    assert_eq!(select_language("fr", &["en-US"]), None);
    assert_eq!(select_language("EN-us", &["en-US"]), Some("en-US"));
    assert_eq!(select_language("en;q=0.5,zh;q=0.5", &["zh-CN", "en-US"]), Some("en-US"));
    assert_eq!(select_language("en;q=abc,zh;q=0.1", &["zh-CN", "en-US"]), Some("zh-CN"));
    assert_eq!(select_language("en;q=1.000", &["en-US"]), Some("en-US"));
    assert_eq!(zino_orm::trim("  a b \t"), "a b");
}
