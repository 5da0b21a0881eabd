use angelica::tui::settings::SettingsItem;
use angelica::tui::toml_tree::{
    flatten_toml, format_toml_value, get_original_value, parse_value_string, set_toml_value,
    shown_float_text, TomlValue,
};

fn s(x: &str) -> String {
    x.to_string()
}

fn config() -> TomlValue {
    TomlValue::Table(vec![
        (
            s("llm"),
            TomlValue::Table(vec![
                (s("max_iterations"), TomlValue::Integer(10)),
                (
                    s("providers"),
                    TomlValue::Array(vec![TomlValue::Table(vec![
                        (s("model"), TomlValue::String(s("gpt-4o"))),
                        (s("name"), TomlValue::String(s("openai"))),
                    ])]),
                ),
            ]),
        ),
        (
            s("memory"),
            TomlValue::Table(vec![(
                s("recall_inject_threshold"),
                TomlValue::Float { exact: s("0.7"), shown: s("0.7") },
            )]),
        ),
        (s("unknown"), TomlValue::Table(vec![(s("x"), TomlValue::Boolean(true))])),
    ])
}

fn entry_parts(item: &SettingsItem) -> (String, String, String, bool) {
    match item {
        SettingsItem::Entry { path, key, value, editable, .. } => (path.clone(), key.clone(), value.clone(), *editable),
        SettingsItem::Section { title } => (title.clone(), String::new(), String::new(), false),
    }
}

#[test]
fn configuration_flattens_in_section_order() {
    let items = flatten_toml(&config());
    assert_eq!(items.len(), 7);
    assert!(matches!(&items[0], SettingsItem::Section { title } if title == "llm"));
    assert_eq!(entry_parts(&items[1]), (s("llm.max_iterations"), s("max_iterations"), s("10"), true));
    assert!(matches!(&items[2], SettingsItem::Section { title } if title == "llm.providers[0]"));
    assert_eq!(entry_parts(&items[3]), (s("llm.providers[0].model"), s("[0].model"), s("gpt-4o"), true));
    assert_eq!(entry_parts(&items[4]).0, "llm.providers[0].name");
    assert!(matches!(&items[5], SettingsItem::Section { title } if title == "memory"));
    assert_eq!(entry_parts(&items[6]).2, "0.7");
    match &items[3] {
        SettingsItem::Entry { original, .. } => assert_eq!(original, "gpt-4o"),
        _ => panic!("expected an entry"),
    }
}

#[test]
fn original_values_follow_the_path() {
    let tree = config();
    let llm = match &tree {
        TomlValue::Table(es) => &es[0].1,
        _ => panic!(),
    };
    assert_eq!(get_original_value(llm, "llm.providers[0].name").as_deref(), Some("openai"));
    assert_eq!(get_original_value(llm, "llm.providers[3].name"), None);
    assert_eq!(get_original_value(llm, "llm.providers[x].name"), None);
    assert_eq!(get_original_value(llm, "llm.max_iterations").as_deref(), Some("10"));
}

#[test]
fn edits_are_written_back() {
    let item = SettingsItem::Entry {
        path: s("llm.max_iterations"),
        key: s("max_iterations"),
        value: s("20"),
        original: s("10"),
        editable: true,
    };
    let tree = set_toml_value(config(), "llm.max_iterations", &item, None);
    let items = flatten_toml(&tree);
    assert_eq!(entry_parts(&items[1]).2, "20");

    let model = SettingsItem::Entry {
        path: s("llm.providers[0].model"),
        key: s("[0].model"),
        value: s("deepseek-chat"),
        original: s("gpt-4o"),
        editable: true,
    };
    let tree = set_toml_value(tree, "llm.providers[0].model", &model, None);
    let items = flatten_toml(&tree);
    assert_eq!(entry_parts(&items[3]).2, "deepseek-chat");

    let missing = set_toml_value(config(), "nope.x", &item, None);
    assert_eq!(flatten_toml(&missing).len(), 7);
}

#[test]
fn typed_values_are_classified() {
    assert!(matches!(parse_value_string("true", None), TomlValue::Boolean(true)));
    assert!(matches!(parse_value_string("false", None), TomlValue::Boolean(false)));
    assert!(matches!(parse_value_string("-12", None), TomlValue::Integer(-12)));
    assert!(matches!(parse_value_string("1.5", Some((s("1.5"), s("1.5")))), TomlValue::Float { .. }));
    assert!(matches!(parse_value_string("hello", None), TomlValue::String(t) if t == "hello"));
    assert_eq!(format_toml_value(&TomlValue::Integer(-9223372036854775808)), "-9223372036854775808");
    assert_eq!(format_toml_value(&TomlValue::Boolean(false)), "false");
    assert_eq!(format_toml_value(&TomlValue::Array(vec![])), "");
    assert_eq!(shown_float_text("0.700000"), "0.7");
    assert_eq!(shown_float_text("2.000000"), "2");
}
