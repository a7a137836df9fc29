use gnome_focus::config::{config_from_entries, parse_config, ConfigError, YamlField};

#[test]
fn unknown_top_level_field_is_rejected() {
    let r = parse_config("modmap: []\nkeymaps: []\n");
    assert!(matches!(r, Err(ConfigError::UnknownField(Some(ref k))) if k == "keymaps"));
    let r = parse_config("1: []\n");
    assert!(matches!(r, Err(ConfigError::UnknownField(None))));
}

#[test]
fn empty_document_is_empty_config() {
    let c = parse_config("").ok().unwrap();
    assert!(c.modmap.is_empty());
    assert!(c.keymap.is_empty());
}

#[test]
fn fields_keep_their_entries() {
    let c = parse_config("modmap:\n  - name: a\n  - name: b\nkeymap:\n  - name: c\n").ok().unwrap();
    assert_eq!(c.modmap.len(), 2);
    assert_eq!(c.keymap.len(), 1);
    assert_eq!(c.keymap[0].get("name"), Some(&serde_yaml::Value::String("c".to_string())));
    let c = parse_config("keymap: []\nmodmap:\n").ok().unwrap();
    assert!(c.modmap.is_empty());
    assert!(c.keymap.is_empty());
}

#[test]
fn field_of_wrong_type_is_rejected() {
    let r = parse_config("modmap: 3\n");
    assert!(matches!(r, Err(ConfigError::NotSequence(ref k)) if k == "modmap"));
}

#[test]
fn malformed_document_is_rejected() {
    assert!(matches!(parse_config("- modmap\n"), Err(ConfigError::Malformed)));
    assert!(matches!(parse_config("modmap: [\n"), Err(ConfigError::Malformed)));
    assert!(matches!(parse_config("modmap: []\nmodmap: []\n"), Err(ConfigError::Malformed)));
}

#[test]
fn repeated_field_is_rejected() {
    let entries = vec![
        (Some("keymap".to_string()), YamlField::Null),
        (Some("keymap".to_string()), YamlField::Sequence(Vec::new())),
    ];
    assert!(matches!(config_from_entries(entries), Err(ConfigError::DuplicateField(ref k)) if k == "keymap"));
}

#[test]
fn first_fault_decides_the_error() {
    let entries = vec![
        (Some("modmap".to_string()), YamlField::Other),
        (Some("extra".to_string()), YamlField::Null),
    ];
    assert!(matches!(config_from_entries(entries), Err(ConfigError::NotSequence(ref k)) if k == "modmap"));
}
