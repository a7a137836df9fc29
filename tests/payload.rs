use gnome_focus::payload::{active_window_class, decode_active_window, JsonMember};

#[test]
fn active_window_payload_gives_class() {
    assert_eq!(active_window_class(r#"{"wm_class":"Code","title":"x"}"#), Some("Code".to_string()));
}

#[test]
fn absent_fields_default_to_empty() {
    assert_eq!(active_window_class(r#"{"title":"x"}"#), Some(String::new()));
    assert_eq!(active_window_class("{}"), Some(String::new()));
    assert_eq!(active_window_class(r#"{"wm_class":"","other":5}"#), Some(String::new()));
}

#[test]
fn field_of_another_type_fails() {
    assert_eq!(active_window_class(r#"{"wm_class":3,"title":"x"}"#), None);
    assert_eq!(active_window_class(r#"{"wm_class":"Code","title":null}"#), None);
}

#[test]
fn malformed_payload_fails() {
    assert_eq!(active_window_class("Code"), None);
    assert_eq!(active_window_class(r#"{"wm_class":"Code""#), None);
    assert_eq!(active_window_class("null"), None);
    assert_eq!(active_window_class(""), None);
}

#[test]
fn decode_reads_both_fields() {
    let members = vec![
        ("title".to_string(), JsonMember::Text("main.rs".to_string())),
        ("wm_class".to_string(), JsonMember::Text("Code".to_string())),
    ];
    let w = decode_active_window(&members).unwrap();
    assert_eq!(w.wm_class, "Code");
    assert_eq!(w.title, "main.rs");
    let members = vec![("title".to_string(), JsonMember::Other)];
    assert!(decode_active_window(&members).is_none());
}
