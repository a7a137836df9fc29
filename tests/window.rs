use gnome_focus::window::{focused_wm_class, window_class, window_is_focused, PropValue, WindowEntry};

fn window(id: u64, props: Vec<(&str, PropValue)>) -> WindowEntry {
    WindowEntry {
        id,
        properties: props.into_iter().map(|(k, v)| (k.to_string(), v)).collect(),
    }
}

fn text(s: &str) -> PropValue {
    PropValue::Text(s.to_string())
}

#[test]
fn single_focused_window_gives_its_class() {
    let ws = vec![
        window(1, vec![("has-focus", PropValue::Bool(false)), ("wm-class", text("Terminal"))]),
        window(2, vec![("has-focus", PropValue::Bool(true)), ("wm-class", text("Firefox"))]),
    ];
    assert_eq!(focused_wm_class(&ws), Some("Firefox".to_string()));
}

#[test]
fn no_focused_window_gives_nothing() {
    let ws = vec![
        window(1, vec![("has-focus", PropValue::Bool(false)), ("wm-class", text("Terminal"))]),
        window(2, vec![("wm-class", text("Firefox"))]),
    ];
    assert_eq!(focused_wm_class(&ws), None);
    assert_eq!(focused_wm_class(&Vec::new()), None);
}

#[test]
fn non_boolean_focus_counts_as_unfocused() {
    let w = window(7, vec![("has-focus", text("true")), ("wm-class", text("Code"))]);
    assert!(!window_is_focused(&w));
    assert_eq!(focused_wm_class(&vec![w]), None);
}

#[test]
fn class_of_another_type_is_absent() {
    let w = window(3, vec![("has-focus", PropValue::Bool(true)), ("wm-class", PropValue::Other)]);
    assert!(window_is_focused(&w));
    assert_eq!(window_class(&w), None);
}

#[test]
fn first_focused_window_decides() {
    let ws = vec![
        window(1, vec![("has-focus", PropValue::Bool(true))]),
        window(2, vec![("has-focus", PropValue::Bool(true)), ("wm-class", text("Firefox"))]),
    ];
    assert_eq!(focused_wm_class(&ws), None);
    let ws = vec![
        window(1, vec![("wm-class", text("Slack")), ("has-focus", PropValue::Bool(true))]),
        window(2, vec![("has-focus", PropValue::Bool(true)), ("wm-class", text("Firefox"))]),
    ];
    assert_eq!(focused_wm_class(&ws), Some("Slack".to_string()));
}

#[test]
fn first_property_of_a_name_counts() {
    let w = window(4, vec![
        ("has-focus", PropValue::Bool(true)),
        ("has-focus", PropValue::Bool(false)),
        ("wm-class", text("")),
    ]);
    assert!(window_is_focused(&w));
    assert_eq!(window_class(&w), Some(String::new()));
}
