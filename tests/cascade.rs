use gnome_focus::client::target;
use gnome_focus::cascade::{evaluate, Cascade, Reply, Strategy};
use gnome_focus::window::{PropValue, WindowEntry};

/// Runs a resolution against a session that answers each strategy with
/// `session`, recording the strategies asked.
fn resolve(session: &dyn Fn(Strategy) -> Reply, asked: &mut Vec<Strategy>) -> Option<String> {
    let mut cascade = Cascade::new();
    while let Some(s) = cascade.pending() {
        asked.push(s);
        cascade.feed(session(s));
    }
    cascade.outcome()
}

fn supported(session: &dyn Fn(Strategy) -> Reply) -> bool {
    resolve(session, &mut Vec::new()).is_some()
}

fn snapshot(focused_class: Option<&str>) -> Reply {
    let mut props = vec![("has-focus".to_string(), PropValue::Bool(focused_class.is_some()))];
    if let Some(c) = focused_class {
        props.push(("wm-class".to_string(), PropValue::Text(c.to_string())));
    }
    Reply::Windows(vec![
        WindowEntry { id: 10, properties: vec![("has-focus".to_string(), PropValue::Bool(false))] },
        WindowEntry { id: 11, properties: props },
    ])
}

#[test]
fn introspection_value_short_circuits() {
    let session = |s: Strategy| match s {
        Strategy::Introspection => snapshot(Some("Firefox")),
        _ => Reply::Text("Other".to_string()),
    };
    let mut asked = Vec::new();
    assert_eq!(resolve(&session, &mut asked), Some("Firefox".to_string()));
    assert_eq!(asked, vec![Strategy::Introspection]);
}

#[test]
fn failed_introspection_falls_through() {
    let session = |s: Strategy| match s {
        Strategy::Introspection => Reply::Failed,
        Strategy::ActiveWindow => Reply::Failed,
        Strategy::LegacyWmClass => Reply::Text("Gedit".to_string()),
    };
    let mut asked = Vec::new();
    assert_eq!(resolve(&session, &mut asked), Some("Gedit".to_string()));
    assert_eq!(asked, vec![Strategy::Introspection, Strategy::ActiveWindow, Strategy::LegacyWmClass]);
}

#[test]
fn unfocused_snapshot_falls_through() {
    let mut cascade = Cascade::new();
    cascade.feed(snapshot(None));
    assert_eq!(cascade.pending(), Some(Strategy::ActiveWindow));
}

#[test]
fn active_window_payload_skips_legacy() {
    let session = |s: Strategy| match s {
        Strategy::Introspection => Reply::Failed,
        Strategy::ActiveWindow => Reply::Text(r#"{"wm_class":"Code","title":"x"}"#.to_string()),
        Strategy::LegacyWmClass => Reply::Text("Legacy".to_string()),
    };
    let mut asked = Vec::new();
    assert_eq!(resolve(&session, &mut asked), Some("Code".to_string()));
    assert_eq!(asked, vec![Strategy::Introspection, Strategy::ActiveWindow]);
}

#[test]
fn undecodable_payload_falls_through_to_legacy() {
    let session = |s: Strategy| match s {
        Strategy::Introspection => snapshot(None),
        Strategy::ActiveWindow => Reply::Text("not json".to_string()),
        Strategy::LegacyWmClass => Reply::Text("Legacy".to_string()),
    };
    assert_eq!(resolve(&session, &mut Vec::new()), Some("Legacy".to_string()));
}

#[test]
fn all_strategies_failing_gives_nothing() {
    let session = |s: Strategy| match s {
        Strategy::Introspection => snapshot(None),
        Strategy::ActiveWindow => Reply::Text("[1,2]".to_string()),
        Strategy::LegacyWmClass => Reply::Failed,
    };
    let mut asked = Vec::new();
    assert_eq!(resolve(&session, &mut asked), None);
    assert_eq!(asked.len(), 3);
    assert!(!supported(&session));
}

#[test]
fn supported_agrees_with_resolution() {
    let found = |s: Strategy| match s {
        Strategy::LegacyWmClass => Reply::Text("Emacs".to_string()),
        _ => Reply::Failed,
    };
    assert_eq!(supported(&found), resolve(&found, &mut Vec::new()).is_some());
    assert!(supported(&found));
    let none = |_s: Strategy| Reply::Failed;
    assert_eq!(supported(&none), resolve(&none, &mut Vec::new()).is_some());
    assert!(!supported(&none));
}

#[test]
fn reply_of_wrong_shape_yields_nothing() {
    assert_eq!(evaluate(Strategy::Introspection, &Reply::Text("Firefox".to_string())), None);
    assert_eq!(evaluate(Strategy::LegacyWmClass, &snapshot(Some("Firefox"))), None);
    assert_eq!(evaluate(Strategy::LegacyWmClass, &Reply::Text(String::new())), Some(String::new()));
}

#[test]
fn each_strategy_calls_its_method() {
    assert_eq!(
        target(Strategy::Introspection),
        ("org.gnome.Shell", "/dev/wxwee/SafeIntrospect", "dev.wxwee.SafeIntrospect", "GetWindows")
    );
    assert_eq!(
        target(Strategy::ActiveWindow),
        ("org.gnome.Shell", "/com/k0kubun/Xremap", "com.k0kubun.Xremap", "ActiveWindow")
    );
    assert_eq!(
        target(Strategy::LegacyWmClass),
        ("org.gnome.Shell", "/com/k0kubun/Xremap", "com.k0kubun.Xremap", "WMClass")
    );
}
