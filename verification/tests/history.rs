use greentic_operator_core::demo::card::CardView;
use greentic_operator_core::demo::history::{DemoHistory, Snapshot};
use greentic_operator_core::textmap::TextMap;

fn make_snapshot(version: &str, inputs: &[(&str, &str)]) -> Snapshot {
    let card = CardView {
        version: Some(version.to_string()),
        title: Some(format!("Card {version}")),
        summary_text: None,
        body_texts: Vec::new(),
        inputs: Vec::new(),
        actions: Vec::new(),
    };
    let mut pending = TextMap::new();
    for (k, v) in inputs {
        pending.insert(k.to_string(), v.to_string());
    }
    let output: serde_json::Value =
        serde_json::from_str(&format!("{{\"card\": {{\"version\": \"{version}\"}}}}")).unwrap();
    Snapshot::new(output, Some(card), pending)
}

#[test]
fn go_back_restores_previous_snapshot() {
    let mut history = DemoHistory::new();
    history.push(make_snapshot("1.0", &[("foo", "bar")]));
    history.push(make_snapshot("2.0", &[("foo", "baz")]));
    let previous = history.go_back().expect("should be able to go back");
    assert_eq!(
        previous.card.as_ref().unwrap().version.as_deref(),
        Some("1.0")
    );
    assert_eq!(
        previous.pending_inputs.get("foo").map(String::as_str),
        Some("bar")
    );
}

#[test]
fn cannot_go_back_past_first_snapshot() {
    let mut history = DemoHistory::new();
    history.push(make_snapshot("1.0", &[("foo", "bar")]));
    assert!(history.go_back().is_none());
}

#[test]
fn go_back_leaves_the_previous_snapshot_latest() {
    let mut history = DemoHistory::new();
    assert!(history.latest().is_none());
    assert!(history.go_back().is_none());
    history.push(make_snapshot("1.0", &[]));
    history.push(make_snapshot("2.0", &[]));
    history.push(make_snapshot("3.0", &[]));
    assert_eq!(history.go_back().unwrap().card.as_ref().unwrap().version.as_deref(), Some("2.0"));
    assert_eq!(history.latest().unwrap().card.as_ref().unwrap().version.as_deref(), Some("2.0"));
    assert_eq!(history.go_back().unwrap().card.as_ref().unwrap().version.as_deref(), Some("1.0"));
    assert!(history.go_back().is_none());
    assert_eq!(history.latest().unwrap().output["card"]["version"], serde_json::Value::String("1.0".to_string()));
}
