use greentic_operator_core::demo::card::{card_summary_lines, CardAction, CardInput, CardView};
use greentic_operator_core::demo::http_ingress::{
    error_body, flow_outcome_body, ingress_flow, ingress_invocation, ingress_response, outcome_status, refusal_response,
    route_ingress, segments_of, InvocationResult,
};
use greentic_operator_core::demo::input::{
    input_file_path, parse_input, parse_text, InputEncoding, InputError, InputSource,
};
use greentic_operator_core::demo::pack_resolve::{resolve_pack, EntryFlowSource, FlowError, PackError, PackMeta};
use greentic_operator_core::domains::Domain;
use greentic_operator_core::json::{body_field, Json};
use greentic_operator_core::textmap::TextMap;

fn meta(id: &str, flows: &[&str]) -> PackMeta {
    PackMeta { pack_id: id.to_string(), entry_flows: flows.iter().map(|f| f.to_string()).collect() }
}

#[test]
fn resolve_pack_uses_entry_flows_as_default() {
    let pack = resolve_pack("/root", "demo-pack", true, Some(meta("demo-pack-id", &["setup"]))).unwrap();
    assert_eq!(pack.pack_id, "demo-pack-id");
    assert_eq!(pack.pack_path, "/root/demo-pack");
    assert_eq!(pack.entry_flows, vec!["setup"]);
    assert_eq!(pack.select_flow(None).unwrap(), "setup".to_string());
}

#[test]
fn resolve_pack_default_flow_missing_mentions_field() {
    let pack = resolve_pack("/root", "demo-pack", true, Some(meta("demo-pack-id", &[]))).unwrap();
    let err = pack.select_flow(None).unwrap_err();
    let text = err.message();
    assert!(text.contains("meta.entry_flows"), "error lacked field hint: {text}");
    assert!(text.contains("available flows:"), "error lacked available flows list: {text}");
    assert_eq!(
        text,
        "default flow not declared (meta.entry_flows) and no flows available; available flows: []"
    );
}

#[test]
fn select_flow_requested_and_undeclared() {
    let pack = resolve_pack("/root", "p", true, Some(meta("p", &["setup", "run"]))).unwrap();
    assert_eq!(pack.select_flow(Some("run")).unwrap(), "run");
    let err = pack.select_flow(Some("nope")).unwrap_err();
    assert!(matches!(err, FlowError::Undeclared { .. }));
    assert_eq!(err.message(), "flow `nope` not declared via meta.entry_flows; available flows: setup, run");
    assert_eq!(EntryFlowSource::FlowsList.description(), "manifest.flows[*].id/entrypoints");
}

#[test]
fn resolve_pack_errors() {
    let err = resolve_pack("/root", "missing", false, None).unwrap_err();
    assert_eq!(err.message(), "pack missing not found under /root");
    let err = resolve_pack("/root", "bad", true, None).unwrap_err();
    assert!(matches!(err, PackError::ManifestUnreadable { .. }));
    assert_eq!(err.message(), "failed to read manifest for pack /root/bad");
}

#[test]
fn parse_input_json_yaml_and_file() {
    let inline_json = r#"{"foo": "bar"}"#;
    let parsed_json = parse_input(inline_json, None).unwrap();
    assert!(matches!(parsed_json.source, InputSource::Inline(InputEncoding::Json)));
    assert!(matches!(body_field(&parsed_json.value, "foo"), Some(Json::Str(s)) if s == "bar"));

    let inline_yaml = r#"foo: 42"#;
    let parsed_yaml = parse_input(inline_yaml, None).unwrap();
    assert!(matches!(parsed_yaml.source, InputSource::Inline(InputEncoding::Yaml)));
    assert!(matches!(body_field(&parsed_yaml.value, "foo"), Some(Json::Number(n)) if n == "42"));

    let arg = "@/tmp/input.json";
    assert_eq!(input_file_path(arg).as_deref(), Some("/tmp/input.json"));
    let parsed_file = parse_input(arg, Some(r#"{"file": true}"#)).unwrap();
    if let InputSource::File { path, encoding } = parsed_file.source {
        assert_eq!(path, "/tmp/input.json");
        assert_eq!(encoding, InputEncoding::Json);
    } else {
        panic!("expected file input source");
    }
    assert!(matches!(body_field(&parsed_file.value, "file"), Some(Json::Bool(true))));
    assert_eq!(InputEncoding::Yaml.label(), "yaml");
}

#[test]
fn parse_input_reports_both_parsers() {
    let err = parse_input("{ not: [valid", None).unwrap_err();
    match &err {
        InputError::Parse { json, yaml } => {
            assert!(!json.is_empty());
            assert!(!yaml.is_empty());
            assert!(err.message().starts_with("input parse error: json="));
        }
        _ => panic!("expected parse error"),
    }
    let err = parse_input("@f.txt", Some("{ not: [valid")).unwrap_err();
    assert!(err.message().starts_with("unable to parse input file f.txt: input parse error: json="));
    let (array, encoding) = parse_text("[1, 2]").unwrap();
    assert!(matches!(encoding, InputEncoding::Json));
    match array {
        Json::Array(items) => {
            assert_eq!(items.len(), 2);
            assert!(matches!(&items[1], Json::Number(n) if n == "2"));
        }
        _ => panic!("expected an array"),
    }
    let (nested, encoding) = parse_text("a:\n  b: [x, true]\n").unwrap();
    assert!(matches!(encoding, InputEncoding::Yaml));
    match body_field(&nested, "a") {
        Some(inner) => match body_field(inner, "b") {
            Some(Json::Array(items)) => {
                assert!(matches!(&items[0], Json::Str(s) if s == "x"));
                assert!(matches!(&items[1], Json::Bool(true)));
            }
            _ => panic!("expected a list under b"),
        },
        None => panic!("expected a member a"),
    }
    assert_eq!(input_file_path("plain"), None);
}

#[test]
fn card_summary_with_fallbacks() {
    let view = CardView {
        version: None,
        title: Some("Welcome".to_string()),
        summary_text: None,
        body_texts: vec!["Hello".to_string()],
        inputs: vec![CardInput {
            id: "name".to_string(),
            label: None,
            input_type: Some("text".to_string()),
            placeholder: Some("Your name".to_string()),
        }],
        actions: vec![CardAction { id: "go".to_string(), title: Some("Go".to_string()), action_type: None }],
    };
    let lines = card_summary_lines(&view, &None);
    assert_eq!(
        lines,
        vec![
            "Card received: Welcome".to_string(),
            "  body:".to_string(),
            "    Hello".to_string(),
            "  inputs:".to_string(),
            "    - name (id=name: type=text)".to_string(),
            "      placeholder: Your name".to_string(),
            "  actions:".to_string(),
            "    - Go (id=go: type=action)".to_string(),
            "Hint: @input <field>=<value> to set inputs, @click <action_id> to submit, @show to revisit the card, @json to view raw payload.".to_string(),
        ]
    );
    let mut catalog = TextMap::new();
    catalog.insert("demo.card.received".to_string(), "Karte: {}".to_string());
    let empty = CardView {
        version: None,
        title: None,
        summary_text: None,
        body_texts: vec![],
        inputs: vec![],
        actions: vec![],
    };
    let lines = card_summary_lines(&empty, &Some(catalog));
    assert_eq!(lines[0], "Karte: Adaptive card");
    assert_eq!(lines.len(), 2);
}

#[test]
fn ingress_routes_requests() {
    let enabled = vec![Domain::Messaging, Domain::Events];
    let route = route_ingress("POST", "/messaging/ingress/telegram/acme", &enabled).unwrap();
    assert_eq!(route.domain, Domain::Messaging);
    assert_eq!(route.provider, "telegram");
    assert_eq!(route.tenant, "acme");
    assert_eq!(route.team, "default");
    let route = route_ingress("GET", "//Events/INGRESS/webhook/t1/team-a/", &enabled).unwrap();
    assert_eq!(route.domain, Domain::Events);
    assert_eq!(route.team, "team-a");
    let err = route_ingress("PUT", "/messaging/ingress/a/b", &enabled).unwrap_err();
    assert_eq!((err.status, err.message.as_str()), (405, "only GET/POST allowed"));
    let err = route_ingress("POST", "/messaging/ingress/a", &enabled).unwrap_err();
    assert_eq!(err.status, 400);
    let err = route_ingress("POST", "/chat/ingress/a/b", &enabled).unwrap_err();
    assert_eq!((err.status, err.message.as_str()), (404, "unknown domain"));
    let err = route_ingress("POST", "/secrets/ingress/a/b", &enabled).unwrap_err();
    assert_eq!((err.status, err.message.as_str()), (404, "domain disabled"));
    assert_eq!(segments_of("/a//b/"), vec!["a".to_string(), "b".to_string()]);
}

#[test]
fn ingress_flow_choice_and_bodies() {
    assert_eq!(ingress_flow(true, true).unwrap(), "handle-webhook");
    assert_eq!(ingress_flow(false, true).unwrap(), "ingest");
    let err = ingress_flow(false, false).unwrap_err();
    assert_eq!((err.status, err.message.as_str()), (404, "no ingress flow available"));
    assert_eq!(outcome_status(true), 200);
    assert_eq!(outcome_status(false), 502);
    match error_body("boom") {
        Json::Object(fields) => {
            assert_eq!(fields.len(), 2);
            assert!(matches!(fields[0].1, Json::Bool(false)));
        }
        _ => panic!("expected object"),
    }
    match flow_outcome_body(true, "Webhook", Json::Null, Json::Null, Json::Null) {
        Json::Object(fields) => {
            assert_eq!(fields[1].0, "mode");
            assert!(matches!(&fields[1].1, Json::Str(m) if m == "Webhook"));
        }
        _ => panic!("expected object"),
    }
}

#[test]
fn ingress_invocation_and_responses() {
    let enabled = vec![Domain::Messaging];
    let route = route_ingress("POST", "/messaging/ingress/telegram/acme/ops", &enabled).unwrap();
    let inv = ingress_invocation(&route, false, true).unwrap();
    assert_eq!(inv.flow, "ingest");
    assert_eq!(inv.provider, "telegram");
    assert_eq!(inv.tenant, "acme");
    assert_eq!(inv.team, "ops");
    let refused = ingress_invocation(&route, false, false).unwrap_err();
    let answer = refusal_response(&refused);
    assert_eq!(answer.status, 404);
    assert!(matches!(body_field(&answer.body, "message"), Some(Json::Str(m)) if m == "no ingress flow available"));
    let failed = ingress_response(InvocationResult::Failed("runner down".to_string()));
    assert_eq!(failed.status, 502);
    assert!(matches!(body_field(&failed.body, "success"), Some(Json::Bool(false))));
    assert!(matches!(body_field(&failed.body, "message"), Some(Json::Str(m)) if m == "runner down"));
    let ok = ingress_response(InvocationResult::Outcome {
        success: true,
        mode: "Flow".to_string(),
        output: Json::Null,
        raw: Json::Null,
        error: Json::Null,
    });
    assert_eq!(ok.status, 200);
    assert!(matches!(body_field(&ok.body, "mode"), Some(Json::Str(m)) if m == "Flow"));
    let bad = ingress_response(InvocationResult::Outcome {
        success: false,
        mode: "Flow".to_string(),
        output: Json::Null,
        raw: Json::Null,
        error: Json::Str("boom".to_string()),
    });
    assert_eq!(bad.status, 502);
}
