use greentic_operator_core::cards::{card_at, card_to_render, find_card_path, replace_card};
use greentic_operator_core::domains::Domain;
use greentic_operator_core::json::Json;
use greentic_operator_core::onboard::wizard::{
    add_public_url_meta, alias_telegram_token, apply_i18n_to_form, build_setup_flow_input, find_provider_pack,
    flow_result, i18n_messages, merge_existing_config, parse_mode, parse_request, read_runtime_public_url,
    resolve_gmap_path, submit_config, submit_response, telegram_answer, telegram_webhook_failure, telegram_webhook_report,
    try_provider_setup_webhook, submit_step, FormTexts, ProviderPack, QaMode, QuestionTexts, SubmitAction, SubmitStage,
    WebhookSetup,
};
use greentic_operator_core::textmap::TextMap;

fn s(v: &str) -> Json {
    Json::Str(v.to_string())
}

fn obj(fields: Vec<(&str, Json)>) -> Json {
    Json::Object(fields.into_iter().map(|(k, v)| (k.to_string(), v)).collect())
}

fn get<'a>(j: &'a Json, key: &str) -> Option<&'a Json> {
    match j {
        Json::Object(fields) => fields.iter().find(|(k, _)| k == key).map(|(_, v)| v),
        _ => None,
    }
}

fn get_str<'a>(j: &'a Json, key: &str) -> Option<&'a str> {
    match get(j, key) {
        Some(Json::Str(v)) => Some(v.as_str()),
        _ => None,
    }
}

#[test]
fn parse_request_defaults_and_lowercases() {
    let body = obj(vec![("provider_id", s("messaging-telegram")), ("tenant", s("ACME")), ("team", s("Ops"))]);
    let req = parse_request(&body).unwrap();
    assert_eq!(req.provider_id, "messaging-telegram");
    assert_eq!(req.domain, Domain::Messaging);
    assert_eq!(req.tenant, "acme");
    assert_eq!(req.team.as_deref(), Some("ops"));
    assert_eq!(req.locale, "en");
    assert_eq!(req.mode, QaMode::Setup);
    assert!(matches!(req.answers, Json::Object(ref f) if f.is_empty()));
    let body = obj(vec![("provider_id", s("p")), ("domain", s("events")), ("mode", s("upgrade")), ("locale", s("de"))]);
    let req = parse_request(&body).unwrap();
    assert_eq!(req.tenant, "default");
    assert_eq!(req.domain, Domain::Events);
    assert_eq!(req.mode, QaMode::Upgrade);
    assert_eq!(req.locale, "de");
}

#[test]
fn parse_request_errors() {
    let err = parse_request(&obj(vec![("domain", s("events"))])).unwrap_err();
    assert_eq!((err.status, err.message.as_str()), (400, "missing provider_id"));
    let err = parse_request(&obj(vec![("provider_id", s("p")), ("domain", s("chat"))])).unwrap_err();
    assert_eq!((err.status, err.message.as_str()), (400, "unknown domain: chat"));
    assert_eq!(parse_mode(&obj(vec![("mode", s("remove"))])), QaMode::Remove);
    assert_eq!(parse_mode(&obj(vec![("mode", s("weird"))])), QaMode::Setup);
    assert_eq!(parse_mode(&Json::Null), QaMode::Setup);
    assert_eq!(QaMode::Default.as_str(), "default");
}

#[test]
fn submit_config_sets_scope_and_label() {
    let answers = obj(vec![("instance_label", s("Main bot")), ("bot_token", s("123"))]);
    let config = submit_config(None, &answers, "acme", Some("ops"));
    assert_eq!(get_str(&config, "instance_label"), Some("Main bot"));
    assert_eq!(get_str(&config, "_scope_tenant"), Some("acme"));
    assert_eq!(get_str(&config, "_scope_team"), Some("ops"));
    assert_eq!(get_str(&config, "bot_token"), Some("123"));
    let config = submit_config(Some(obj(vec![("x", s("1"))])), &obj(vec![("instance_label", s(""))]), "t", None);
    assert_eq!(get(&config, "instance_label").is_none(), true);
    assert!(get(&config, "_scope_team").is_none());
    let config = submit_config(Some(Json::Null), &answers, "t", None);
    assert!(matches!(config, Json::Null));
}

#[test]
fn telegram_token_alias() {
    let mut config = obj(vec![("bot_token", s("abc"))]);
    assert!(alias_telegram_token("messaging-telegram", &mut config));
    assert_eq!(get_str(&config, "telegram_bot_token"), Some("abc"));
    let mut config = obj(vec![("bot_token", s("abc")), ("telegram_bot_token", s("keep"))]);
    assert!(alias_telegram_token("messaging-telegram", &mut config));
    assert_eq!(get_str(&config, "telegram_bot_token"), Some("keep"));
    let mut config = obj(vec![("bot_token", s(""))]);
    assert!(!alias_telegram_token("messaging-telegram", &mut config));
    assert!(!alias_telegram_token("messaging-slack", &mut obj(vec![("bot_token", s("x"))])));
}

#[test]
fn setup_flow_input_payload() {
    let config = obj(vec![("bot_token", s("t"))]);
    let input = build_setup_flow_input("messaging-telegram", "acme", None, Some("https://x.io"), &config);
    assert_eq!(get_str(&input, "id"), Some("messaging-telegram"));
    assert_eq!(get_str(&input, "team"), Some("_"));
    assert_eq!(get_str(&input, "env"), Some("dev"));
    assert_eq!(get_str(&input, "public_base_url"), Some("https://x.io"));
    let cfg = get(&input, "config").unwrap();
    assert_eq!(get_str(cfg, "public_base_url"), Some("https://x.io"));
    assert_eq!(get_str(cfg, "id"), Some("messaging-telegram"));
    let answers = get(&input, "setup_answers").unwrap();
    assert!(get(answers, "public_base_url").is_none());
    let msg = get(&input, "msg").unwrap();
    assert_eq!(get_str(msg, "id"), Some("messaging-telegram.setup"));
    assert_eq!(get_str(get(msg, "message").unwrap(), "id"), Some("messaging-telegram.setup_default__collect"));
    assert_eq!(get_str(get(&input, "payload").unwrap(), "id"), Some("messaging-telegram-setup_default"));
    assert_eq!(get_str(&input, "answers_json"), Some("{\"bot_token\":\"t\"}"));
}

#[test]
fn merge_existing_config_overlays_answers() {
    let existing = obj(vec![("a", s("old")), ("b", s("keep"))]);
    let answers = obj(vec![("a", s("new")), ("c", s(""))]);
    let merged = merge_existing_config(Some(existing), &answers);
    assert_eq!(get_str(&merged, "a"), Some("new"));
    assert_eq!(get_str(&merged, "b"), Some("keep"));
    assert_eq!(get_str(&merged, "c"), Some(""));
    let merged = merge_existing_config(None, &answers);
    assert_eq!(get_str(&merged, "a"), Some("new"));
    assert!(get(&merged, "b").is_none());
}

#[test]
fn telegram_webhook_plan() {
    let config = obj(vec![("public_base_url", s("https://x.io/")), ("bot_token", s("T0K"))]);
    match try_provider_setup_webhook("messaging-telegram", "acme", None, &config) {
        WebhookSetup::Call(call) => {
            assert_eq!(call.webhook_url, "https://x.io/v1/messaging/ingress/messaging-telegram/acme/default");
            assert_eq!(call.api_url, "https://api.telegram.org/botT0K/setWebhook");
            assert_eq!(get_str(&call.body, "url"), Some(call.webhook_url.as_str()));
        }
        other => panic!("unexpected {other:?}"),
    }
    let config = obj(vec![
        ("public_base_url", s("https://x.io")),
        ("bot_token", s("T")),
        ("api_base_url", s("https://proxy.telegram.org")),
    ]);
    match try_provider_setup_webhook("messaging-telegram", "acme", Some("ops"), &config) {
        WebhookSetup::Call(call) => assert_eq!(call.api_url, "https://proxy.telegram.org/botT/setWebhook"),
        other => panic!("unexpected {other:?}"),
    }
    let empty_token = obj(vec![("public_base_url", s("https://x.io")), ("bot_token", s(""))]);
    match try_provider_setup_webhook("messaging-telegram", "acme", None, &empty_token) {
        WebhookSetup::Report(r) => assert_eq!(get_str(&r, "error"), Some("bot_token is empty")),
        other => panic!("unexpected {other:?}"),
    }
    let http = obj(vec![("public_base_url", s("http://x.io")), ("bot_token", s("T"))]);
    assert!(matches!(try_provider_setup_webhook("messaging-telegram", "a", None, &http), WebhookSetup::Skip));
    assert!(matches!(try_provider_setup_webhook("messaging-slack", "a", None, &config), WebhookSetup::Skip));
}

#[test]
fn telegram_reports() {
    let answer = obj(vec![("ok", Json::Bool(true)), ("description", s("Webhook was set"))]);
    let report = telegram_webhook_report("https://x/hook", 200, answer);
    assert!(matches!(get(&report, "ok"), Some(Json::Bool(true))));
    assert_eq!(get_str(&report, "description"), Some("Webhook was set"));
    assert!(matches!(get(&report, "http_status"), Some(Json::Number(n)) if n == "200"));
    let report = telegram_webhook_report("https://x/hook", 502, Json::Null);
    assert!(matches!(get(&report, "ok"), Some(Json::Bool(false))));
    assert_eq!(get_str(&report, "description"), Some(""));
    let failure = telegram_webhook_failure("https://x/hook", "dns");
    assert_eq!(get_str(&failure, "error"), Some("request failed: dns"));
}

#[test]
fn submit_response_and_flow_results() {
    let setup = flow_result("setup_default", Ok((true, Json::Null, obj(vec![("x", s("y"))]))));
    assert_eq!(get_str(&setup, "flow"), Some("setup_default"));
    let failed = flow_result("verify_webhooks", Err("boom".to_string()));
    assert!(matches!(get(&failed, "success"), Some(Json::Bool(false))));
    assert_eq!(get_str(&failed, "error"), Some("boom"));
    let response = submit_response("p", QaMode::Setup, &vec!["k1".to_string()], true, None, Some(setup), None);
    assert_eq!(get_str(&response, "status"), Some("ok"));
    assert_eq!(get_str(&response, "mode"), Some("setup"));
    assert!(matches!(get(&response, "webhook_setup"), Some(Json::Null)));
    assert!(matches!(get(&response, "gmap_updated"), Some(Json::Bool(true))));
    match get(&response, "secrets_saved") {
        Some(Json::Array(items)) => assert_eq!(items.len(), 1),
        other => panic!("unexpected {other:?}"),
    }
}

#[test]
fn gmap_paths_packs_and_meta() {
    assert_eq!(resolve_gmap_path("/b", "acme", None), "/b/tenants/acme/tenant.gmap");
    assert_eq!(resolve_gmap_path("/b", "acme", Some("_")), "/b/tenants/acme/tenant.gmap");
    assert_eq!(resolve_gmap_path("/b", "acme", Some("ops")), "/b/tenants/acme/teams/ops/team.gmap");
    let packs = vec![
        ProviderPack { pack_id: "x".to_string(), file_name: "messaging-telegram.gtpack".to_string(), path: "/p/1".to_string(), entry_flows: vec![] },
        ProviderPack { pack_id: "messaging-telegram".to_string(), file_name: "y.gtpack".to_string(), path: "/p/2".to_string(), entry_flows: vec![] },
    ];
    assert_eq!(find_provider_pack(&packs, "messaging-telegram").unwrap().path, "/p/1");
    let err = find_provider_pack(&packs, "slack").unwrap_err();
    assert_eq!((err.status, err.message.as_str()), (404, "provider pack not found: slack"));
    let meta = add_public_url_meta(Json::Null, Some("https://x"));
    assert_eq!(get_str(get(&meta, "meta").unwrap(), "public_url"), Some("https://x"));
    let kept = add_public_url_meta(obj(vec![("a", s("b"))]), None);
    assert!(get(&kept, "meta").is_none());
}

#[test]
fn i18n_for_forms() {
    let bundle = obj(vec![
        ("locale", s("en")),
        ("messages", obj(vec![("telegram.qa.setup.title", s("Telegram setup")), ("n", Json::Number("1".to_string()))])),
    ]);
    let messages = i18n_messages(&bundle);
    assert_eq!(messages.len(), 1);
    let mut form = FormTexts {
        title: "t".to_string(),
        questions: vec![QuestionTexts { id: "bot_token".to_string(), title: "bot_token".to_string(), description: None }],
    };
    let mut i18n = messages;
    i18n.insert("telegram.qa.setup.bot_token".to_string(), "Bot token".to_string());
    i18n.insert("telegram.schema.config.bot_token.description".to_string(), "From BotFather".to_string());
    apply_i18n_to_form(&mut form, &i18n, "messaging-telegram", "setup");
    assert_eq!(form.title, "Telegram setup");
    assert_eq!(form.questions[0].title, "Bot token");
    assert_eq!(form.questions[0].description.as_deref(), Some("From BotFather"));
}

#[test]
fn runtime_url_is_the_latest_https_one() {
    let files = vec![
        (5u128, " https://old.example \n".to_string()),
        (9u128, "not a url".to_string()),
        (7u128, "https://new.example".to_string()),
        (7u128, "https://same-time.example".to_string()),
    ];
    assert_eq!(read_runtime_public_url(&files).as_deref(), Some("https://new.example"));
    assert_eq!(read_runtime_public_url(&vec![]), None);
}

#[test]
fn cards_are_found_and_replaced() {
    let payload = obj(vec![("payload", obj(vec![("card", obj(vec![("v", s("1"))]))]))]);
    let path = find_card_path(&payload).unwrap();
    assert_eq!(path, 3);
    assert!(card_at(&payload, path).is_some());
    let replaced = replace_card(payload, path, obj(vec![("rendered", Json::Bool(true))]));
    let card = get(get(&replaced, "payload").unwrap(), "card").unwrap();
    assert!(matches!(get(card, "rendered"), Some(Json::Bool(true))));
    assert_eq!(find_card_path(&obj(vec![("card", s("not an object"))])), None);
    assert_eq!(find_card_path(&obj(vec![("message_card", obj(vec![]))])), Some(0));
}

fn submit_run(mode: QaMode, flows: &[&str], failing: Option<SubmitStage>) -> Vec<String> {
    let flows: Vec<String> = flows.iter().map(|f| f.to_string()).collect();
    let mut stage = SubmitStage::Start;
    let mut outcome: Result<(), String> = Ok(());
    let mut done = Vec::new();
    loop {
        let (next, action) = submit_step(mode, &flows, stage, outcome);
        let name = match &action {
            SubmitAction::ReadCurrentConfig => "read-config".to_string(),
            SubmitAction::ApplyAnswers => "apply".to_string(),
            SubmitAction::Persist => "persist".to_string(),
            SubmitAction::GrantGmap => "grant".to_string(),
            SubmitAction::RemoveAndRevoke => "revoke".to_string(),
            SubmitAction::ReadRuntimeUrl => "url".to_string(),
            SubmitAction::RunFlow(f) => format!("flow:{f}"),
            SubmitAction::SetupWebhook => "webhook".to_string(),
            SubmitAction::Respond => "respond".to_string(),
            SubmitAction::Fail { status, message } => format!("fail:{status}:{message}"),
        };
        done.push(name);
        if next == SubmitStage::Done {
            return done;
        }
        outcome = if failing == Some(next) { Err("disk full".to_string()) } else { Ok(()) };
        stage = next;
    }
}

#[test]
fn submit_sequence_per_mode() {
    assert_eq!(
        submit_run(QaMode::Setup, &["setup_default", "verify_webhooks"], None),
        vec!["apply", "persist", "grant", "url", "flow:setup_default", "flow:verify_webhooks", "webhook", "respond"]
    );
    assert_eq!(submit_run(QaMode::Default, &["verify_webhooks"], None), vec!["apply", "persist", "grant", "url", "webhook", "respond"]);
    assert_eq!(
        submit_run(QaMode::Upgrade, &["setup_default"], None),
        vec!["read-config", "apply", "persist", "grant", "url", "flow:setup_default", "webhook", "respond"]
    );
    assert_eq!(
        submit_run(QaMode::Remove, &["setup_default", "verify_webhooks"], None),
        vec!["read-config", "apply", "persist", "grant", "revoke", "url", "respond"]
    );
    assert_eq!(
        submit_run(QaMode::Setup, &[], Some(SubmitStage::Persisted)),
        vec!["apply", "persist", "fail:500:persist failed: disk full"]
    );
    assert_eq!(submit_run(QaMode::Setup, &[], Some(SubmitStage::Applied)), vec!["apply", "fail:500:apply-answers failed: disk full"]);
    assert_eq!(
        submit_run(QaMode::Setup, &[], Some(SubmitStage::Granted)),
        vec!["apply", "persist", "grant", "fail:500:gmap update failed: disk full"]
    );
}

#[test]
fn raw_payloads_give_their_card() {
    let (doc, path) = card_to_render(r#"{"payload": {"card": {"title": "hi"}}, "x": 1}"#).unwrap();
    assert_eq!(path, 3);
    assert_eq!(get_str(card_at(&doc, path).unwrap(), "title"), Some("hi"));
    assert_eq!(card_to_render(r#"{"message_card": {}}"#).unwrap().1, 0);
    assert!(card_to_render(r#"{"text": "no card"}"#).is_none());
    assert!(card_to_render("card: {title: hi}").is_none());
    assert!(card_to_render("not json").is_none());
}

#[test]
fn telegram_answers_are_parsed_or_null() {
    let r = telegram_answer(200, r#"{"ok": true, "description": "Webhook was set"}"#, "https://x.io/hook");
    assert!(matches!(get(&r, "ok"), Some(Json::Bool(true))));
    assert_eq!(get_str(&r, "description"), Some("Webhook was set"));
    assert!(matches!(get(&r, "http_status"), Some(Json::Number(n)) if n == "200"));
    let r = telegram_answer(502, "<html>bad gateway</html>", "https://x.io/hook");
    assert!(matches!(get(&r, "ok"), Some(Json::Bool(false))));
    assert_eq!(get_str(&r, "description"), Some(""));
    assert!(matches!(get(&r, "telegram_response"), Some(Json::Null)));
}

#[test]
fn setup_flow_answers_json_is_written_in_key_order() {
    let config = obj(vec![("z", Json::Number("1".to_string())), ("a", s("x")), ("l", Json::Array(vec![Json::Bool(true), Json::Null]))]);
    let input = build_setup_flow_input("p", "t", Some("team"), None, &config);
    assert_eq!(get_str(&input, "answers_json"), Some(r#"{"a":"x","l":[true,null],"z":1}"#));
    assert_eq!(get_str(&input, "team"), Some("team"));
    let bad = obj(vec![("n", Json::Number("not-a-number".to_string()))]);
    let input = build_setup_flow_input("p", "t", None, None, &bad);
    assert!(get(&input, "answers_json").is_none());
}
