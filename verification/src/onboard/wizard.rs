//! The decisions of the onboarding wizard's endpoints: reading a request, preparing the
//! provider configuration that is persisted, the setup flow input, the Telegram webhook
//! registration, and the response. Running flows, persisting and HTTP calls are the caller's.
use vstd::prelude::*;
use crate::domains::{Domain, domain_from_name, domain_named};
use crate::json::{Json, JsonV, body_field, body_str, field_of, jstr, json_clone, jv, jv_fields, lemma_jv_fields, member, set_default_member, set_member, str_field, with_default_member, with_member};
use crate::paths::{join, path_join};
use crate::demo::input::{json_parsed, json_written, parse_json, write_json};
use crate::text::{concat2, concat4, concat5, contains_text, lower_all, owned, starts_with, text_contains, text_eq, text_lower, text_starts_with, text_trim_end_char, trim_end_by, is_char, texts};

verus! {

/// What a provider's QA is run for.
#[derive(Clone, Copy, Debug, PartialEq, Eq, Structural)]
pub enum QaMode {
    Default,
    Setup,
    Upgrade,
    Remove,
}

/// The name of a mode.
pub open spec fn qa_mode_name(m: QaMode) -> Seq<char> {
    match m {
        QaMode::Default => "default"@,
        QaMode::Setup => "setup"@,
        QaMode::Upgrade => "upgrade"@,
        QaMode::Remove => "remove"@,
    }
}

impl QaMode {
    /// The name of the mode.
    pub fn as_str(self) -> (r: &'static str)
        ensures
            r@ == qa_mode_name(self),
    {
        match self {
            QaMode::Default => "default",
            QaMode::Setup => "setup",
            QaMode::Upgrade => "upgrade",
            QaMode::Remove => "remove",
        }
    }
}

/// The mode a request asks for: `upgrade`, `remove` or `default`, else setup.
pub open spec fn requested_mode(body: JsonV) -> QaMode {
    let m = match str_field(body, "mode"@) {
        Some(m) => m,
        None => "setup"@,
    };
    if m == "upgrade"@ {
        QaMode::Upgrade
    } else if m == "remove"@ {
        QaMode::Remove
    } else if m == "default"@ {
        QaMode::Default
    } else {
        QaMode::Setup
    }
}

/// The mode a request asks for.
pub fn parse_mode(body: &Json) -> (r: QaMode)
    ensures
        r == requested_mode(jv(*body)),
{
    let m = match body_str(body, "mode") {
        Some(m) => m.as_str(),
        None => "setup",
    };
    if text_eq(m, "upgrade") {
        QaMode::Upgrade
    } else if text_eq(m, "remove") {
        QaMode::Remove
    } else if text_eq(m, "default") {
        QaMode::Default
    } else {
        QaMode::Setup
    }
}

/// A refused request: its HTTP status and message.
#[derive(Clone, Debug)]
pub struct OnboardError {
    pub status: u16,
    pub message: String,
}

/// The domain a request names (`messaging` when none), or the name when it is unknown.
pub open spec fn requested_domain(body: JsonV) -> Result<Domain, Seq<char>> {
    let name = match str_field(body, "domain"@) {
        Some(d) => d,
        None => "messaging"@,
    };
    match domain_named(name) {
        Some(d) => Ok(d),
        None => Err(name),
    }
}

/// The domain a request names; refused with 400 when it is unknown.
pub fn parse_domain(body: &Json) -> (r: Result<Domain, OnboardError>)
    ensures
        match requested_domain(jv(*body)) {
            Ok(d) => r == Ok::<Domain, OnboardError>(d),
            Err(name) => r matches Err(e) && e.status == 400 && e.message@ == "unknown domain: "@ + name,
        },
{
    let name = match body_str(body, "domain") {
        Some(d) => d.as_str(),
        None => "messaging",
    };
    match domain_from_name(name) {
        Some(d) => Ok(d),
        None => Err(OnboardError { status: 400, message: concat2("unknown domain: ", name) }),
    }
}

/// A request to an onboarding endpoint.
#[derive(Debug)]
pub struct OnboardRequest {
    pub provider_id: String,
    pub domain: Domain,
    pub tenant: String,
    pub team: Option<String>,
    pub answers: Json,
    pub locale: String,
    pub mode: QaMode,
}

/// An empty object.
pub open spec fn empty_object() -> JsonV {
    JsonV::Object(Seq::empty())
}

/// Reads a request: the provider is required (400 `missing provider_id`), then the domain must
/// be known; the tenant (`default` when none) and team are lowercased; the answers default to
/// an empty object, the locale to `en`.
pub fn parse_request(body: &Json) -> (r: Result<OnboardRequest, OnboardError>)
    ensures
        str_field(jv(*body), "provider_id"@) is None ==> (r matches Err(e) && e.status == 400
            && e.message@ == "missing provider_id"@),
        str_field(jv(*body), "provider_id"@) is Some ==> match requested_domain(jv(*body)) {
            Err(name) => r matches Err(e) && e.status == 400 && e.message@ == "unknown domain: "@ + name,
            Ok(d) => r matches Ok(req) && {
                &&& Some(req.provider_id@) == str_field(jv(*body), "provider_id"@)
                &&& req.domain == d
                &&& req.tenant@ == lower_all(match str_field(jv(*body), "tenant"@) {
                    Some(t) => t,
                    None => "default"@,
                })
                &&& crate::text::opt_text(req.team) == match str_field(jv(*body), "team"@) {
                    Some(t) => Some(lower_all(t)),
                    None => None,
                }
                &&& jv(req.answers) == match field_of(jv(*body), "answers"@) {
                    Some(a) => a,
                    None => empty_object(),
                }
                &&& Some(req.locale@) == match str_field(jv(*body), "locale"@) {
                    Some(l) => Some(l),
                    None => Some("en"@),
                }
                &&& req.mode == requested_mode(jv(*body))
            },
        },
{
    let provider_id = match body_str(body, "provider_id") {
        Some(p) => p.clone(),
        None => return Err(OnboardError { status: 400, message: owned("missing provider_id") }),
    };
    let domain = parse_domain(body)?;
    let tenant = match body_str(body, "tenant") {
        Some(t) => text_lower(t.as_str()),
        None => text_lower("default"),
    };
    let team = match body_str(body, "team") {
        Some(t) => Some(text_lower(t.as_str())),
        None => None,
    };
    let answers = match body_field(body, "answers") {
        Some(a) => json_clone(a),
        None => {
            let e = Json::Object(Vec::new());
            proof {
                assert(jv_fields(Seq::<(String, Json)>::empty()) =~= Seq::<(Seq<char>, JsonV)>::empty());
            }
            e
        },
    };
    let locale = match body_str(body, "locale") {
        Some(l) => l.clone(),
        None => owned("en"),
    };
    let mode = parse_mode(body);
    Ok(OnboardRequest { provider_id, domain, tenant, team, answers, locale, mode })
}

/// The members of an object document, else none.
pub open spec fn object_fields(j: JsonV) -> Option<Seq<(Seq<char>, JsonV)>> {
    match j {
        JsonV::Object(f) => Some(f),
        _ => None,
    }
}

/// The configuration persisted on submit: the QA's result, or the answers when the provider
/// has no QA contract; when it is an object, the non-empty `instance_label` answer and the
/// deployment scope (`_scope_tenant`, and `_scope_team` with a team) are set in it.
pub open spec fn submitted_config(config: Option<JsonV>, answers: JsonV, tenant: Seq<char>, team: Option<Seq<char>>) -> JsonV {
    let base = match config {
        Some(c) => c,
        None => answers,
    };
    match base {
        JsonV::Object(f) => {
            let f1 = match str_field(answers, "instance_label"@) {
                Some(label) => if label.len() > 0 {
                    with_member(f, "instance_label"@, JsonV::Str(label))
                } else {
                    f
                },
                None => f,
            };
            let f2 = with_member(f1, "_scope_tenant"@, JsonV::Str(tenant));
            let f3 = match team {
                Some(t) => with_member(f2, "_scope_team"@, JsonV::Str(t)),
                None => f2,
            };
            JsonV::Object(f3)
        },
        other => other,
    }
}

/// The configuration persisted on submit (see `submitted_config`).
pub fn submit_config(config: Option<Json>, answers: &Json, tenant: &str, team: Option<&str>) -> (r: Json)
    ensures
        jv(r) == submitted_config(
            match config {
                Some(c) => Some(jv(c)),
                None => None,
            },
            jv(*answers),
            tenant@,
            match team {
                Some(t) => Some(t@),
                None => None,
            },
        ),
{
    let base = match config {
        Some(c) => c,
        None => json_clone(answers),
    };
    match base {
        Json::Object(mut fields) => {
            match body_str(answers, "instance_label") {
                Some(label) => {
                    if label.as_str().unicode_len() > 0 {
                        set_member(&mut fields, owned("instance_label"), Json::Str(label.clone()));
                    }
                },
                None => {},
            }
            set_member(&mut fields, owned("_scope_tenant"), jstr(tenant));
            match team {
                Some(t) => set_member(&mut fields, owned("_scope_team"), jstr(t)),
                None => {},
            }
            Json::Object(fields)
        },
        other => other,
    }
}

/// Whether a list of flows has one of that name.
pub fn has_flow(flows: &Vec<String>, name: &str) -> (r: bool)
    ensures
        r == texts(flows@).contains(name@),
{
    let mut i: usize = 0;
    while i < flows.len()
        invariant
            i <= flows@.len(),
            forall|k: int| 0 <= k < i ==> flows@[k]@ != name@,
        decreases flows@.len() - i,
    {
        if text_eq(flows[i].as_str(), name) {
            proof {
                assert(texts(flows@)[i as int] == name@);
            }
            return true;
        }
        i += 1;
    }
    proof {
        if texts(flows@).contains(name@) {
            let k = choose|k: int| 0 <= k < texts(flows@).len() && texts(flows@)[k] == name@;
            assert(flows@[k]@ == name@);
        }
    }
    false
}

/// The Telegram configuration with the bot token also stored as `telegram_bot_token` (unless
/// set), when the provider is Telegram and the token is a non-empty string; and whether a
/// secret question for it is needed.
pub open spec fn telegram_aliased(provider_id: Seq<char>, config: JsonV) -> (JsonV, bool) {
    if provider_id == "messaging-telegram"@ {
        match str_field(config, "bot_token"@) {
            Some(token) => if token.len() > 0 {
                (
                    match config {
                        JsonV::Object(f) => JsonV::Object(with_default_member(f, "telegram_bot_token"@, JsonV::Str(token))),
                        other => other,
                    },
                    true,
                )
            } else {
                (config, false)
            },
            None => (config, false),
        }
    } else {
        (config, false)
    }
}

/// Stores the Telegram bot token under its secret alias (see `telegram_aliased`); the result
/// tells whether the form needs the alias as a secret question.
pub fn alias_telegram_token(provider_id: &str, config: &mut Json) -> (r: bool)
    ensures
        (jv(*final(config)), r) == telegram_aliased(provider_id@, jv(*old(config))),
{
    if !text_eq(provider_id, "messaging-telegram") {
        return false;
    }
    let token = match body_str(config, "bot_token") {
        Some(t) => t.clone(),
        None => return false,
    };
    if token.as_str().unicode_len() == 0 {
        return false;
    }
    match config {
        Json::Object(fields) => {
            set_default_member(fields, owned("telegram_bot_token"), Json::Str(token));
        },
        _ => {},
    }
    true
}

/// The configuration with `public_base_url` set to the runtime's public URL unless present.
pub open spec fn with_public_base_url(config: JsonV, url: Option<Seq<char>>) -> JsonV {
    match (url, config) {
        (Some(u), JsonV::Object(f)) => JsonV::Object(with_default_member(f, "public_base_url"@, JsonV::Str(u))),
        _ => config,
    }
}

/// Sets the runtime's public URL in a configuration unless present.
pub fn add_public_base_url(config: &mut Json, url: Option<&str>)
    ensures
        jv(*final(config)) == with_public_base_url(jv(*old(config)), match url {
            Some(u) => Some(u@),
            None => None,
        }),
{
    match url {
        Some(u) => match config {
            Json::Object(fields) => set_default_member(fields, owned("public_base_url"), jstr(u)),
            _ => {},
        },
        None => {},
    }
}

/// The answers for an upgrade: the existing configuration overlaid with the answers, when it
/// is an object; else the answers.
pub open spec fn merged_config(existing: Option<JsonV>, answers: JsonV) -> JsonV {
    match existing {
        Some(JsonV::Object(e)) => JsonV::Object(overlay(e, match object_fields(answers) {
            Some(a) => a,
            None => Seq::empty(),
        })),
        _ => answers,
    }
}

/// Members `over` set in turn on `base`.
pub open spec fn overlay(base: Seq<(Seq<char>, JsonV)>, over: Seq<(Seq<char>, JsonV)>) -> Seq<(Seq<char>, JsonV)>
    decreases over.len(),
{
    if over.len() == 0 {
        base
    } else {
        with_member(overlay(base, over.drop_last()), over.last().0, over.last().1)
    }
}

/// The answers for an upgrade, given the existing configuration (None when it could not be
/// read; see `merged_config`).
pub fn merge_existing_config(existing: Option<Json>, answers: &Json) -> (r: Json)
    ensures
        jv(r) == merged_config(
            match existing {
                Some(e) => Some(jv(e)),
                None => None,
            },
            jv(*answers),
        ),
{
    match existing {
        Some(Json::Object(mut merged)) => {
            let ghost base = jv_fields(merged@);
            match answers {
                Json::Object(over) => {
                    let mut i: usize = 0;
                    proof {
                        lemma_jv_fields(over@);
                        assert(jv_fields(over@).take(0) =~= Seq::<(Seq<char>, JsonV)>::empty());
                    }
                    while i < over.len()
                        invariant
                            i <= over@.len(),
                            jv_fields(over@).len() == over@.len(),
                            forall|k: int| 0 <= k < over@.len() ==> #[trigger] jv_fields(over@)[k] == (over@[k].0@, jv(over@[k].1)),
                            jv_fields(merged@) == overlay(base, jv_fields(over@).take(i as int)),
                        decreases over@.len() - i,
                    {
                        let value = json_clone(&over[i].1);
                        set_member(&mut merged, over[i].0.clone(), value);
                        proof {
                            assert(jv_fields(over@).take(i + 1).drop_last() =~= jv_fields(over@).take(i as int));
                        }
                        i += 1;
                    }
                    proof {
                        assert(jv_fields(over@).take(i as int) =~= jv_fields(over@));
                    }
                },
                _ => {},
            }
            Json::Object(merged)
        },
        _ => json_clone(answers),
    }
}

/// The gmap a submit updates: the team's unless there is none or it is `_`, else the tenant's.
pub open spec fn onboard_gmap_path(bundle: Seq<char>, tenant: Seq<char>, team: Option<Seq<char>>) -> Seq<char> {
    match team {
        Some(t) => if t != "_"@ {
            join(join(join(join(join(bundle, "tenants"@), tenant), "teams"@), t), "team.gmap"@)
        } else {
            join(join(join(bundle, "tenants"@), tenant), "tenant.gmap"@)
        },
        None => join(join(join(bundle, "tenants"@), tenant), "tenant.gmap"@),
    }
}

/// The gmap a submit updates (see `onboard_gmap_path`).
pub fn resolve_gmap_path(bundle: &str, tenant: &str, team: Option<&str>) -> (r: String)
    ensures
        r@ == onboard_gmap_path(bundle@, tenant@, match team {
            Some(t) => Some(t@),
            None => None,
        }),
{
    let tenants = path_join(bundle, "tenants");
    let tenant_dir = path_join(tenants.as_str(), tenant);
    match team {
        Some(t) => {
            if !text_eq(t, "_") {
                let teams = path_join(tenant_dir.as_str(), "teams");
                let team_dir = path_join(teams.as_str(), t);
                return path_join(team_dir.as_str(), "team.gmap");
            }
            path_join(tenant_dir.as_str(), "tenant.gmap")
        },
        None => path_join(tenant_dir.as_str(), "tenant.gmap"),
    }
}


fn members(fields: Vec<(String, Json)>) -> (r: Json)
    ensures
        jv(r) == JsonV::Object(jv_fields(fields@)),
{
    Json::Object(fields)
}

fn member_of(key: &str, value: Json) -> (r: (String, Json))
    ensures
        r.0@ == key@,
        r.1 == value,
{
    (owned(key), value)
}

/// The `msg` of a setup flow's input.
pub open spec fn setup_msg(pack_id: Seq<char>, tenant: Seq<char>) -> JsonV {
    JsonV::Object(seq![
        ("channel"@, JsonV::Str("setup"@)),
        ("id"@, JsonV::Str(pack_id + ".setup"@)),
        ("message"@, JsonV::Object(seq![
            ("id"@, JsonV::Str(pack_id + ".setup_default__collect"@)),
            ("text"@, JsonV::Str("Collect inputs for setup_default."@)),
        ])),
        ("metadata"@, JsonV::Object(Seq::empty())),
        ("reply_scope"@, JsonV::Str(""@)),
        ("session_id"@, JsonV::Str("setup"@)),
        ("tenant_id"@, JsonV::Str(tenant)),
        ("text"@, JsonV::Str("Collect inputs for setup_default."@)),
        ("user_id"@, JsonV::Str("operator"@)),
    ])
}

/// The configuration given to a setup flow: the configuration with the public URL and the
/// pack id set unless present.
pub open spec fn flow_config(pack_id: Seq<char>, url: Option<Seq<char>>, config: JsonV) -> JsonV {
    match with_public_base_url(config, url) {
        JsonV::Object(f) => JsonV::Object(with_default_member(f, "id"@, JsonV::Str(pack_id))),
        other => other,
    }
}

/// The input of a provider's `setup_default` flow. `answers_json` is the configuration as
/// `serde_json` writes it, when it could be written.
pub open spec fn setup_flow_input(
    pack_id: Seq<char>,
    tenant: Seq<char>,
    team: Option<Seq<char>>,
    url: Option<Seq<char>>,
    config: JsonV,
    answers_json: Option<Seq<char>>,
) -> JsonV {
    let head = seq![
        ("id"@, JsonV::Str(pack_id)),
        ("tenant"@, JsonV::Str(tenant)),
        ("team"@, JsonV::Str(match team {
            Some(t) => t,
            None => "_"@,
        })),
        ("env"@, JsonV::Str("dev"@)),
    ];
    let with_url = match url {
        Some(u) => head.push(("public_base_url"@, JsonV::Str(u))),
        None => head,
    };
    let body = with_url + seq![
        ("config"@, flow_config(pack_id, url, config)),
        ("msg"@, setup_msg(pack_id, tenant)),
        ("payload"@, JsonV::Object(seq![
            ("id"@, JsonV::Str(pack_id + "-setup_default"@)),
            ("spec_ref"@, JsonV::Str("assets/setup.yaml"@)),
        ])),
        ("setup_answers"@, config),
    ];
    JsonV::Object(match answers_json {
        Some(a) => body.push(("answers_json"@, JsonV::Str(a))),
        None => body,
    })
}

fn setup_msg_json(pack_id: &str, tenant: &str) -> (r: Json)
    ensures
        jv(r) == setup_msg(pack_id@, tenant@),
{
    let mut message: Vec<(String, Json)> = Vec::new();
    message.push(member_of("id", Json::Str(concat2(pack_id, ".setup_default__collect"))));
    message.push(member_of("text", jstr("Collect inputs for setup_default.")));
    let mut fields: Vec<(String, Json)> = Vec::new();
    fields.push(member_of("channel", jstr("setup")));
    fields.push(member_of("id", Json::Str(concat2(pack_id, ".setup"))));
    fields.push(member_of("message", members(message)));
    fields.push(member_of("metadata", members(Vec::new())));
    fields.push(member_of("reply_scope", jstr("")));
    fields.push(member_of("session_id", jstr("setup")));
    fields.push(member_of("tenant_id", jstr(tenant)));
    fields.push(member_of("text", jstr("Collect inputs for setup_default.")));
    fields.push(member_of("user_id", jstr("operator")));
    proof {
        lemma_jv_fields(message@);
        lemma_jv_fields(fields@);
        assert(jv_fields(Seq::<(String, Json)>::empty()) =~= Seq::<(Seq<char>, JsonV)>::empty());
        assert(jv_fields(message@) =~= seq![
            ("id"@, JsonV::Str(pack_id@ + ".setup_default__collect"@)),
            ("text"@, JsonV::Str("Collect inputs for setup_default."@)),
        ]);
        assert(jv_fields(fields@) =~= match setup_msg(pack_id@, tenant@) {
            JsonV::Object(f) => f,
            _ => Seq::empty(),
        });
    }
    members(fields)
}

/// The input of a provider's `setup_default` flow (see `setup_flow_input`).
pub fn build_setup_flow_input(
    pack_id: &str,
    tenant: &str,
    team: Option<&str>,
    public_base_url: Option<&str>,
    config: &Json,
) -> (r: Json)
    ensures
        jv(r) == setup_flow_input(
            pack_id@,
            tenant@,
            match team {
                Some(t) => Some(t@),
                None => None,
            },
            match public_base_url {
                Some(u) => Some(u@),
                None => None,
            },
            jv(*config),
            json_written(jv(*config)),
        ),
{
    let answers_json = write_json(config);
    let ghost url = match public_base_url {
        Some(u) => Some(u@),
        None => None::<Seq<char>>,
    };
    let mut fields: Vec<(String, Json)> = Vec::new();
    fields.push(member_of("id", jstr(pack_id)));
    fields.push(member_of("tenant", jstr(tenant)));
    fields.push(member_of("team", jstr(match team {
        Some(t) => t,
        None => "_",
    })));
    fields.push(member_of("env", jstr("dev")));
    match public_base_url {
        Some(u) => fields.push(member_of("public_base_url", jstr(u))),
        None => {},
    }
    let ghost head = jv_fields(fields@);
    let mut cfg = json_clone(config);
    add_public_base_url(&mut cfg, public_base_url);
    match &mut cfg {
        Json::Object(f) => set_default_member(f, owned("id"), jstr(pack_id)),
        _ => {},
    }
    let ghost cfg_v = jv(cfg);
    proof {
        assert(cfg_v == flow_config(pack_id@, url, jv(*config)));
    }
    fields.push(member_of("config", cfg));
    fields.push(member_of("msg", setup_msg_json(pack_id, tenant)));
    let mut payload: Vec<(String, Json)> = Vec::new();
    payload.push(member_of("id", Json::Str(concat2(pack_id, "-setup_default"))));
    payload.push(member_of("spec_ref", jstr("assets/setup.yaml")));
    proof {
        lemma_jv_fields(payload@);
        assert(jv_fields(payload@) =~= seq![
            ("id"@, JsonV::Str(pack_id@ + "-setup_default"@)),
            ("spec_ref"@, JsonV::Str("assets/setup.yaml"@)),
        ]);
    }
    fields.push(member_of("payload", members(payload)));
    fields.push(member_of("setup_answers", json_clone(config)));
    let ghost answers_v = match &answers_json {
        Some(a) => Some(a@),
        None => None::<Seq<char>>,
    };
    match answers_json {
        Some(a) => fields.push(member_of("answers_json", Json::Str(a))),
        None => {},
    }
    proof {
        lemma_jv_fields(fields@);
        let t = match team {
            Some(t) => t@,
            None => "_"@,
        };
        let h = seq![
            ("id"@, JsonV::Str(pack_id@)),
            ("tenant"@, JsonV::Str(tenant@)),
            ("team"@, JsonV::Str(t)),
            ("env"@, JsonV::Str("dev"@)),
        ];
        let expected = setup_flow_input(
            pack_id@,
            tenant@,
            match team {
                Some(t) => Some(t@),
                None => None,
            },
            url,
            jv(*config),
            answers_v,
        );
        assert(jv_fields(fields@) =~= match expected {
            JsonV::Object(f) => f,
            _ => Seq::empty(),
        });
    }
    members(fields)
}

/// A call to Telegram's `setWebhook`: where to post and what.
#[derive(Debug)]
pub struct TelegramWebhookCall {
    pub api_url: String,
    pub webhook_url: String,
    pub body: Json,
}

/// What registering a provider's webhook takes.
#[derive(Debug)]
pub enum WebhookSetup {
    /// Nothing to register.
    Skip,
    /// Nothing registered; this is the report.
    Report(Json),
    /// Post this call; its answer makes the report.
    Call(TelegramWebhookCall),
}

/// The view of a webhook setup.
pub enum WebhookPlan {
    Skip,
    Report(JsonV),
    Call(Seq<char>, Seq<char>, JsonV),
}

pub open spec fn webhook_plan_of(w: WebhookSetup) -> WebhookPlan {
    match w {
        WebhookSetup::Skip => WebhookPlan::Skip,
        WebhookSetup::Report(j) => WebhookPlan::Report(jv(j)),
        WebhookSetup::Call(c) => WebhookPlan::Call(c.api_url@, c.webhook_url@, jv(c.body)),
    }
}

/// The body of a `setWebhook` call.
pub open spec fn telegram_webhook_body(webhook_url: Seq<char>) -> JsonV {
    JsonV::Object(seq![
        ("url"@, JsonV::Str(webhook_url)),
        ("allowed_updates"@, JsonV::Array(seq![
            JsonV::Str("message"@),
            JsonV::Str("callback_query"@),
            JsonV::Str("edited_message"@),
        ])),
    ])
}

/// How a Telegram webhook is registered: not without a bot token; reported as failed with an
/// empty one; otherwise `setWebhook` on the configured API (when it is a `telegram.org` one)
/// or Telegram's, for the operator's ingress URL of the provider, tenant and team.
pub open spec fn telegram_webhook_plan(
    config: JsonV,
    public_base_url: Seq<char>,
    provider_id: Seq<char>,
    tenant: Seq<char>,
    team: Seq<char>,
) -> WebhookPlan {
    match str_field(config, "bot_token"@) {
        None => WebhookPlan::Skip,
        Some(token) => if token.len() == 0 {
            WebhookPlan::Report(JsonV::Object(seq![
                ("ok"@, JsonV::Bool(false)),
                ("error"@, JsonV::Str("bot_token is empty"@)),
            ]))
        } else {
            let api_base = match str_field(config, "api_base_url"@) {
                Some(b) => if b.len() > 0 && contains_text(b, "telegram.org"@) {
                    b
                } else {
                    "https://api.telegram.org"@
                },
                None => "https://api.telegram.org"@,
            };
            let webhook_url = trim_end_by(public_base_url, is_char('/')) + "/v1/messaging/ingress/"@ + provider_id + "/"@
                + tenant + "/"@ + team;
            WebhookPlan::Call(api_base + "/bot"@ + token + "/setWebhook"@, webhook_url, telegram_webhook_body(webhook_url))
        },
    }
}

/// The provider's name without a `messaging-` prefix.
pub open spec fn provider_short(provider_id: Seq<char>) -> Seq<char> {
    match crate::text::strip_prefix(provider_id, "messaging-"@) {
        Some(rest) => rest,
        None => provider_id,
    }
}

/// How a provider's webhook is registered after submit: only with an `https://` public URL in
/// the configuration, and only for Telegram (the team `default` when none).
pub open spec fn webhook_plan(provider_id: Seq<char>, tenant: Seq<char>, team: Option<Seq<char>>, config: JsonV) -> WebhookPlan {
    match str_field(config, "public_base_url"@) {
        None => WebhookPlan::Skip,
        Some(url) => if url.len() == 0 || !starts_with(url, "https://"@) {
            WebhookPlan::Skip
        } else if provider_short(provider_id) == "telegram"@ {
            telegram_webhook_plan(config, url, provider_id, tenant, match team {
                Some(t) => t,
                None => "default"@,
            })
        } else {
            WebhookPlan::Skip
        },
    }
}

fn telegram_setup(config: &Json, public_base_url: &str, provider_id: &str, tenant: &str, team: &str) -> (r: WebhookSetup)
    ensures
        webhook_plan_of(r) == telegram_webhook_plan(jv(*config), public_base_url@, provider_id@, tenant@, team@),
{
    proof {
        reveal_strlit("telegram.org");
    }
    let token = match body_str(config, "bot_token") {
        Some(t) => t,
        None => return WebhookSetup::Skip,
    };
    if token.as_str().unicode_len() == 0 {
        let mut f: Vec<(String, Json)> = Vec::new();
        f.push(member_of("ok", Json::Bool(false)));
        f.push(member_of("error", jstr("bot_token is empty")));
        proof {
            lemma_jv_fields(f@);
            assert(jv_fields(f@) =~= seq![("ok"@, JsonV::Bool(false)), ("error"@, JsonV::Str("bot_token is empty"@))]);
        }
        return WebhookSetup::Report(members(f));
    }
    let api_base = match body_str(config, "api_base_url") {
        Some(b) => if b.as_str().unicode_len() > 0 && text_contains(b.as_str(), "telegram.org") {
            b.clone()
        } else {
            owned("https://api.telegram.org")
        },
        None => owned("https://api.telegram.org"),
    };
    let base = text_trim_end_char(public_base_url, '/');
    let head = concat4(base.as_str(), "/v1/messaging/ingress/", provider_id, "/");
    let webhook_url = concat4(head.as_str(), tenant, "/", team);
    let api_url = concat4(api_base.as_str(), "/bot", token.as_str(), "/setWebhook");
    let mut updates: Vec<Json> = Vec::new();
    updates.push(jstr("message"));
    updates.push(jstr("callback_query"));
    updates.push(jstr("edited_message"));
    let mut body: Vec<(String, Json)> = Vec::new();
    body.push(member_of("url", Json::Str(webhook_url.clone())));
    body.push(member_of("allowed_updates", Json::Array(updates)));
    proof {
        crate::json::lemma_jv_items(updates@);
        assert(crate::json::jv_items(updates@) =~= seq![
            JsonV::Str("message"@),
            JsonV::Str("callback_query"@),
            JsonV::Str("edited_message"@),
        ]);
        lemma_jv_fields(body@);
        assert(jv_fields(body@) =~= match telegram_webhook_body(webhook_url@) {
            JsonV::Object(f) => f,
            _ => Seq::empty(),
        });
    }
    WebhookSetup::Call(TelegramWebhookCall { api_url, webhook_url, body: members(body) })
}

/// How a provider's webhook is registered after submit (see `webhook_plan`).
pub fn try_provider_setup_webhook(provider_id: &str, tenant: &str, team: Option<&str>, config: &Json) -> (r: WebhookSetup)
    ensures
        webhook_plan_of(r) == webhook_plan(provider_id@, tenant@, match team {
            Some(t) => Some(t@),
            None => None,
        }, jv(*config)),
{
    proof {
        reveal_strlit("https://");
        reveal_strlit("messaging-");
    }
    let url = match body_str(config, "public_base_url") {
        Some(u) => u,
        None => return WebhookSetup::Skip,
    };
    if url.as_str().unicode_len() == 0 || !text_starts_with(url.as_str(), "https://") {
        return WebhookSetup::Skip;
    }
    let team = match team {
        Some(t) => t,
        None => "default",
    };
    let short = match crate::text::text_strip_prefix(provider_id, "messaging-") {
        Some(rest) => rest,
        None => owned(provider_id),
    };
    if text_eq(short.as_str(), "telegram") {
        telegram_setup(config, url.as_str(), provider_id, tenant, team)
    } else {
        WebhookSetup::Skip
    }
}

/// The boolean of a member, when it is one.
pub open spec fn bool_field(body: JsonV, key: Seq<char>) -> Option<bool> {
    match field_of(body, key) {
        Some(JsonV::Bool(b)) => Some(b),
        _ => None,
    }
}

/// The report of a `setWebhook` call that got an answer: Telegram's `ok` (false when missing),
/// its description (empty when missing), the HTTP status and the answer (null when it was no
/// JSON).
pub open spec fn telegram_answer_report(webhook_url: Seq<char>, status: u16, answer: JsonV) -> JsonV {
    JsonV::Object(seq![
        ("ok"@, JsonV::Bool(match bool_field(answer, "ok"@) {
            Some(b) => b,
            None => false,
        })),
        ("webhook_url"@, JsonV::Str(webhook_url)),
        ("description"@, JsonV::Str(match str_field(answer, "description"@) {
            Some(d) => d,
            None => ""@,
        })),
        ("http_status"@, JsonV::Number(crate::text::decimal(status as nat))),
        ("telegram_response"@, answer),
    ])
}

/// The report of a `setWebhook` call that got an answer (see `telegram_answer_report`).
pub fn telegram_webhook_report(webhook_url: &str, status: u16, answer: Json) -> (r: Json)
    ensures
        jv(r) == telegram_answer_report(webhook_url@, status, jv(answer)),
{
    let ok = match body_field(&answer, "ok") {
        Some(Json::Bool(b)) => *b,
        _ => false,
    };
    let description = match body_str(&answer, "description") {
        Some(d) => d.clone(),
        None => owned(""),
    };
    let ghost a = jv(answer);
    let mut f: Vec<(String, Json)> = Vec::new();
    f.push(member_of("ok", Json::Bool(ok)));
    f.push(member_of("webhook_url", jstr(webhook_url)));
    f.push(member_of("description", Json::Str(description)));
    f.push(member_of("http_status", Json::Number(crate::text::decimal_string(status as usize))));
    f.push(member_of("telegram_response", answer));
    proof {
        lemma_jv_fields(f@);
        assert(jv_fields(f@) =~= match telegram_answer_report(webhook_url@, status, a) {
            JsonV::Object(x) => x,
            _ => Seq::empty(),
        });
    }
    members(f)
}

/// Telegram's answer to a `setWebhook` call, from its raw body: the JSON it parses to, or null
/// when it is not JSON.
pub open spec fn answer_doc(raw_body: Seq<char>) -> JsonV {
    match json_parsed(raw_body) {
        Ok(v) => v,
        Err(_) => JsonV::Null,
    }
}

/// The report of a `setWebhook` call that got an answer, from the answer's raw body (see
/// `telegram_answer_report` and `answer_doc`).
pub fn telegram_answer(status: u16, raw_body: &str, webhook_url: &str) -> (r: Json)
    ensures
        jv(r) == telegram_answer_report(webhook_url@, status, answer_doc(raw_body@)),
{
    let answer = match parse_json(raw_body) {
        Ok(v) => v,
        Err(_) => Json::Null,
    };
    telegram_webhook_report(webhook_url, status, answer)
}

/// The report of a `setWebhook` call that failed.
pub fn telegram_webhook_failure(webhook_url: &str, error: &str) -> (r: Json)
    ensures
        jv(r) == JsonV::Object(seq![
            ("ok"@, JsonV::Bool(false)),
            ("error"@, JsonV::Str("request failed: "@ + error@)),
            ("webhook_url"@, JsonV::Str(webhook_url@)),
        ]),
{
    let mut f: Vec<(String, Json)> = Vec::new();
    f.push(member_of("ok", Json::Bool(false)));
    f.push(member_of("error", Json::Str(concat2("request failed: ", error))));
    f.push(member_of("webhook_url", jstr(webhook_url)));
    proof {
        lemma_jv_fields(f@);
        assert(jv_fields(f@) =~= seq![
            ("ok"@, JsonV::Bool(false)),
            ("error"@, JsonV::Str("request failed: "@ + error@)),
            ("webhook_url"@, JsonV::Str(webhook_url@)),
        ]);
    }
    members(f)
}


/// A value, or null.
pub open spec fn or_null(j: Option<JsonV>) -> JsonV {
    match j {
        Some(v) => v,
        None => JsonV::Null,
    }
}

fn json_or_null(j: Option<Json>) -> (r: Json)
    ensures
        jv(r) == or_null(match j {
            Some(v) => Some(jv(v)),
            None => None,
        }),
{
    match j {
        Some(v) => v,
        None => Json::Null,
    }
}

/// The report of a flow run on submit: whether it succeeded, its error and output; or, when
/// it could not be run, the reason.
pub open spec fn flow_report(flow: Seq<char>, outcome: Result<(bool, JsonV, JsonV), Seq<char>>) -> JsonV {
    match outcome {
        Ok((success, error, output)) => JsonV::Object(seq![
            ("flow"@, JsonV::Str(flow)),
            ("success"@, JsonV::Bool(success)),
            ("error"@, error),
            ("output"@, output),
        ]),
        Err(e) => JsonV::Object(seq![
            ("flow"@, JsonV::Str(flow)),
            ("success"@, JsonV::Bool(false)),
            ("error"@, JsonV::Str(e)),
        ]),
    }
}

/// The report of a flow run on submit (see `flow_report`).
pub fn flow_result(flow: &str, outcome: Result<(bool, Json, Json), String>) -> (r: Json)
    ensures
        jv(r) == flow_report(flow@, match outcome {
            Ok((s, e, o)) => Ok((s, jv(e), jv(o))),
            Err(m) => Err(m@),
        }),
{
    let mut f: Vec<(String, Json)> = Vec::new();
    f.push(member_of("flow", jstr(flow)));
    match outcome {
        Ok((success, error, output)) => {
            let ghost (ev, ov) = (jv(error), jv(output));
            f.push(member_of("success", Json::Bool(success)));
            f.push(member_of("error", error));
            f.push(member_of("output", output));
            proof {
                lemma_jv_fields(f@);
                assert(jv_fields(f@) =~= seq![
                    ("flow"@, JsonV::Str(flow@)),
                    ("success"@, JsonV::Bool(success)),
                    ("error"@, ev),
                    ("output"@, ov),
                ]);
            }
        },
        Err(e) => {
            let ghost m = e@;
            f.push(member_of("success", Json::Bool(false)));
            f.push(member_of("error", Json::Str(e)));
            proof {
                lemma_jv_fields(f@);
                assert(jv_fields(f@) =~= seq![
                    ("flow"@, JsonV::Str(flow@)),
                    ("success"@, JsonV::Bool(false)),
                    ("error"@, JsonV::Str(m)),
                ]);
            }
        },
    }
    members(f)
}

/// The response of a submit.
pub open spec fn submit_report(
    provider_id: Seq<char>,
    mode: QaMode,
    secrets_saved: Seq<Seq<char>>,
    config_written: bool,
    webhook: Option<JsonV>,
    setup_flow: Option<JsonV>,
    verify_flow: Option<JsonV>,
) -> JsonV {
    JsonV::Object(seq![
        ("status"@, JsonV::Str("ok"@)),
        ("provider_id"@, JsonV::Str(provider_id)),
        ("mode"@, JsonV::Str(qa_mode_name(mode))),
        ("secrets_saved"@, JsonV::Array(secrets_saved.map_values(|s: Seq<char>| JsonV::Str(s)))),
        ("config_written"@, JsonV::Bool(config_written)),
        ("gmap_updated"@, JsonV::Bool(true)),
        ("webhook_setup"@, or_null(webhook)),
        ("setup_flow"@, or_null(setup_flow)),
        ("verify_flow"@, or_null(verify_flow)),
    ])
}

/// The response of a submit (see `submit_report`).
pub fn submit_response(
    provider_id: &str,
    mode: QaMode,
    secrets_saved: &Vec<String>,
    config_written: bool,
    webhook: Option<Json>,
    setup_flow: Option<Json>,
    verify_flow: Option<Json>,
) -> (r: Json)
    ensures
        jv(r) == submit_report(
            provider_id@,
            mode,
            texts(secrets_saved@),
            config_written,
            match webhook {
                Some(v) => Some(jv(v)),
                None => None,
            },
            match setup_flow {
                Some(v) => Some(jv(v)),
                None => None,
            },
            match verify_flow {
                Some(v) => Some(jv(v)),
                None => None,
            },
        ),
{
    let mut saved: Vec<Json> = Vec::new();
    let mut i: usize = 0;
    while i < secrets_saved.len()
        invariant
            i <= secrets_saved@.len(),
            saved@.len() == i,
            forall|k: int| 0 <= k < i ==> jv(#[trigger] saved@[k]) == JsonV::Str(secrets_saved@[k]@),
        decreases secrets_saved@.len() - i,
    {
        saved.push(Json::Str(secrets_saved[i].clone()));
        i += 1;
    }
    proof {
        crate::json::lemma_jv_items(saved@);
        assert(crate::json::jv_items(saved@) =~= texts(secrets_saved@).map_values(|s: Seq<char>| JsonV::Str(s)));
    }
    let w = json_or_null(webhook);
    let sf = json_or_null(setup_flow);
    let vf = json_or_null(verify_flow);
    let ghost (wv, sv, vv) = (jv(w), jv(sf), jv(vf));
    let mut f: Vec<(String, Json)> = Vec::new();
    f.push(member_of("status", jstr("ok")));
    f.push(member_of("provider_id", jstr(provider_id)));
    f.push(member_of("mode", jstr(mode.as_str())));
    f.push(member_of("secrets_saved", Json::Array(saved)));
    f.push(member_of("config_written", Json::Bool(config_written)));
    f.push(member_of("gmap_updated", Json::Bool(true)));
    f.push(member_of("webhook_setup", w));
    f.push(member_of("setup_flow", sf));
    f.push(member_of("verify_flow", vf));
    proof {
        lemma_jv_fields(f@);
        assert(jv_fields(f@) =~= seq![
            ("status"@, JsonV::Str("ok"@)),
            ("provider_id"@, JsonV::Str(provider_id@)),
            ("mode"@, JsonV::Str(qa_mode_name(mode))),
            ("secrets_saved"@, JsonV::Array(texts(secrets_saved@).map_values(|s: Seq<char>| JsonV::Str(s)))),
            ("config_written"@, JsonV::Bool(config_written)),
            ("gmap_updated"@, JsonV::Bool(true)),
            ("webhook_setup"@, wv),
            ("setup_flow"@, sv),
            ("verify_flow"@, vv),
        ]);
    }
    members(f)
}

/// A rendered form with `meta.public_url` set when the runtime has a public URL. Indexing
/// makes a null document an object.
pub open spec fn with_public_url_meta(response: JsonV, url: Option<Seq<char>>) -> JsonV {
    match url {
        None => response,
        Some(u) => {
            let meta = JsonV::Object(seq![("public_url"@, JsonV::Str(u))]);
            match response {
                JsonV::Object(f) => JsonV::Object(with_member(f, "meta"@, meta)),
                _ => JsonV::Object(seq![("meta"@, meta)]),
            }
        },
    }
}

/// Sets `meta.public_url` in a rendered form (see `with_public_url_meta`). The form is an
/// object or null (indexing any other value panics).
pub fn add_public_url_meta(response: Json, url: Option<&str>) -> (r: Json)
    requires
        jv(response) is Object || jv(response) is Null,
    ensures
        jv(r) == with_public_url_meta(jv(response), match url {
            Some(u) => Some(u@),
            None => None,
        }),
{
    match url {
        None => response,
        Some(u) => {
            let mut m: Vec<(String, Json)> = Vec::new();
            m.push(member_of("public_url", jstr(u)));
            proof {
                lemma_jv_fields(m@);
                assert(jv_fields(m@) =~= seq![("public_url"@, JsonV::Str(u@))]);
            }
            let meta = members(m);
            match response {
                Json::Object(mut f) => {
                    set_member(&mut f, owned("meta"), meta);
                    Json::Object(f)
                },
                _ => {
                    let ghost mv = jv(meta);
                    let mut f: Vec<(String, Json)> = Vec::new();
                    f.push(member_of("meta", meta));
                    proof {
                        lemma_jv_fields(f@);
                        assert(jv_fields(f@) =~= seq![("meta"@, mv)]);
                    }
                    members(f)
                },
            }
        },
    }
}

/// A provider pack of the bundle.
#[derive(Clone, Debug)]
pub struct ProviderPack {
    pub pack_id: String,
    pub file_name: String,
    pub path: String,
    pub entry_flows: Vec<String>,
}

/// `s` without `suffix` at its end, or `s`.
pub open spec fn without_suffix(s: Seq<char>, suffix: Seq<char>) -> Seq<char> {
    if s.len() >= suffix.len() && s.skip(s.len() - suffix.len()) == suffix {
        s.take(s.len() - suffix.len())
    } else {
        s
    }
}

/// Whether a pack is the provider: by its id, or by its file name without `.gtpack`.
pub open spec fn pack_is_provider(pack: ProviderPack, provider_id: Seq<char>) -> bool {
    pack.pack_id@ == provider_id || without_suffix(pack.file_name@, ".gtpack"@) == provider_id
}

fn strip_gtpack(s: &str) -> (r: String)
    ensures
        r@ == without_suffix(s@, ".gtpack"@),
{
    proof {
        reveal_strlit(".gtpack");
    }
    let v = crate::text::chars_of(s);
    let suffix = crate::text::chars_of(".gtpack");
    if v.len() >= suffix.len() {
        let off = v.len() - suffix.len();
        let mut k: usize = 0;
        let mut same = true;
        while k < suffix.len()
            invariant
                k <= suffix@.len(),
                v@ == s@,
                suffix@ == ".gtpack"@,
                v@.len() >= suffix@.len(),
                v@.len() == v.len(),
                v.len() <= usize::MAX,
                off == v@.len() - suffix@.len(),
                same == (forall|m: int| 0 <= m < k ==> v@[off + m] == suffix@[m]),
            decreases suffix@.len() - k,
        {
            if v[off + k] != suffix[k] {
                same = false;
            }
            k += 1;
        }
        if same {
            proof {
                assert(s@.skip(off as int) =~= ".gtpack"@);
            }
            return crate::text::string_from(&crate::text::chars_range(&v, 0, off));
        } else {
            proof {
                let m = choose|m: int| 0 <= m < suffix@.len() && v@[off + m] != suffix@[m];
                assert(s@.skip(off as int)[m] != ".gtpack"@[m]);
            }
        }
    }
    owned(s)
}

/// The first pack that is the provider; refused with 404 when there is none.
pub fn find_provider_pack<'a>(packs: &'a Vec<ProviderPack>, provider_id: &str) -> (r: Result<&'a ProviderPack, OnboardError>)
    ensures
        match r {
            Ok(p) => exists|i: int| 0 <= i < packs@.len() && packs@[i] == *p && pack_is_provider(packs@[i], provider_id@)
                && forall|k: int| 0 <= k < i ==> !pack_is_provider(#[trigger] packs@[k], provider_id@),
            Err(e) => e.status == 404 && e.message@ == "provider pack not found: "@ + provider_id@
                && forall|k: int| 0 <= k < packs@.len() ==> !pack_is_provider(#[trigger] packs@[k], provider_id@),
        },
{
    let mut i: usize = 0;
    while i < packs.len()
        invariant
            i <= packs@.len(),
            forall|k: int| 0 <= k < i ==> !pack_is_provider(#[trigger] packs@[k], provider_id@),
        decreases packs@.len() - i,
    {
        let p = &packs[i];
        let stem = strip_gtpack(p.file_name.as_str());
        if text_eq(p.pack_id.as_str(), provider_id) || text_eq(stem.as_str(), provider_id) {
            return Ok(p);
        }
        i += 1;
    }
    Err(OnboardError { status: 404, message: concat2("provider pack not found: ", provider_id) })
}

/// The texts of a form that translations replace: its title, and each question's title and
/// description.
#[derive(Clone, Debug)]
pub struct FormTexts {
    pub title: String,
    pub questions: Vec<QuestionTexts>,
}

/// The texts of a question.
#[derive(Clone, Debug)]
pub struct QuestionTexts {
    pub id: String,
    pub title: String,
    pub description: Option<String>,
}

/// The provider's prefix in translation keys: without `messaging-` or `events-`.
pub open spec fn i18n_prefix(provider_id: Seq<char>) -> Seq<char> {
    match crate::text::strip_prefix(provider_id, "messaging-"@) {
        Some(rest) => rest,
        None => match crate::text::strip_prefix(provider_id, "events-"@) {
            Some(rest) => rest,
            None => provider_id,
        },
    }
}

/// A text, or its translation under `key` when there is one.
pub open spec fn translated_or(i18n: Map<Seq<char>, String>, key: Seq<char>, text: Seq<char>) -> Seq<char> {
    if i18n.contains_key(key) {
        i18n[key]@
    } else {
        text
    }
}

/// A question with its translations: the title under `{prefix}.qa.{mode}.{id}`, the
/// description under `{prefix}.schema.config.{id}.description`.
pub open spec fn translated_question(q: QuestionTexts, i18n: Map<Seq<char>, String>, prefix: Seq<char>, mode: Seq<char>) -> (
    Seq<char>,
    Seq<char>,
    Option<Seq<char>>,
) {
    let title_key = prefix + ".qa."@ + mode + "."@ + q.id@;
    let desc_key = prefix + ".schema.config."@ + q.id@ + ".description"@;
    (
        q.id@,
        translated_or(i18n, title_key, q.title@),
        if i18n.contains_key(desc_key) {
            Some(i18n[desc_key]@)
        } else {
            crate::text::opt_text(q.description)
        },
    )
}

/// The view of a question's texts.
pub open spec fn question_view(q: QuestionTexts) -> (Seq<char>, Seq<char>, Option<Seq<char>>) {
    (q.id@, q.title@, crate::text::opt_text(q.description))
}

/// Translates a form from the setup fallback with the catalog of a locale: the form title
/// under `{prefix}.qa.{mode}.title` and each question (see `translated_question`).
pub fn apply_i18n_to_form(form: &mut FormTexts, i18n: &crate::textmap::TextMap<String>, provider_id: &str, mode: &str)
    ensures
        final(form).title@ == translated_or(i18n@, i18n_prefix(provider_id@) + ".qa."@ + mode@ + ".title"@, old(form).title@),
        final(form).questions@.len() == old(form).questions@.len(),
        forall|k: int| 0 <= k < old(form).questions@.len() ==> question_view(#[trigger] final(form).questions@[k])
            == translated_question(old(form).questions@[k], i18n@, i18n_prefix(provider_id@), mode@),
{
    proof {
        reveal_strlit("messaging-");
        reveal_strlit("events-");
    }
    let prefix = match crate::text::text_strip_prefix(provider_id, "messaging-") {
        Some(rest) => rest,
        None => match crate::text::text_strip_prefix(provider_id, "events-") {
            Some(rest) => rest,
            None => owned(provider_id),
        },
    };
    let title_key = concat4(prefix.as_str(), ".qa.", mode, ".title");
    match i18n.get(title_key.as_str()) {
        Some(t) => {
            form.title = t.clone();
        },
        None => {},
    }
    let ghost old_questions = form.questions@;
    let n = form.questions.len();
    let mut out: Vec<QuestionTexts> = Vec::new();
    let mut i: usize = 0;
    while i < n
        invariant
            i <= n,
            n == old_questions.len(),
            form.questions@ == old_questions,
            prefix@ == i18n_prefix(provider_id@),
            out@.len() == i,
            forall|k: int| 0 <= k < i ==> question_view(#[trigger] out@[k])
                == translated_question(old_questions[k], i18n@, prefix@, mode@),
        decreases n - i,
    {
        let q = &form.questions[i];
        let tkey = concat5(prefix.as_str(), ".qa.", mode, ".", q.id.as_str());
        let dkey = concat4(prefix.as_str(), ".schema.config.", q.id.as_str(), ".description");
        let title = match i18n.get(tkey.as_str()) {
            Some(t) => t.clone(),
            None => q.title.clone(),
        };
        let description = match i18n.get(dkey.as_str()) {
            Some(d) => Some(d.clone()),
            None => crate::text::copy_opt(&q.description),
        };
        out.push(QuestionTexts { id: q.id.clone(), title, description });
        i += 1;
    }
    form.questions = out;
}

/// The URL a runtime file holds: its trimmed contents when they are an `https://` URL.
pub open spec fn runtime_url(contents: Seq<char>) -> Option<Seq<char>> {
    if starts_with(crate::text::trimmed(contents), "https://"@) {
        Some(crate::text::trimmed(contents))
    } else {
        None
    }
}

/// The most recently modified of the runtime URLs, with its time; the first of equal times.
pub open spec fn latest_url(files: Seq<(u128, Seq<char>)>) -> Option<(u128, Seq<char>)>
    decreases files.len(),
{
    if files.len() == 0 {
        None
    } else {
        let best = latest_url(files.drop_last());
        match runtime_url(files.last().1) {
            None => best,
            Some(u) => match best {
                None => Some((files.last().0, u)),
                Some((t, b)) => if files.last().0 > t {
                    Some((files.last().0, u))
                } else {
                    best
                },
            },
        }
    }
}

/// The public URL of the runtime: of the `public_base_url.txt` files under the runtime state
/// (given as modification time and contents, in listing order), the most recent holding an
/// `https://` URL.
pub fn read_runtime_public_url(files: &Vec<(u128, String)>) -> (r: Option<String>)
    ensures
        crate::text::opt_text(r) == match latest_url(files@.map_values(|f: (u128, String)| (f.0, f.1@))) {
            Some((_, u)) => Some(u),
            None => None,
        },
{
    proof {
        reveal_strlit("https://");
    }
    let ghost fv = files@.map_values(|f: (u128, String)| (f.0, f.1@));
    let mut best: Option<(u128, String)> = None;
    let mut i: usize = 0;
    proof {
        assert(fv.take(0) =~= Seq::<(u128, Seq<char>)>::empty());
    }
    while i < files.len()
        invariant
            i <= files@.len(),
            fv == files@.map_values(|f: (u128, String)| (f.0, f.1@)),
            match best {
                Some((t, u)) => latest_url(fv.take(i as int)) == Some((t, u@)),
                None => latest_url(fv.take(i as int)) is None,
            },
        decreases files@.len() - i,
    {
        proof {
            assert(fv.take(i + 1).drop_last() =~= fv.take(i as int));
            assert(fv.take(i + 1).last() == (files@[i as int].0, files@[i as int].1@));
        }
        let t = crate::text::text_trim(files[i].1.as_str());
        if text_starts_with(t.as_str(), "https://") {
            let modified = files[i].0;
            let replace = match &best {
                None => true,
                Some((bt, _)) => modified > *bt,
            };
            if replace {
                best = Some((modified, t));
            }
        }
        i += 1;
    }
    proof {
        assert(fv.take(i as int) =~= fv);
    }
    match best {
        Some((_, u)) => Some(u),
        None => None,
    }
}


/// The translations of an `i18n-bundle` answer: the string members of its `messages` object,
/// set in turn (a later member with the same key wins).
pub open spec fn bundle_messages(members: Seq<(Seq<char>, JsonV)>) -> Map<Seq<char>, Seq<char>>
    decreases members.len(),
{
    if members.len() == 0 {
        Map::empty()
    } else {
        let m = bundle_messages(members.drop_last());
        match members.last().1 {
            JsonV::Str(s) => m.insert(members.last().0, s),
            _ => m,
        }
    }
}

/// The messages of a bundle answer, as a map of texts.
pub open spec fn messages_of(bundle: JsonV) -> Map<Seq<char>, Seq<char>> {
    match field_of(bundle, "messages"@) {
        Some(JsonV::Object(f)) => bundle_messages(f),
        _ => Map::empty(),
    }
}

/// A map of strings, by the characters of its values.
pub open spec fn text_values(m: Map<Seq<char>, String>) -> Map<Seq<char>, Seq<char>> {
    Map::new(|k: Seq<char>| m.contains_key(k), |k: Seq<char>| m[k]@)
}

/// The translations of an `i18n-bundle` answer (see `messages_of`).
pub fn i18n_messages(bundle: &Json) -> (r: crate::textmap::TextMap<String>)
    ensures
        text_values(r@) == messages_of(jv(*bundle)),
{
    let mut out = crate::textmap::TextMap::new();
    proof {
        assert(text_values(out@) =~= Map::<Seq<char>, Seq<char>>::empty());
    }
    match body_field(bundle, "messages") {
        Some(Json::Object(members)) => {
            let ghost mv = jv_fields(members@);
            proof {
                lemma_jv_fields(members@);
                assert(mv.take(0) =~= Seq::<(Seq<char>, JsonV)>::empty());
            }
            let mut i: usize = 0;
            while i < members.len()
                invariant
                    i <= members@.len(),
                    mv == jv_fields(members@),
                    mv.len() == members@.len(),
                    forall|k: int| 0 <= k < members@.len() ==> #[trigger] mv[k] == (members@[k].0@, jv(members@[k].1)),
                    text_values(out@) == bundle_messages(mv.take(i as int)),
                decreases members@.len() - i,
            {
                proof {
                    assert(mv.take(i + 1).drop_last() =~= mv.take(i as int));
                }
                match &members[i].1 {
                    Json::Str(s) => {
                        let ghost before = out@;
                        out.insert(members[i].0.clone(), s.clone());
                        proof {
                            assert(text_values(out@) =~= text_values(before).insert(members@[i as int].0@, s@));
                        }
                    },
                    _ => {},
                }
                i += 1;
            }
            proof {
                assert(mv.take(i as int) =~= mv);
            }
        },
        _ => {},
    }
    out
}

} // verus!

verus! {

/// How far a submit has come: the step that was done last.
#[derive(Clone, Copy, Debug, PartialEq, Eq, Structural)]
pub enum SubmitStage {
    /// Nothing done yet.
    Start,
    /// The provider's current configuration was read.
    ConfigRead,
    /// The answers were applied through the provider's QA.
    Applied,
    /// Secrets and configuration were persisted.
    Persisted,
    /// The gmap rule of the provider was made public.
    Granted,
    /// The provider's configuration was deleted and its gmap rule forbidden.
    Revoked,
    /// The runtime's public URL was read.
    UrlRead,
    /// The `setup_default` flow ran.
    SetupRan,
    /// The `verify_webhooks` flow ran.
    VerifyRan,
    /// The webhook was registered, or there was nothing to register.
    WebhookDone,
    /// The submit was answered.
    Done,
}

/// What a submit does next.
#[derive(Debug)]
pub enum SubmitAction {
    /// Read the provider's current configuration (errors count as none).
    ReadCurrentConfig,
    /// Apply the answers through the provider's QA, with the configuration read, if any.
    ApplyAnswers,
    /// Persist the secrets and the configuration.
    Persist,
    /// Make the provider's gmap rule public.
    GrantGmap,
    /// Delete the provider's configuration and forbid its gmap rule (errors are ignored).
    RemoveAndRevoke,
    /// Read the runtime's public URL into the configuration.
    ReadRuntimeUrl,
    /// Run this flow of the provider's pack with the setup flow input.
    RunFlow(String),
    /// Register the provider's webhook (see `try_provider_setup_webhook`).
    SetupWebhook,
    /// Answer with the submit report (see `submit_response`).
    Respond,
    /// Answer with this status and message.
    Fail { status: u16, message: String },
}

/// The view of a submit action.
pub enum SubmitActionV {
    ReadCurrentConfig,
    ApplyAnswers,
    Persist,
    GrantGmap,
    RemoveAndRevoke,
    ReadRuntimeUrl,
    RunFlow(Seq<char>),
    SetupWebhook,
    Respond,
    Fail(u16, Seq<char>),
}

pub open spec fn submit_action_view(a: SubmitAction) -> SubmitActionV {
    match a {
        SubmitAction::ReadCurrentConfig => SubmitActionV::ReadCurrentConfig,
        SubmitAction::ApplyAnswers => SubmitActionV::ApplyAnswers,
        SubmitAction::Persist => SubmitActionV::Persist,
        SubmitAction::GrantGmap => SubmitActionV::GrantGmap,
        SubmitAction::RemoveAndRevoke => SubmitActionV::RemoveAndRevoke,
        SubmitAction::ReadRuntimeUrl => SubmitActionV::ReadRuntimeUrl,
        SubmitAction::RunFlow(f) => SubmitActionV::RunFlow(f@),
        SubmitAction::SetupWebhook => SubmitActionV::SetupWebhook,
        SubmitAction::Respond => SubmitActionV::Respond,
        SubmitAction::Fail { status, message } => SubmitActionV::Fail(status, message@),
    }
}

/// The next step of a submit, from the step done last and how it went. Upgrade and remove
/// read the current configuration first; the answers are applied, the results persisted and
/// the provider's gmap rule made public, each failure answered with 500; remove then deletes
/// the configuration and forbids the rule; the public URL is read; except on remove,
/// `setup_default` runs when the pack declares it, then `verify_webhooks` when declared too,
/// then the webhook is registered; last, the report is sent. Nothing of this runs on remove
/// past reading the public URL. The stage returned is the step
/// the action performs.
pub open spec fn submit_next(
    mode: QaMode,
    has_setup: bool,
    has_verify: bool,
    stage: SubmitStage,
    outcome: Result<(), Seq<char>>,
) -> (SubmitStage, SubmitActionV) {
    match stage {
        SubmitStage::Start => if mode == QaMode::Upgrade || mode == QaMode::Remove {
            (SubmitStage::ConfigRead, SubmitActionV::ReadCurrentConfig)
        } else {
            (SubmitStage::Applied, SubmitActionV::ApplyAnswers)
        },
        SubmitStage::ConfigRead => (SubmitStage::Applied, SubmitActionV::ApplyAnswers),
        SubmitStage::Applied => match outcome {
            Err(e) => (SubmitStage::Done, SubmitActionV::Fail(500, "apply-answers failed: "@ + e)),
            Ok(_) => (SubmitStage::Persisted, SubmitActionV::Persist),
        },
        SubmitStage::Persisted => match outcome {
            Err(e) => (SubmitStage::Done, SubmitActionV::Fail(500, "persist failed: "@ + e)),
            Ok(_) => (SubmitStage::Granted, SubmitActionV::GrantGmap),
        },
        SubmitStage::Granted => match outcome {
            Err(e) => (SubmitStage::Done, SubmitActionV::Fail(500, "gmap update failed: "@ + e)),
            Ok(_) => if mode == QaMode::Remove {
                (SubmitStage::Revoked, SubmitActionV::RemoveAndRevoke)
            } else {
                (SubmitStage::UrlRead, SubmitActionV::ReadRuntimeUrl)
            },
        },
        SubmitStage::Revoked => (SubmitStage::UrlRead, SubmitActionV::ReadRuntimeUrl),
        SubmitStage::UrlRead => if mode == QaMode::Remove {
            (SubmitStage::Done, SubmitActionV::Respond)
        } else if has_setup {
            (SubmitStage::SetupRan, SubmitActionV::RunFlow("setup_default"@))
        } else {
            (SubmitStage::WebhookDone, SubmitActionV::SetupWebhook)
        },
        SubmitStage::SetupRan => if mode == QaMode::Remove {
            (SubmitStage::Done, SubmitActionV::Respond)
        } else if has_verify {
            (SubmitStage::VerifyRan, SubmitActionV::RunFlow("verify_webhooks"@))
        } else {
            (SubmitStage::WebhookDone, SubmitActionV::SetupWebhook)
        },
        SubmitStage::VerifyRan => if mode == QaMode::Remove {
            (SubmitStage::Done, SubmitActionV::Respond)
        } else {
            (SubmitStage::WebhookDone, SubmitActionV::SetupWebhook)
        },
        SubmitStage::WebhookDone => (SubmitStage::Done, SubmitActionV::Respond),
        SubmitStage::Done => (SubmitStage::Done, SubmitActionV::Respond),
    }
}

/// The next step of a submit (see `submit_next`): the mode, the pack's entry flows, the step
/// done last and how it went.
pub fn submit_step(mode: QaMode, entry_flows: &Vec<String>, stage: SubmitStage, outcome: Result<(), String>) -> (r: (
    SubmitStage,
    SubmitAction,
))
    ensures
        (r.0, submit_action_view(r.1)) == submit_next(
            mode,
            texts(entry_flows@).contains("setup_default"@),
            texts(entry_flows@).contains("verify_webhooks"@),
            stage,
            match outcome {
                Ok(_) => Ok(()),
                Err(e) => Err(e@),
            },
        ),
{
    match stage {
        SubmitStage::Start => if mode == QaMode::Upgrade || mode == QaMode::Remove {
            (SubmitStage::ConfigRead, SubmitAction::ReadCurrentConfig)
        } else {
            (SubmitStage::Applied, SubmitAction::ApplyAnswers)
        },
        SubmitStage::ConfigRead => (SubmitStage::Applied, SubmitAction::ApplyAnswers),
        SubmitStage::Applied => match outcome {
            Err(e) => (SubmitStage::Done, SubmitAction::Fail { status: 500, message: concat2("apply-answers failed: ", e.as_str()) }),
            Ok(_) => (SubmitStage::Persisted, SubmitAction::Persist),
        },
        SubmitStage::Persisted => match outcome {
            Err(e) => (SubmitStage::Done, SubmitAction::Fail { status: 500, message: concat2("persist failed: ", e.as_str()) }),
            Ok(_) => (SubmitStage::Granted, SubmitAction::GrantGmap),
        },
        SubmitStage::Granted => match outcome {
            Err(e) => (SubmitStage::Done, SubmitAction::Fail { status: 500, message: concat2("gmap update failed: ", e.as_str()) }),
            Ok(_) => if mode == QaMode::Remove {
                (SubmitStage::Revoked, SubmitAction::RemoveAndRevoke)
            } else {
                (SubmitStage::UrlRead, SubmitAction::ReadRuntimeUrl)
            },
        },
        SubmitStage::Revoked => (SubmitStage::UrlRead, SubmitAction::ReadRuntimeUrl),
        SubmitStage::UrlRead => if mode == QaMode::Remove {
            (SubmitStage::Done, SubmitAction::Respond)
        } else if has_flow(entry_flows, "setup_default") {
            (SubmitStage::SetupRan, SubmitAction::RunFlow(owned("setup_default")))
        } else {
            (SubmitStage::WebhookDone, SubmitAction::SetupWebhook)
        },
        SubmitStage::SetupRan => if mode == QaMode::Remove {
            (SubmitStage::Done, SubmitAction::Respond)
        } else if has_flow(entry_flows, "verify_webhooks") {
            (SubmitStage::VerifyRan, SubmitAction::RunFlow(owned("verify_webhooks")))
        } else {
            (SubmitStage::WebhookDone, SubmitAction::SetupWebhook)
        },
        SubmitStage::VerifyRan => if mode == QaMode::Remove {
            (SubmitStage::Done, SubmitAction::Respond)
        } else {
            (SubmitStage::WebhookDone, SubmitAction::SetupWebhook)
        },
        SubmitStage::WebhookDone => (SubmitStage::Done, SubmitAction::Respond),
        SubmitStage::Done => (SubmitStage::Done, SubmitAction::Respond),
    }
}

/// A remove never runs a flow nor registers a webhook; `setup_default` runs only when the pack
/// declares it, right after the public URL was read, and `verify_webhooks` only when declared
/// too, right after `setup_default` ran.
pub proof fn law_remove_runs_no_flow(
    mode: QaMode,
    has_setup: bool,
    has_verify: bool,
    stage: SubmitStage,
    outcome: Result<(), Seq<char>>,
)
    ensures
        mode == QaMode::Remove ==> !(submit_next(mode, has_setup, has_verify, stage, outcome).1 is RunFlow)
            && !(submit_next(mode, has_setup, has_verify, stage, outcome).1 is SetupWebhook),
        submit_next(mode, has_setup, has_verify, stage, outcome).1 matches SubmitActionV::RunFlow(f) ==> (f
            == "setup_default"@ && has_setup && stage == SubmitStage::UrlRead) || (f == "verify_webhooks"@
            && has_verify && stage == SubmitStage::SetupRan),
{
    reveal_strlit("setup_default");
    reveal_strlit("verify_webhooks");
}

} // verus!
