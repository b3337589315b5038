//! The question set of the wizard.
use vstd::prelude::*;
use crate::json::{Json, JsonV, jstr, jv, jv_fields, jv_items, lemma_jv_fields, lemma_jv_items};
use crate::text::{owned, texts};
use crate::wizard::{is_wizard_spec, spec, QaSpec, WizardMode};

verus! {

/// The wizard's question set for a mode (see `is_wizard_spec`).
pub fn build_spec(mode: WizardMode) -> (q: QaSpec)
    ensures
        is_wizard_spec(q, mode),
{
    spec(mode)
}

} // verus!

verus! {

/// A string.
pub open spec fn js(s: Seq<char>) -> JsonV {
    JsonV::Str(s)
}

/// A field of a form: its id, type, title and whether it is required.
pub open spec fn field_spec(id: Seq<char>, kind: Seq<char>, title: Seq<char>, required: bool) -> JsonV {
    JsonV::Object(seq![("id"@, js(id)), ("type"@, js(kind)), ("title"@, js(title)), ("required"@, JsonV::Bool(required))])
}

/// A field whose title is translated under `key`.
pub open spec fn field_i18n_spec(id: Seq<char>, kind: Seq<char>, title: Seq<char>, key: Seq<char>, required: bool) -> JsonV {
    JsonV::Object(seq![
        ("id"@, js(id)),
        ("type"@, js(kind)),
        ("title"@, js(title)),
        ("title_i18n"@, JsonV::Object(seq![("key"@, js(key))])),
        ("required"@, JsonV::Bool(required)),
    ])
}

/// The choices of an enum field.
pub open spec fn choices_spec(choices: Seq<Seq<char>>) -> JsonV {
    JsonV::Array(choices.map_values(|c: Seq<char>| js(c)))
}

/// An enum field.
pub open spec fn enum_spec(id: Seq<char>, title: Seq<char>, required: bool, choices: Seq<Seq<char>>) -> JsonV {
    JsonV::Object(seq![
        ("id"@, js(id)),
        ("type"@, js("enum"@)),
        ("title"@, js(title)),
        ("required"@, JsonV::Bool(required)),
        ("choices"@, choices_spec(choices)),
    ])
}

/// An enum field whose title is translated under `key`.
pub open spec fn enum_i18n_spec(id: Seq<char>, title: Seq<char>, key: Seq<char>, required: bool, choices: Seq<Seq<char>>) -> JsonV {
    JsonV::Object(seq![
        ("id"@, js(id)),
        ("type"@, js("enum"@)),
        ("title"@, js(title)),
        ("title_i18n"@, JsonV::Object(seq![("key"@, js(key))])),
        ("required"@, JsonV::Bool(required)),
        ("choices"@, choices_spec(choices)),
    ])
}

/// A list question with its item fields, its title translated under `key` when there is one.
pub open spec fn list_spec(id: Seq<char>, title: Seq<char>, key: Option<Seq<char>>, required: bool, fields: Seq<JsonV>) -> JsonV {
    let head = seq![("id"@, js(id)), ("type"@, js("list"@)), ("title"@, js(title))];
    let with_key = match key {
        Some(k) => head.push(("title_i18n"@, JsonV::Object(seq![("key"@, js(k))]))),
        None => head,
    };
    JsonV::Object(with_key + seq![
        ("required"@, JsonV::Bool(required)),
        ("list"@, JsonV::Object(seq![("fields"@, JsonV::Array(fields))])),
    ])
}

/// A form.
pub open spec fn form_spec(id: Seq<char>, title: Seq<char>, questions: Seq<JsonV>, validations: Seq<JsonV>) -> JsonV {
    JsonV::Object(seq![
        ("id"@, js(id)),
        ("title"@, js(title)),
        ("version"@, js("1.0.0"@)),
        ("presentation"@, JsonV::Object(seq![("default_locale"@, js("en-GB"@))])),
        ("questions"@, JsonV::Array(questions)),
        ("validations"@, JsonV::Array(validations)),
    ])
}

/// The provider field: free text without known providers, else a choice among them.
pub open spec fn provider_field_spec(ids: Seq<Seq<char>>) -> JsonV {
    if ids.len() == 0 {
        field_spec("provider_id"@, "string"@, "Provider id"@, true)
    } else {
        enum_spec("provider_id"@, "Provider id"@, true, ids)
    }
}

/// The tenant and optional team fields.
pub open spec fn target_fields(tenant_required: bool) -> Seq<JsonV> {
    seq![
        field_spec("tenant_id"@, "string"@, "Tenant id"@, tenant_required),
        field_spec("team_id"@, "string"@, "Team id"@, false),
    ]
}

/// The fields of a per-pack access change.
pub open spec fn access_fields() -> Seq<JsonV> {
    seq![
        field_spec("pack_id"@, "string"@, "Pack id"@, true),
        enum_spec("operation"@, "Operation"@, true, seq!["allow_add"@, "allow_remove"@]),
        field_spec("tenant_id"@, "string"@, "Tenant id"@, true),
        field_spec("team_id"@, "string"@, "Team id"@, false),
    ]
}

/// The fields of a pack removal.
pub open spec fn pack_removal_fields() -> Seq<JsonV> {
    seq![
        field_spec("pack_identifier"@, "string"@, "Pack id/ref"@, true),
        enum_spec("scope"@, "Scope"@, false, seq!["bundle"@, "global"@, "tenant"@, "team"@]),
        field_spec("tenant_id"@, "string"@, "Tenant id"@, false),
        field_spec("team_id"@, "string"@, "Team id"@, false),
    ]
}

/// The execution mode question of a mode.
pub open spec fn execution_mode_spec(key: Seq<char>) -> JsonV {
    enum_i18n_spec("execution_mode"@, "Execution mode"@, key, true, seq!["dry_run"@, "execute"@])
}

/// The rule that a team needs a tenant.
pub open spec fn team_requires_tenant_rule() -> JsonV {
    JsonV::Object(seq![
        ("id"@, js("team_requires_tenant"@)),
        ("message"@, js("team_id requires tenant_id"@)),
        ("fields"@, JsonV::Array(seq![js("tenant_id"@), js("team_id"@)])),
        ("condition"@, JsonV::Object(seq![
            ("op"@, js("and"@)),
            ("expressions"@, JsonV::Array(seq![
                JsonV::Object(seq![("op"@, js("is_set"@)), ("path"@, js("team_id"@))]),
                JsonV::Object(seq![
                    ("op"@, js("not"@)),
                    ("expression"@, JsonV::Object(seq![("op"@, js("is_set"@)), ("path"@, js("tenant_id"@))])),
                ]),
            ])),
        ])),
        ("code"@, js("team_requires_tenant"@)),
    ])
}

/// The validation form of the create mode.
pub open spec fn create_form(ids: Seq<Seq<char>>) -> JsonV {
    form_spec("operator.wizard.create"@, "Create bundle"@, seq![
        field_i18n_spec("bundle_path"@, "string"@, "Bundle output path"@, "wizard.create.bundle_path"@, true),
        field_i18n_spec("bundle_name"@, "string"@, "Bundle name"@, "wizard.create.bundle_name"@, true),
        field_i18n_spec("locale"@, "string"@, "Locale"@, "wizard.create.locale"@, false),
        list_spec("pack_refs"@, "Pack references"@, Some("wizard.create.pack_refs"@), false, seq![
            field_spec("pack_ref"@, "string"@, "Pack ref"@, true),
            field_spec("tenant_id"@, "string"@, "Tenant id"@, false),
            field_spec("team_id"@, "string"@, "Team id"@, false),
            enum_spec("make_default_scope"@, "Default scope"@, false, seq!["none"@, "global"@, "tenant"@, "team"@]),
        ]),
        list_spec("providers"@, "Providers"@, Some("wizard.create.providers"@), false, seq![provider_field_spec(ids)]),
        list_spec("targets"@, "Tenants and teams"@, Some("wizard.create.targets"@), true, target_fields(true)),
        enum_i18n_spec("access_mode"@, "Access mode"@, "wizard.create.access_mode"@, true, seq![
            "all_selected_get_all_packs"@,
            "per_pack_matrix"@,
        ]),
        list_spec("access_change"@, "Per-pack access matrix"@, None, false, access_fields()),
        execution_mode_spec("wizard.create.execution_mode"@),
    ], seq![team_requires_tenant_rule()])
}

/// The validation form of the update mode.
pub open spec fn update_form(ids: Seq<Seq<char>>) -> JsonV {
    form_spec("operator.wizard.update"@, "Update bundle"@, seq![
        field_i18n_spec("bundle_path"@, "string"@, "Bundle path"@, "wizard.update.bundle_path"@, true),
        list_spec("update_ops"@, "Update operations"@, Some("wizard.update.ops"@), false, seq![
            enum_spec("op"@, "Operation"@, true, seq![
                "packs_add"@,
                "packs_remove"@,
                "providers_add"@,
                "providers_remove"@,
                "tenants_add"@,
                "tenants_remove"@,
                "access_change"@,
            ]),
        ]),
        list_spec("pack_refs"@, "Packs to add"@, None, false, seq![field_spec("pack_ref"@, "string"@, "Pack ref"@, true)]),
        list_spec("packs_remove"@, "Packs to remove"@, None, false, pack_removal_fields()),
        list_spec("providers"@, "Providers to enable"@, None, false, seq![provider_field_spec(ids)]),
        list_spec("providers_remove"@, "Providers to disable"@, None, false, seq![provider_field_spec(ids)]),
        list_spec("targets"@, "Tenants and teams to add/update"@, None, false, target_fields(true)),
        list_spec("tenants_remove"@, "Tenants/teams to remove"@, None, false, target_fields(true)),
        list_spec("access_change"@, "Access changes"@, None, false, access_fields()),
        execution_mode_spec("wizard.update.execution_mode"@),
    ], Seq::empty())
}

/// The validation form of the remove mode.
pub open spec fn remove_form() -> JsonV {
    form_spec("operator.wizard.remove"@, "Remove from bundle"@, seq![
        field_i18n_spec("bundle_path"@, "string"@, "Bundle path"@, "wizard.remove.bundle_path"@, true),
        list_spec("remove_targets"@, "Remove targets"@, Some("wizard.remove.targets"@), false, seq![
            enum_spec("target_type"@, "Target type"@, true, seq!["packs"@, "providers"@, "tenants_teams"@]),
            field_spec("target_id"@, "string"@, "Target id"@, true),
        ]),
        list_spec("packs_remove"@, "Packs to remove"@, None, false, pack_removal_fields()),
        list_spec("providers_remove"@, "Providers to remove"@, None, false, seq![
            field_spec("provider_id"@, "string"@, "Provider id"@, true),
        ]),
        list_spec("tenants_remove"@, "Tenants/teams to remove"@, None, false, target_fields(true)),
        execution_mode_spec("wizard.remove.execution_mode"@),
    ], Seq::empty())
}

/// The validation form of a mode.
pub open spec fn validation_form(mode: WizardMode, ids: Seq<Seq<char>>) -> JsonV {
    match mode {
        WizardMode::Create => create_form(ids),
        WizardMode::Update => update_form(ids),
        WizardMode::Remove => remove_form(),
    }
}

} // verus!

verus! {

fn obj(fields: Vec<(String, Json)>) -> (r: Json)
    ensures
        jv(r) == JsonV::Object(jv_fields(fields@)),
{
    Json::Object(fields)
}

fn kv(k: &str, v: Json) -> (r: (String, Json))
    ensures
        r.0@ == k@,
        r.1 == v,
{
    (owned(k), v)
}

fn jsons1(a: Json) -> (r: Vec<Json>)
    ensures
        jv_items(r@) == seq![jv(a)],
{
    let ghost av = jv(a);
    let mut v: Vec<Json> = Vec::new();
    v.push(a);
    proof {
        lemma_jv_items(v@);
        assert(jv_items(v@) =~= seq![av]);
    }
    v
}

fn jsons2(a: Json, b: Json) -> (r: Vec<Json>)
    ensures
        jv_items(r@) == seq![jv(a), jv(b)],
{
    let ghost (av, bv) = (jv(a), jv(b));
    let mut v: Vec<Json> = Vec::new();
    v.push(a);
    v.push(b);
    proof {
        lemma_jv_items(v@);
        assert(jv_items(v@) =~= seq![av, bv]);
    }
    v
}

fn jsons4(a: Json, b: Json, c: Json, d: Json) -> (r: Vec<Json>)
    ensures
        jv_items(r@) == seq![jv(a), jv(b), jv(c), jv(d)],
{
    let ghost (av, bv, cv, dv) = (jv(a), jv(b), jv(c), jv(d));
    let mut v: Vec<Json> = Vec::new();
    v.push(a);
    v.push(b);
    v.push(c);
    v.push(d);
    proof {
        lemma_jv_items(v@);
        assert(jv_items(v@) =~= seq![av, bv, cv, dv]);
    }
    v
}

fn push_json(v: &mut Vec<Json>, x: Json)
    ensures
        jv_items(final(v)@) == jv_items(old(v)@).push(jv(x)),
{
    let ghost before = v@;
    let ghost xv = jv(x);
    v.push(x);
    proof {
        lemma_jv_items(before);
        lemma_jv_items(v@);
        assert(jv_items(v@) =~= jv_items(before).push(xv));
    }
}

fn strings(items: &[&str]) -> (r: Vec<String>)
    ensures
        texts(r@) == items@.map_values(|s: &str| s@),
{
    let mut out: Vec<String> = Vec::new();
    let mut i: usize = 0;
    while i < items.len()
        invariant
            i <= items@.len(),
            texts(out@) == items@.take(i as int).map_values(|s: &str| s@),
        decreases items@.len() - i,
    {
        let ghost before = out@;
        out.push(owned(items[i]));
        proof {
            assert(items@.take(i + 1) =~= items@.take(i as int).push(items@[i as int]));
            assert(texts(out@) =~= texts(before).push(items@[i as int]@));
        }
        i += 1;
    }
    proof {
        assert(items@.take(i as int) =~= items@);
    }
    out
}

fn field_json(id: &str, kind: &str, title: &str, required: bool) -> (r: Json)
    ensures
        jv(r) == field_spec(id@, kind@, title@, required),
{
    let mut f: Vec<(String, Json)> = Vec::new();
    f.push(kv("id", jstr(id)));
    f.push(kv("type", jstr(kind)));
    f.push(kv("title", jstr(title)));
    f.push(kv("required", Json::Bool(required)));
    proof {
        lemma_jv_fields(f@);
        assert(jv_fields(f@) =~= seq![("id"@, js(id@)), ("type"@, js(kind@)), ("title"@, js(title@)), ("required"@, JsonV::Bool(required))]);
    }
    obj(f)
}

fn key_json(key: &str) -> (r: Json)
    ensures
        jv(r) == JsonV::Object(seq![("key"@, js(key@))]),
{
    let mut f: Vec<(String, Json)> = Vec::new();
    f.push(kv("key", jstr(key)));
    proof {
        lemma_jv_fields(f@);
        assert(jv_fields(f@) =~= seq![("key"@, js(key@))]);
    }
    obj(f)
}

fn field_i18n_json(id: &str, kind: &str, title: &str, key: &str, required: bool) -> (r: Json)
    ensures
        jv(r) == field_i18n_spec(id@, kind@, title@, key@, required),
{
    let k = key_json(key);
    let ghost kvv = jv(k);
    let mut f: Vec<(String, Json)> = Vec::new();
    f.push(kv("id", jstr(id)));
    f.push(kv("type", jstr(kind)));
    f.push(kv("title", jstr(title)));
    f.push(kv("title_i18n", k));
    f.push(kv("required", Json::Bool(required)));
    proof {
        lemma_jv_fields(f@);
        assert(jv_fields(f@) =~= seq![
            ("id"@, js(id@)),
            ("type"@, js(kind@)),
            ("title"@, js(title@)),
            ("title_i18n"@, kvv),
            ("required"@, JsonV::Bool(required)),
        ]);
    }
    obj(f)
}

fn choices_json(choices: &Vec<String>) -> (r: Json)
    ensures
        jv(r) == choices_spec(texts(choices@)),
{
    let mut v: Vec<Json> = Vec::new();
    let mut i: usize = 0;
    while i < choices.len()
        invariant
            i <= choices@.len(),
            v@.len() == i,
            forall|k: int| 0 <= k < i ==> jv(#[trigger] v@[k]) == js(choices@[k]@),
        decreases choices@.len() - i,
    {
        v.push(Json::Str(choices[i].clone()));
        i += 1;
    }
    proof {
        lemma_jv_items(v@);
        assert(jv_items(v@) =~= texts(choices@).map_values(|c: Seq<char>| js(c)));
    }
    Json::Array(v)
}

fn enum_json(id: &str, title: &str, required: bool, choices: &Vec<String>) -> (r: Json)
    ensures
        jv(r) == enum_spec(id@, title@, required, texts(choices@)),
{
    let c = choices_json(choices);
    let ghost cv = jv(c);
    let mut f: Vec<(String, Json)> = Vec::new();
    f.push(kv("id", jstr(id)));
    f.push(kv("type", jstr("enum")));
    f.push(kv("title", jstr(title)));
    f.push(kv("required", Json::Bool(required)));
    f.push(kv("choices", c));
    proof {
        lemma_jv_fields(f@);
        assert(jv_fields(f@) =~= seq![
            ("id"@, js(id@)),
            ("type"@, js("enum"@)),
            ("title"@, js(title@)),
            ("required"@, JsonV::Bool(required)),
            ("choices"@, cv),
        ]);
    }
    obj(f)
}

fn enum_i18n_json(id: &str, title: &str, key: &str, required: bool, choices: &Vec<String>) -> (r: Json)
    ensures
        jv(r) == enum_i18n_spec(id@, title@, key@, required, texts(choices@)),
{
    let c = choices_json(choices);
    let k = key_json(key);
    let ghost (cv, kvv) = (jv(c), jv(k));
    let mut f: Vec<(String, Json)> = Vec::new();
    f.push(kv("id", jstr(id)));
    f.push(kv("type", jstr("enum")));
    f.push(kv("title", jstr(title)));
    f.push(kv("title_i18n", k));
    f.push(kv("required", Json::Bool(required)));
    f.push(kv("choices", c));
    proof {
        lemma_jv_fields(f@);
        assert(jv_fields(f@) =~= seq![
            ("id"@, js(id@)),
            ("type"@, js("enum"@)),
            ("title"@, js(title@)),
            ("title_i18n"@, kvv),
            ("required"@, JsonV::Bool(required)),
            ("choices"@, cv),
        ]);
    }
    obj(f)
}

fn list_json(id: &str, title: &str, key: Option<&str>, required: bool, fields: Vec<Json>) -> (r: Json)
    ensures
        jv(r) == list_spec(id@, title@, match key {
            Some(k) => Some(k@),
            None => None,
        }, required, jv_items(fields@)),
{
    let ghost items = jv_items(fields@);
    let mut inner: Vec<(String, Json)> = Vec::new();
    inner.push(kv("fields", Json::Array(fields)));
    proof {
        lemma_jv_fields(inner@);
        assert(jv_fields(inner@) =~= seq![("fields"@, JsonV::Array(items))]);
    }
    let list = obj(inner);
    let ghost lv = jv(list);
    let mut f: Vec<(String, Json)> = Vec::new();
    f.push(kv("id", jstr(id)));
    f.push(kv("type", jstr("list")));
    f.push(kv("title", jstr(title)));
    let ghost kv_opt = match key {
        Some(k) => Some(k@),
        None => None::<Seq<char>>,
    };
    match key {
        Some(k) => f.push(kv("title_i18n", key_json(k))),
        None => {},
    }
    f.push(kv("required", Json::Bool(required)));
    f.push(kv("list", list));
    proof {
        lemma_jv_fields(f@);
        assert(jv_fields(f@) =~= match list_spec(id@, title@, kv_opt, required, items) {
            JsonV::Object(x) => x,
            _ => Seq::empty(),
        });
    }
    obj(f)
}

fn form_json(id: &str, title: &str, questions: Vec<Json>, validations: Vec<Json>) -> (r: Json)
    ensures
        jv(r) == form_spec(id@, title@, jv_items(questions@), jv_items(validations@)),
{
    let ghost (qv, vv) = (jv_items(questions@), jv_items(validations@));
    let mut p: Vec<(String, Json)> = Vec::new();
    p.push(kv("default_locale", jstr("en-GB")));
    proof {
        lemma_jv_fields(p@);
        assert(jv_fields(p@) =~= seq![("default_locale"@, js("en-GB"@))]);
    }
    let presentation = obj(p);
    let ghost pv = jv(presentation);
    let mut f: Vec<(String, Json)> = Vec::new();
    f.push(kv("id", jstr(id)));
    f.push(kv("title", jstr(title)));
    f.push(kv("version", jstr("1.0.0")));
    f.push(kv("presentation", presentation));
    f.push(kv("questions", Json::Array(questions)));
    f.push(kv("validations", Json::Array(validations)));
    proof {
        lemma_jv_fields(f@);
        assert(jv_fields(f@) =~= seq![
            ("id"@, js(id@)),
            ("title"@, js(title@)),
            ("version"@, js("1.0.0"@)),
            ("presentation"@, pv),
            ("questions"@, JsonV::Array(qv)),
            ("validations"@, JsonV::Array(vv)),
        ]);
    }
    obj(f)
}

fn provider_field(ids: &Vec<String>) -> (r: Json)
    ensures
        jv(r) == provider_field_spec(texts(ids@)),
{
    if ids.len() == 0 {
        field_json("provider_id", "string", "Provider id", true)
    } else {
        enum_json("provider_id", "Provider id", true, ids)
    }
}

fn target_fields_json(tenant_required: bool) -> (r: Vec<Json>)
    ensures
        jv_items(r@) == target_fields(tenant_required),
{
    jsons2(field_json("tenant_id", "string", "Tenant id", tenant_required), field_json("team_id", "string", "Team id", false))
}

fn access_fields_json() -> (r: Vec<Json>)
    ensures
        jv_items(r@) == access_fields(),
{
    let ops = strings(&["allow_add", "allow_remove"]);
    proof {
        reveal_strlit("allow_add");
        reveal_strlit("allow_remove");
        assert(texts(ops@) =~= seq!["allow_add"@, "allow_remove"@]);
    }
    jsons4(
        field_json("pack_id", "string", "Pack id", true),
        enum_json("operation", "Operation", true, &ops),
        field_json("tenant_id", "string", "Tenant id", true),
        field_json("team_id", "string", "Team id", false),
    )
}

fn pack_removal_fields_json() -> (r: Vec<Json>)
    ensures
        jv_items(r@) == pack_removal_fields(),
{
    let scopes = strings(&["bundle", "global", "tenant", "team"]);
    proof {
        assert(texts(scopes@) =~= seq!["bundle"@, "global"@, "tenant"@, "team"@]);
    }
    jsons4(
        field_json("pack_identifier", "string", "Pack id/ref", true),
        enum_json("scope", "Scope", false, &scopes),
        field_json("tenant_id", "string", "Tenant id", false),
        field_json("team_id", "string", "Team id", false),
    )
}

fn execution_mode_json(key: &str) -> (r: Json)
    ensures
        jv(r) == execution_mode_spec(key@),
{
    let modes = strings(&["dry_run", "execute"]);
    proof {
        assert(texts(modes@) =~= seq!["dry_run"@, "execute"@]);
    }
    enum_i18n_json("execution_mode", "Execution mode", key, true, &modes)
}

fn op_json(op: &str, path: &str) -> (r: Json)
    ensures
        jv(r) == JsonV::Object(seq![("op"@, js(op@)), ("path"@, js(path@))]),
{
    let mut f: Vec<(String, Json)> = Vec::new();
    f.push(kv("op", jstr(op)));
    f.push(kv("path", jstr(path)));
    proof {
        lemma_jv_fields(f@);
        assert(jv_fields(f@) =~= seq![("op"@, js(op@)), ("path"@, js(path@))]);
    }
    obj(f)
}

fn team_requires_tenant_json() -> (r: Json)
    ensures
        jv(r) == team_requires_tenant_rule(),
{
    let team_set = op_json("is_set", "team_id");
    let tenant_set = op_json("is_set", "tenant_id");
    let ghost (tsv, nsv) = (jv(team_set), jv(tenant_set));
    let mut not_f: Vec<(String, Json)> = Vec::new();
    not_f.push(kv("op", jstr("not")));
    not_f.push(kv("expression", tenant_set));
    proof {
        lemma_jv_fields(not_f@);
        assert(jv_fields(not_f@) =~= seq![("op"@, js("not"@)), ("expression"@, nsv)]);
    }
    let not_tenant = obj(not_f);
    let exprs = jsons2(team_set, not_tenant);
    let ghost ev = jv_items(exprs@);
    let mut cond_f: Vec<(String, Json)> = Vec::new();
    cond_f.push(kv("op", jstr("and")));
    cond_f.push(kv("expressions", Json::Array(exprs)));
    proof {
        lemma_jv_fields(cond_f@);
        assert(jv_fields(cond_f@) =~= seq![("op"@, js("and"@)), ("expressions"@, JsonV::Array(ev))]);
    }
    let condition = obj(cond_f);
    let ghost cv = jv(condition);
    let names = jsons2(jstr("tenant_id"), jstr("team_id"));
    let ghost nv = jv_items(names@);
    let mut f: Vec<(String, Json)> = Vec::new();
    f.push(kv("id", jstr("team_requires_tenant")));
    f.push(kv("message", jstr("team_id requires tenant_id")));
    f.push(kv("fields", Json::Array(names)));
    f.push(kv("condition", condition));
    f.push(kv("code", jstr("team_requires_tenant")));
    proof {
        lemma_jv_fields(f@);
        assert(jv_fields(f@) =~= match team_requires_tenant_rule() {
            JsonV::Object(x) => x,
            _ => Seq::empty(),
        });
    }
    obj(f)
}

/// The validation form of the create mode, offering the given providers.
pub fn create_validation_form(provider_ids: &Vec<String>) -> (r: Json)
    ensures
        jv(r) == create_form(texts(provider_ids@)),
{
    let scopes = strings(&["none", "global", "tenant", "team"]);
    let access = strings(&["all_selected_get_all_packs", "per_pack_matrix"]);
    proof {
        assert(texts(scopes@) =~= seq!["none"@, "global"@, "tenant"@, "team"@]);
        assert(texts(access@) =~= seq!["all_selected_get_all_packs"@, "per_pack_matrix"@]);
    }
    let mut q: Vec<Json> = Vec::new();
    push_json(&mut q, field_i18n_json("bundle_path", "string", "Bundle output path", "wizard.create.bundle_path", true));
    push_json(&mut q, field_i18n_json("bundle_name", "string", "Bundle name", "wizard.create.bundle_name", true));
    push_json(&mut q, field_i18n_json("locale", "string", "Locale", "wizard.create.locale", false));
    push_json(&mut q, list_json("pack_refs", "Pack references", Some("wizard.create.pack_refs"), false, jsons4(
        field_json("pack_ref", "string", "Pack ref", true),
        field_json("tenant_id", "string", "Tenant id", false),
        field_json("team_id", "string", "Team id", false),
        enum_json("make_default_scope", "Default scope", false, &scopes),
    )));
    push_json(&mut q, list_json("providers", "Providers", Some("wizard.create.providers"), false, jsons1(provider_field(provider_ids))));
    push_json(&mut q, list_json("targets", "Tenants and teams", Some("wizard.create.targets"), true, target_fields_json(true)));
    push_json(&mut q, enum_i18n_json("access_mode", "Access mode", "wizard.create.access_mode", true, &access));
    push_json(&mut q, list_json("access_change", "Per-pack access matrix", None, false, access_fields_json()));
    push_json(&mut q, execution_mode_json("wizard.create.execution_mode"));
    proof {
        assert(jv_items(Seq::<Json>::empty()) =~= Seq::<JsonV>::empty());
        assert(jv_items(q@) =~= match create_form(texts(provider_ids@)) {
            JsonV::Object(f) => match f[4].1 {
                JsonV::Array(x) => x,
                _ => Seq::empty(),
            },
            _ => Seq::empty(),
        });
    }
    form_json("operator.wizard.create", "Create bundle", q, jsons1(team_requires_tenant_json()))
}

/// The validation form of the update mode, offering the given providers.
pub fn update_validation_form(provider_ids: &Vec<String>) -> (r: Json)
    ensures
        jv(r) == update_form(texts(provider_ids@)),
{
    let ops = strings(&[
        "packs_add",
        "packs_remove",
        "providers_add",
        "providers_remove",
        "tenants_add",
        "tenants_remove",
        "access_change",
    ]);
    proof {
        assert(texts(ops@) =~= seq![
            "packs_add"@,
            "packs_remove"@,
            "providers_add"@,
            "providers_remove"@,
            "tenants_add"@,
            "tenants_remove"@,
            "access_change"@,
        ]);
    }
    let mut q: Vec<Json> = Vec::new();
    push_json(&mut q, field_i18n_json("bundle_path", "string", "Bundle path", "wizard.update.bundle_path", true));
    push_json(&mut q, list_json("update_ops", "Update operations", Some("wizard.update.ops"), false, jsons1(
        enum_json("op", "Operation", true, &ops),
    )));
    push_json(&mut q, list_json("pack_refs", "Packs to add", None, false, jsons1(field_json("pack_ref", "string", "Pack ref", true))));
    push_json(&mut q, list_json("packs_remove", "Packs to remove", None, false, pack_removal_fields_json()));
    push_json(&mut q, list_json("providers", "Providers to enable", None, false, jsons1(provider_field(provider_ids))));
    push_json(&mut q, list_json("providers_remove", "Providers to disable", None, false, jsons1(provider_field(provider_ids))));
    push_json(&mut q, list_json("targets", "Tenants and teams to add/update", None, false, target_fields_json(true)));
    push_json(&mut q, list_json("tenants_remove", "Tenants/teams to remove", None, false, target_fields_json(true)));
    push_json(&mut q, list_json("access_change", "Access changes", None, false, access_fields_json()));
    push_json(&mut q, execution_mode_json("wizard.update.execution_mode"));
    proof {
        assert(jv_items(Seq::<Json>::empty()) =~= Seq::<JsonV>::empty());
        assert(jv_items(q@) =~= match update_form(texts(provider_ids@)) {
            JsonV::Object(f) => match f[4].1 {
                JsonV::Array(x) => x,
                _ => Seq::empty(),
            },
            _ => Seq::empty(),
        });
    }
    let none: Vec<Json> = Vec::new();
    proof {
        assert(jv_items(none@) =~= Seq::<JsonV>::empty());
    }
    form_json("operator.wizard.update", "Update bundle", q, none)
}

/// The validation form of the remove mode.
pub fn remove_validation_form() -> (r: Json)
    ensures
        jv(r) == remove_form(),
{
    let kinds = strings(&["packs", "providers", "tenants_teams"]);
    proof {
        assert(texts(kinds@) =~= seq!["packs"@, "providers"@, "tenants_teams"@]);
    }
    let mut q: Vec<Json> = Vec::new();
    push_json(&mut q, field_i18n_json("bundle_path", "string", "Bundle path", "wizard.remove.bundle_path", true));
    push_json(&mut q, list_json("remove_targets", "Remove targets", Some("wizard.remove.targets"), false, jsons2(
        enum_json("target_type", "Target type", true, &kinds),
        field_json("target_id", "string", "Target id", true),
    )));
    push_json(&mut q, list_json("packs_remove", "Packs to remove", None, false, pack_removal_fields_json()));
    push_json(&mut q, list_json("providers_remove", "Providers to remove", None, false, jsons1(
        field_json("provider_id", "string", "Provider id", true),
    )));
    push_json(&mut q, list_json("tenants_remove", "Tenants/teams to remove", None, false, target_fields_json(true)));
    push_json(&mut q, execution_mode_json("wizard.remove.execution_mode"));
    proof {
        assert(jv_items(Seq::<Json>::empty()) =~= Seq::<JsonV>::empty());
        assert(jv_items(q@) =~= match remove_form() {
            JsonV::Object(f) => match f[4].1 {
                JsonV::Array(x) => x,
                _ => Seq::empty(),
            },
            _ => Seq::empty(),
        });
    }
    let none: Vec<Json> = Vec::new();
    proof {
        assert(jv_items(none@) =~= Seq::<JsonV>::empty());
    }
    form_json("operator.wizard.remove", "Remove from bundle", q, none)
}

/// The validation form of a mode, offering the given providers.
pub fn build_validation_form_with_providers(mode: WizardMode, provider_ids: &Vec<String>) -> (r: Json)
    ensures
        jv(r) == validation_form(mode, texts(provider_ids@)),
{
    match mode {
        WizardMode::Create => create_validation_form(provider_ids),
        WizardMode::Update => update_validation_form(provider_ids),
        WizardMode::Remove => remove_validation_form(),
    }
}

/// The validation form of a mode, without known providers.
pub fn build_validation_form(mode: WizardMode) -> (r: Json)
    ensures
        jv(r) == validation_form(mode, Seq::empty()),
{
    let none: Vec<String> = Vec::new();
    proof {
        assert(texts(none@) =~= Seq::<Seq<char>>::empty());
    }
    build_validation_form_with_providers(mode, &none)
}

} // verus!
