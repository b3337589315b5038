//! The bundle wizard: questions, deterministic plans and the checks made before a plan runs.
use vstd::prelude::*;
use vstd::relations::*;
use vstd::multiset::Multiset;

use crate::order::{Ranked, views, rank_of, lex_lt, text_order, or_equal, chars_precede, lemma_text_order_strict_total, lemma_lex_strict_total, insert_ranked_unique, ranked_set, sort_ranked, lemma_sorted_same_elements_equal, ordered_texts, lemma_ordered_texts_is};
use crate::text::{chars_of, owned, text_eq, text_trim, trimmed, decimal, decimal_string, opt_text, texts, copy_texts, copy_opt, concat2, concat3};

verus! {

/// What the wizard is asked to do with a bundle.
#[derive(Clone, Copy, Debug, PartialEq, Eq, Structural)]
pub enum WizardMode {
    Create,
    Update,
    Remove,
}

/// The name of a wizard mode.
pub open spec fn mode_name(mode: WizardMode) -> Seq<char> {
    match mode {
        WizardMode::Create => "create"@,
        WizardMode::Update => "update"@,
        WizardMode::Remove => "remove"@,
    }
}

impl WizardMode {
    /// The name of the mode.
    pub fn as_str(self) -> (r: &'static str)
        ensures
            r@ == mode_name(self),
    {
        match self {
            WizardMode::Create => "create",
            WizardMode::Update => "update",
            WizardMode::Remove => "remove",
        }
    }
}

/// One question of the wizard's question set.
#[derive(Clone, Debug)]
pub struct QaQuestion {
    pub id: String,
    pub title: String,
    pub required: bool,
}

/// The wizard's question set for a mode.
#[derive(Clone, Debug)]
pub struct QaSpec {
    pub mode: String,
    pub questions: Vec<QaQuestion>,
}

/// The questions every mode asks, as (id, title, required).
pub open spec fn wizard_questions() -> Seq<(Seq<char>, Seq<char>, bool)> {
    seq![
        ("operator.bundle.path"@, "Bundle output path"@, true),
        ("operator.packs.refs"@, "Pack refs (catalog + custom)"@, false),
        ("operator.tenants"@, "Tenants and optional teams"@, true),
        ("operator.allow.paths"@, "Allow rules as PACK[/FLOW[/NODE]]"@, false),
    ]
}

/// Whether a question set is the wizard's set for `mode`.
pub open spec fn is_wizard_spec(q: QaSpec, mode: WizardMode) -> bool {
    &&& q.mode@ == mode_name(mode)
    &&& q.questions@.len() == wizard_questions().len()
    &&& forall|i: int| 0 <= i < q.questions@.len() ==> {
        &&& (#[trigger] q.questions@[i]).id@ == wizard_questions()[i].0
        &&& q.questions@[i].title@ == wizard_questions()[i].1
        &&& q.questions@[i].required == wizard_questions()[i].2
    }
}

fn question(id: &str, title: &str, required: bool) -> (q: QaQuestion)
    ensures
        q.id@ == id@,
        q.title@ == title@,
        q.required == required,
{
    QaQuestion { id: owned(id), title: owned(title), required }
}

/// The wizard's question set for a mode.
pub fn spec(mode: WizardMode) -> (q: QaSpec)
    ensures
        is_wizard_spec(q, mode),
{
    let mut questions: Vec<QaQuestion> = Vec::new();
    questions.push(question("operator.bundle.path", "Bundle output path", true));
    questions.push(question("operator.packs.refs", "Pack refs (catalog + custom)", false));
    questions.push(question("operator.tenants", "Tenants and optional teams", true));
    questions.push(question("operator.allow.paths", "Allow rules as PACK[/FLOW[/NODE]]", false));
    let q = QaSpec { mode: owned(mode.as_str()), questions };
    assert forall|i: int| 0 <= i < q.questions@.len() implies {
        &&& (#[trigger] q.questions@[i]).id@ == wizard_questions()[i].0
        &&& q.questions@[i].title@ == wizard_questions()[i].1
        &&& q.questions@[i].required == wizard_questions()[i].2
    } by {
        if i == 0 {} else if i == 1 {} else if i == 2 {} else {}
    }
    q
}

/// A tenant, an optional team and the paths allowed for them.
#[derive(Clone, Debug)]
pub struct TenantSelection {
    pub tenant: String,
    pub team: Option<String>,
    pub allow_paths: Vec<String>,
}

/// The contents of a tenant selection.
pub struct TenantView {
    pub tenant: Seq<char>,
    pub team: Option<Seq<char>>,
    pub allow_paths: Seq<Seq<char>>,
}

impl View for TenantSelection {
    type V = TenantView;

    open spec fn view(&self) -> TenantView {
        TenantView { tenant: self.tenant@, team: opt_text(self.team), allow_paths: texts(self.allow_paths@) }
    }
}

/// Order of optional texts: absent first, then by text.
pub open spec fn team_lt(a: Option<Seq<char>>, b: Option<Seq<char>>) -> bool {
    match (a, b) {
        (None, Some(_)) => true,
        (Some(x), Some(y)) => text_order()(x, y),
        _ => false,
    }
}

/// Order of lists of texts: lexicographic.
pub open spec fn texts_lt(a: Seq<Seq<char>>, b: Seq<Seq<char>>) -> bool {
    lex_lt(a, b, text_order())
}

/// Order of tenant selections: by tenant, then team, then allow paths.
pub open spec fn tenant_lt(a: TenantView, b: TenantView) -> bool {
    ||| text_order()(a.tenant, b.tenant)
    ||| (a.tenant == b.tenant && team_lt(a.team, b.team))
    ||| (a.tenant == b.tenant && a.team == b.team && texts_lt(a.allow_paths, b.allow_paths))
}

pub proof fn lemma_tenant_order_strict_total()
    ensures
        strict_total_ordering(|a: TenantView, b: TenantView| tenant_lt(a, b)),
{
    lemma_text_order_strict_total();
    lemma_lex_strict_total(text_order());
    let t = text_order();
    let l = |a: Seq<Seq<char>>, b: Seq<Seq<char>>| lex_lt(a, b, text_order());
    assert(forall|a: Seq<Seq<char>>, b: Seq<Seq<char>>| texts_lt(a, b) == l(a, b));
    let r = |a: TenantView, b: TenantView| tenant_lt(a, b);
    assert forall|x: TenantView| !#[trigger] r(x, x) by {
        assert(!t(x.tenant, x.tenant));
        assert(!l(x.allow_paths, x.allow_paths));
        match x.team {
            Some(v) => { assert(!t(v, v)); },
            None => {},
        }
    }
    assert forall|x: TenantView, y: TenantView, z: TenantView| #[trigger] r(x, y) && #[trigger] r(y, z) implies r(x, z) by {
        if t(x.tenant, y.tenant) && t(y.tenant, z.tenant) {
        } else if t(x.tenant, y.tenant) || t(y.tenant, z.tenant) {
        } else {
            assert(x.tenant == y.tenant && y.tenant == z.tenant);
            match (x.team, y.team, z.team) {
                (Some(a), Some(b), Some(c)) => {
                    if t(a, b) && t(b, c) { assert(t(a, c)); }
                    if a == b && b == c && l(x.allow_paths, y.allow_paths) && l(y.allow_paths, z.allow_paths) {
                        assert(l(x.allow_paths, z.allow_paths));
                    }
                },
                (None, None, None) => {
                    assert(l(x.allow_paths, y.allow_paths) && l(y.allow_paths, z.allow_paths));
                    assert(l(x.allow_paths, z.allow_paths));
                },
                _ => {},
            }
        }
    }
    assert forall|x: TenantView, y: TenantView| #[trigger] r(x, y) && #[trigger] r(y, x) implies x == y by {
        if t(x.tenant, y.tenant) {
            assert(!t(y.tenant, x.tenant) || x.tenant == y.tenant);
            assert(false);
        }
        if t(y.tenant, x.tenant) {
            assert(false);
        }
        match (x.team, y.team) {
            (Some(a), Some(b)) => {
                if t(a, b) && t(b, a) { assert(a == b); }
            },
            _ => {},
        }
        if l(x.allow_paths, y.allow_paths) && l(y.allow_paths, x.allow_paths) {
            assert(x.allow_paths == y.allow_paths);
        }
    }
    assert forall|x: TenantView, y: TenantView| x != y implies #[trigger] r(x, y) || #[trigger] r(y, x) by {
        if x.tenant != y.tenant {
            assert(t(x.tenant, y.tenant) || t(y.tenant, x.tenant));
        } else if x.team != y.team {
            match (x.team, y.team) {
                (Some(a), Some(b)) => { assert(t(a, b) || t(b, a)); },
                _ => {},
            }
        } else {
            assert(x.allow_paths != y.allow_paths);
            assert(l(x.allow_paths, y.allow_paths) || l(y.allow_paths, x.allow_paths));
        }
    }
}

/// Whether `a` comes before `b` in the order of `Vec<String>` values.
pub fn texts_precede(a: &Vec<String>, b: &Vec<String>) -> (r: bool)
    ensures
        r == texts_lt(texts(a@), texts(b@)),
{
    let ghost x = texts(a@);
    let ghost y = texts(b@);
    let mut i: usize = 0;
    assert(x.skip(0) =~= x && y.skip(0) =~= y);
    while i < a.len() && i < b.len()
        invariant
            i <= a.len(),
            i <= b.len(),
            x == texts(a@),
            y == texts(b@),
            texts_lt(x, y) == lex_lt(x.skip(i as int), y.skip(i as int), text_order()),
        decreases a.len() - i,
    {
        if !text_eq(a[i].as_str(), b[i].as_str()) {
            let p = chars_of(a[i].as_str());
            let q = chars_of(b[i].as_str());
            assert(x.skip(i as int)[0] == a@[i as int]@);
            assert(y.skip(i as int)[0] == b@[i as int]@);
            return chars_precede(&p, &q);
        }
        proof {
            assert(x.skip(i as int).drop_first() =~= x.skip(i + 1));
            assert(y.skip(i as int).drop_first() =~= y.skip(i + 1));
        }
        i += 1;
    }
    a.len() < b.len()
}

/// Whether `a` comes before `b` in the order of `Option<String>` values.
pub fn team_precedes(a: &Option<String>, b: &Option<String>) -> (r: bool)
    ensures
        r == team_lt(opt_text(*a), opt_text(*b)),
{
    match (a, b) {
        (None, Some(_)) => true,
        (Some(x), Some(y)) => {
            let p = chars_of(x.as_str());
            let q = chars_of(y.as_str());
            chars_precede(&p, &q)
        },
        _ => false,
    }
}

/// Equality of optional strings by their characters.
pub fn team_eq(a: &Option<String>, b: &Option<String>) -> (r: bool)
    ensures
        r == (opt_text(*a) == opt_text(*b)),
{
    match (a, b) {
        (None, None) => true,
        (Some(x), Some(y)) => text_eq(x.as_str(), y.as_str()),
        _ => false,
    }
}

impl Ranked for TenantSelection {
    open spec fn rank_lt(a: TenantView, b: TenantView) -> bool {
        tenant_lt(a, b)
    }

    proof fn lemma_rank_total() {
        lemma_tenant_order_strict_total();
        assert((|a: TenantView, b: TenantView| Self::rank_lt(a, b)) =~= (|a: TenantView, b: TenantView| tenant_lt(a, b)));
    }

    fn ranks_before(&self, other: &Self) -> (r: bool) {
        let p = chars_of(self.tenant.as_str());
        let q = chars_of(other.tenant.as_str());
        if chars_precede(&p, &q) {
            return true;
        }
        if !text_eq(self.tenant.as_str(), other.tenant.as_str()) {
            return false;
        }
        if team_precedes(&self.team, &other.team) {
            return true;
        }
        if !team_eq(&self.team, &other.team) {
            return false;
        }
        texts_precede(&self.allow_paths, &other.allow_paths)
    }
}

} // verus!

verus! {

/// The kinds of step a wizard plan is made of.
#[derive(Clone, Copy, Debug, PartialEq, Eq, Structural)]
pub enum WizardStepKind {
    ResolvePacks,
    CreateBundle,
    AddPacksToBundle,
    ApplyPackSetup,
    WriteGmapRules,
    RunResolver,
    CopyResolvedManifest,
    ValidateBundle,
}

/// One step of a plan, with its key/value details in key order.
#[derive(Clone, Debug)]
pub struct WizardPlanStep {
    pub kind: WizardStepKind,
    pub description: String,
    pub details: Vec<(String, String)>,
}

/// The contents of a plan step.
pub struct StepView {
    pub kind: WizardStepKind,
    pub description: Seq<char>,
    pub details: Seq<(Seq<char>, Seq<char>)>,
}

impl View for WizardPlanStep {
    type V = StepView;

    open spec fn view(&self) -> StepView {
        StepView {
            kind: self.kind,
            description: self.description@,
            details: self.details@.map_values(|d: (String, String)| (d.0@, d.1@)),
        }
    }
}

/// The packs and tenant selections a plan works on.
#[derive(Clone, Debug)]
pub struct WizardPlanMetadata {
    pub pack_refs: Vec<String>,
    pub tenants: Vec<TenantSelection>,
}

/// A wizard plan: the steps that executing it will take, in order.
#[derive(Clone, Debug)]
pub struct WizardPlan {
    pub mode: String,
    pub dry_run: bool,
    pub bundle: String,
    pub steps: Vec<WizardPlanStep>,
    pub metadata: WizardPlanMetadata,
}

/// The contents of a plan.
pub struct PlanView {
    pub mode: Seq<char>,
    pub dry_run: bool,
    pub bundle: Seq<char>,
    pub steps: Seq<StepView>,
    pub pack_refs: Seq<Seq<char>>,
    pub tenants: Seq<TenantView>,
}

impl View for WizardPlan {
    type V = PlanView;

    open spec fn view(&self) -> PlanView {
        PlanView {
            mode: self.mode@,
            dry_run: self.dry_run,
            bundle: self.bundle@,
            steps: views(self.steps@),
            pack_refs: texts(self.metadata.pack_refs@),
            tenants: views(self.metadata.tenants@),
        }
    }
}

/// What the wizard is asked for: a bundle, the packs to add and the tenant selections.
#[derive(Clone, Debug)]
pub struct WizardCreateRequest {
    pub bundle: String,
    pub pack_refs: Vec<String>,
    pub tenants: Vec<TenantSelection>,
}

/// Why the wizard refused a request or a plan.
#[derive(Clone, Debug, PartialEq, Eq)]
pub enum WizardError {
    /// The request names no tenant.
    NoTenantSelection,
    /// The plan was made for another mode (the plan's mode).
    UnsupportedMode(String),
    /// A new bundle would overwrite an existing path.
    BundleExists(String),
    /// The bundle to change does not exist.
    BundleMissing(String),
    /// The bundle has no `greentic.demo.yaml`.
    BundleNotDemo(String),
    /// The resolver wrote no manifest at this path.
    ManifestMissing(String),
}

/// The message a wizard error is reported with.
pub open spec fn wizard_error_message(e: WizardError) -> Seq<char> {
    match e {
        WizardError::NoTenantSelection => "at least one tenant selection is required"@,
        WizardError::UnsupportedMode(m) => "unsupported wizard mode: "@ + m@,
        WizardError::BundleExists(b) => "bundle path "@ + b@ + " already exists"@,
        WizardError::BundleMissing(b) => "bundle path "@ + b@ + " does not exist"@,
        WizardError::BundleNotDemo(b) => "bundle "@ + b@ + " missing greentic.demo.yaml"@,
        WizardError::ManifestMissing(p) => "resolved manifest not found at "@ + p@,
    }
}

impl WizardError {
    /// The message shown for the error.
    pub fn message(&self) -> (r: String)
        ensures
            r@ == wizard_error_message(*self),
    {
        match self {
            WizardError::NoTenantSelection => owned("at least one tenant selection is required"),
            WizardError::UnsupportedMode(m) => concat2("unsupported wizard mode: ", m.as_str()),
            WizardError::BundleExists(b) => concat3("bundle path ", b.as_str(), " already exists"),
            WizardError::BundleMissing(b) => concat3("bundle path ", b.as_str(), " does not exist"),
            WizardError::BundleNotDemo(b) => concat3("bundle ", b.as_str(), " missing greentic.demo.yaml"),
            WizardError::ManifestMissing(p) => concat2("resolved manifest not found at ", p.as_str()),
        }
    }
}

/// The contents of a request.
pub struct RequestView {
    pub bundle: Seq<char>,
    pub pack_refs: Seq<Seq<char>>,
    pub tenants: Seq<TenantView>,
}

impl View for WizardCreateRequest {
    type V = RequestView;

    open spec fn view(&self) -> RequestView {
        RequestView {
            bundle: self.bundle@,
            pack_refs: texts(self.pack_refs@),
            tenants: views(self.tenants@),
        }
    }
}

/// A plan step with one detail.
pub open spec fn step_view(kind: WizardStepKind, description: Seq<char>, key: Seq<char>, value: Seq<char>) -> StepView {
    StepView { kind, description, details: seq![(key, value)] }
}

pub open spec fn resolve_packs_step(n: nat) -> StepView {
    step_view(WizardStepKind::ResolvePacks, "Resolve selected pack refs via distributor client"@, "count"@, decimal(n))
}

pub open spec fn create_bundle_step(bundle: Seq<char>) -> StepView {
    step_view(WizardStepKind::CreateBundle, "Create demo bundle scaffold using existing conventions"@, "bundle"@, bundle)
}

pub open spec fn add_packs_step(n: nat) -> StepView {
    step_view(WizardStepKind::AddPacksToBundle, "Copy fetched packs into bundle/packs"@, "count"@, decimal(n))
}

pub open spec fn apply_setup_step() -> StepView {
    step_view(WizardStepKind::ApplyPackSetup, "Apply pack-declared setup outputs through internal setup hooks"@, "status"@, "planned"@)
}

pub open spec fn write_allow_rules_step(n: nat) -> StepView {
    step_view(WizardStepKind::WriteGmapRules, "Write tenant/team allow rules to gmap"@, "targets"@, decimal(n))
}

pub open spec fn run_resolver_allow_step() -> StepView {
    step_view(WizardStepKind::RunResolver, "Run resolver pipeline (same as demo allow)"@, "resolver"@, "project::sync_project"@)
}

pub open spec fn copy_manifests_step(n: nat) -> StepView {
    step_view(WizardStepKind::CopyResolvedManifest, "Copy state/resolved manifests into resolved/ for demo start"@, "targets"@, decimal(n))
}

pub open spec fn validate_loadable_step() -> StepView {
    step_view(WizardStepKind::ValidateBundle, "Validate bundle is loadable by internal demo pipeline"@, "check"@, "resolved manifests present"@)
}

pub open spec fn validate_before_update_step() -> StepView {
    step_view(WizardStepKind::ValidateBundle, "Validate target bundle exists before update"@, "mode"@, "update"@)
}

pub open spec fn validate_before_remove_step() -> StepView {
    step_view(WizardStepKind::ValidateBundle, "Validate target bundle exists before remove"@, "mode"@, "remove"@)
}

pub open spec fn write_forbid_rules_step(n: nat) -> StepView {
    step_view(WizardStepKind::WriteGmapRules, "Write forbidden tenant/team rules to gmap"@, "targets"@, decimal(n))
}

pub open spec fn run_resolver_forbid_step() -> StepView {
    step_view(WizardStepKind::RunResolver, "Run resolver pipeline (same as demo forbid)"@, "resolver"@, "project::sync_project"@)
}

/// The steps shared by the end of create and update plans.
pub open spec fn allow_tail_steps(n_tenants: nat) -> Seq<StepView> {
    seq![
        write_allow_rules_step(n_tenants),
        run_resolver_allow_step(),
        copy_manifests_step(n_tenants),
        validate_loadable_step(),
    ]
}

/// The pack steps after the bundle step: only when there are packs to add.
pub open spec fn pack_steps(n_refs: nat) -> Seq<StepView> {
    if n_refs > 0 {
        seq![add_packs_step(n_refs), apply_setup_step()]
    } else {
        Seq::<StepView>::empty()
    }
}

/// Steps of a create plan.
pub open spec fn create_steps(n_refs: nat, bundle: Seq<char>, n_tenants: nat) -> Seq<StepView> {
    (if n_refs > 0 { seq![resolve_packs_step(n_refs)] } else { Seq::<StepView>::empty() })
        + seq![create_bundle_step(bundle)] + pack_steps(n_refs) + allow_tail_steps(n_tenants)
}

/// Steps of an update plan: the create steps without the bundle scaffold, after a check that
/// the bundle exists.
pub open spec fn update_steps(n_refs: nat, n_tenants: nat) -> Seq<StepView> {
    seq![validate_before_update_step()]
        + (if n_refs > 0 { seq![resolve_packs_step(n_refs)] } else { Seq::<StepView>::empty() })
        + pack_steps(n_refs) + allow_tail_steps(n_tenants)
}

/// Steps of a remove plan.
pub open spec fn remove_steps(n_tenants: nat) -> Seq<StepView> {
    seq![
        validate_before_remove_step(),
        write_forbid_rules_step(n_tenants),
        run_resolver_forbid_step(),
        copy_manifests_step(n_tenants),
        validate_loadable_step(),
    ]
}

/// The distinct non-blank pack references of a request, trimmed.
pub open spec fn requested_refs(refs: Seq<Seq<char>>) -> Set<Seq<char>> {
    Set::new(|x: Seq<char>| x.len() > 0 && exists|i: int| 0 <= i < refs.len() && trimmed(#[trigger] refs[i]) == x)
}

/// A tenant selection with its allow paths sorted and without repetitions.
pub open spec fn normalized_tenant(t: TenantView) -> TenantView {
    TenantView { tenant: t.tenant, team: t.team, allow_paths: ordered_texts(t.allow_paths.to_set()) }
}

/// The order in which plans list tenant selections.
pub open spec fn tenant_order() -> spec_fn(TenantView, TenantView) -> bool {
    |a: TenantView, b: TenantView| tenant_lt(a, b)
}

/// The tenant selections of a plan: normalized, then sorted.
pub open spec fn planned_tenants(ts: Seq<TenantView>) -> Seq<TenantView> {
    ts.map_values(|t: TenantView| normalized_tenant(t)).sort_by(or_equal(tenant_order()))
}

/// The plan made for a request in create mode.
pub open spec fn create_plan(req: RequestView, dry_run: bool) -> PlanView {
    let refs = ordered_texts(requested_refs(req.pack_refs));
    let tenants = planned_tenants(req.tenants);
    PlanView {
        mode: "create"@,
        dry_run,
        bundle: req.bundle,
        steps: create_steps(refs.len(), req.bundle, tenants.len()),
        pack_refs: refs,
        tenants,
    }
}

/// The plan made for a request in update mode.
pub open spec fn update_plan(req: RequestView, dry_run: bool) -> PlanView {
    let refs = ordered_texts(requested_refs(req.pack_refs));
    let tenants = planned_tenants(req.tenants);
    PlanView {
        mode: "update"@,
        dry_run,
        bundle: req.bundle,
        steps: update_steps(refs.len(), tenants.len()),
        pack_refs: refs,
        tenants,
    }
}

/// The plan made for a request in remove mode.
pub open spec fn remove_plan(req: RequestView, dry_run: bool) -> PlanView {
    let tenants = planned_tenants(req.tenants);
    PlanView {
        mode: "remove"@,
        dry_run,
        bundle: req.bundle,
        steps: remove_steps(tenants.len()),
        pack_refs: Seq::<Seq<char>>::empty(),
        tenants,
    }
}

/// The plan made for a request in a mode.
pub open spec fn planned(mode: WizardMode, req: RequestView, dry_run: bool) -> PlanView {
    match mode {
        WizardMode::Create => create_plan(req, dry_run),
        WizardMode::Update => update_plan(req, dry_run),
        WizardMode::Remove => remove_plan(req, dry_run),
    }
}

} // verus!

verus! {

fn step(kind: WizardStepKind, description: &str, key: &str, value: String) -> (s: WizardPlanStep)
    ensures
        s@ == step_view(kind, description@, key@, value@),
{
    let mut details: Vec<(String, String)> = Vec::new();
    details.push((owned(key), value));
    let s = WizardPlanStep { kind, description: owned(description), details };
    assert(s@.details =~= seq![(key@, value@)]);
    s
}

fn push_allow_tail_steps(steps: &mut Vec<WizardPlanStep>, n_tenants: usize)
    ensures
        views(final(steps)@) == views(old(steps)@) + allow_tail_steps(n_tenants as nat),
{
    let ghost start = views(steps@);
    steps.push(step(WizardStepKind::WriteGmapRules, "Write tenant/team allow rules to gmap", "targets", decimal_string(n_tenants)));
    steps.push(step(WizardStepKind::RunResolver, "Run resolver pipeline (same as demo allow)", "resolver", owned("project::sync_project")));
    steps.push(step(WizardStepKind::CopyResolvedManifest, "Copy state/resolved manifests into resolved/ for demo start", "targets", decimal_string(n_tenants)));
    steps.push(step(WizardStepKind::ValidateBundle, "Validate bundle is loadable by internal demo pipeline", "check", owned("resolved manifests present")));
    assert(views(steps@) =~= start + allow_tail_steps(n_tenants as nat));
}

fn push_pack_steps(steps: &mut Vec<WizardPlanStep>, n_refs: usize)
    ensures
        views(final(steps)@) == views(old(steps)@) + pack_steps(n_refs as nat),
{
    let ghost start = views(steps@);
    if n_refs > 0 {
        steps.push(step(WizardStepKind::AddPacksToBundle, "Copy fetched packs into bundle/packs", "count", decimal_string(n_refs)));
        steps.push(step(WizardStepKind::ApplyPackSetup, "Apply pack-declared setup outputs through internal setup hooks", "status", owned("planned")));
    }
    assert(views(steps@) =~= start + pack_steps(n_refs as nat));
}

fn resolve_step(n_refs: usize) -> (s: WizardPlanStep)
    ensures
        s@ == resolve_packs_step(n_refs as nat),
{
    step(WizardStepKind::ResolvePacks, "Resolve selected pack refs via distributor client", "count", decimal_string(n_refs))
}

fn create_steps_list(n_refs: usize, bundle: &str, n_tenants: usize) -> (r: Vec<WizardPlanStep>)
    ensures
        views(r@) == create_steps(n_refs as nat, bundle@, n_tenants as nat),
{
    let mut steps: Vec<WizardPlanStep> = Vec::new();
    if n_refs > 0 {
        steps.push(resolve_step(n_refs));
    }
    let ghost first = views(steps@);
    assert(first =~= (if n_refs > 0 { seq![resolve_packs_step(n_refs as nat)] } else { Seq::<StepView>::empty() }));
    steps.push(step(WizardStepKind::CreateBundle, "Create demo bundle scaffold using existing conventions", "bundle", owned(bundle)));
    assert(views(steps@) =~= first + seq![create_bundle_step(bundle@)]);
    push_pack_steps(&mut steps, n_refs);
    push_allow_tail_steps(&mut steps, n_tenants);
    steps
}

fn update_steps_list(n_refs: usize, n_tenants: usize) -> (r: Vec<WizardPlanStep>)
    ensures
        views(r@) == update_steps(n_refs as nat, n_tenants as nat),
{
    let mut steps: Vec<WizardPlanStep> = Vec::new();
    steps.push(step(WizardStepKind::ValidateBundle, "Validate target bundle exists before update", "mode", owned("update")));
    if n_refs > 0 {
        steps.push(resolve_step(n_refs));
    }
    let ghost first = views(steps@);
    assert(first =~= seq![validate_before_update_step()] + (if n_refs > 0 { seq![resolve_packs_step(n_refs as nat)] } else { Seq::<StepView>::empty() }));
    push_pack_steps(&mut steps, n_refs);
    push_allow_tail_steps(&mut steps, n_tenants);
    steps
}

fn remove_steps_list(n_tenants: usize) -> (r: Vec<WizardPlanStep>)
    ensures
        views(r@) == remove_steps(n_tenants as nat),
{
    let mut steps: Vec<WizardPlanStep> = Vec::new();
    steps.push(step(WizardStepKind::ValidateBundle, "Validate target bundle exists before remove", "mode", owned("remove")));
    steps.push(step(WizardStepKind::WriteGmapRules, "Write forbidden tenant/team rules to gmap", "targets", decimal_string(n_tenants)));
    steps.push(step(WizardStepKind::RunResolver, "Run resolver pipeline (same as demo forbid)", "resolver", owned("project::sync_project")));
    steps.push(step(WizardStepKind::CopyResolvedManifest, "Copy state/resolved manifests into resolved/ for demo start", "targets", decimal_string(n_tenants)));
    steps.push(step(WizardStepKind::ValidateBundle, "Validate bundle is loadable by internal demo pipeline", "check", owned("resolved manifests present")));
    assert(views(steps@) =~= remove_steps(n_tenants as nat));
    steps
}

proof fn lemma_rank_of_string()
    ensures
        rank_of::<String>() == text_order(),
{
    assert(rank_of::<String>() =~= text_order());
}

proof fn lemma_rank_of_tenant()
    ensures
        rank_of::<TenantSelection>() == tenant_order(),
{
    assert(rank_of::<TenantSelection>() =~= tenant_order());
}

/// The distinct non-blank pack references, trimmed, in increasing order.
fn normalized_refs(refs: &Vec<String>) -> (r: Vec<String>)
    ensures
        texts(r@) == ordered_texts(requested_refs(texts(refs@))),
{
    proof {
        lemma_rank_of_string();
    }
    let ghost all = texts(refs@);
    let mut out: Vec<String> = Vec::new();
    let mut i: usize = 0;
    assert(texts(out@).to_set() =~= requested_refs(all.take(0)));
    while i < refs.len()
        invariant
            i <= refs.len(),
            all == texts(refs@),
            rank_of::<String>() == text_order(),
            sorted_by(texts(out@), text_order()),
            texts(out@).to_set() == requested_refs(all.take(i as int)),
        decreases refs.len() - i,
    {
        let t = text_trim(refs[i].as_str());
        proof {
            assert(all[i as int] == refs@[i as int]@);
            assert(all.take(i + 1).drop_last() =~= all.take(i as int));
        }
        if !t.as_str().is_empty() {
            insert_ranked_unique(&mut out, t);
            proof {
                assert(texts(out@).to_set() =~= requested_refs(all.take(i + 1))) by {
                    assert forall|x: Seq<char>| requested_refs(all.take(i + 1)).contains(x) implies texts(out@).to_set().contains(x) by {
                        let k = choose|k: int| 0 <= k < all.take(i + 1).len() && trimmed(#[trigger] all.take(i + 1)[k]) == x;
                        if k < i {
                            assert(all.take(i as int)[k] == all.take(i + 1)[k]);
                            assert(requested_refs(all.take(i as int)).contains(x));
                        }
                    }
                    assert forall|x: Seq<char>| texts(out@).to_set().contains(x) implies requested_refs(all.take(i + 1)).contains(x) by {
                        if requested_refs(all.take(i as int)).contains(x) {
                            let k = choose|k: int| 0 <= k < all.take(i as int).len() && trimmed(#[trigger] all.take(i as int)[k]) == x;
                            assert(all.take(i + 1)[k] == all.take(i as int)[k]);
                        } else {
                            assert(all.take(i + 1)[i as int] == all[i as int]);
                        }
                    }
                }
            }
        } else {
            proof {
                assert(requested_refs(all.take(i + 1)) =~= requested_refs(all.take(i as int))) by {
                    assert forall|x: Seq<char>| requested_refs(all.take(i + 1)).contains(x) implies requested_refs(all.take(i as int)).contains(x) by {
                        let k = choose|k: int| 0 <= k < all.take(i + 1).len() && trimmed(#[trigger] all.take(i + 1)[k]) == x;
                        if k < i {
                            assert(all.take(i as int)[k] == all.take(i + 1)[k]);
                        } else {
                            assert(all.take(i + 1)[k] == all[i as int]);
                        }
                    }
                    assert forall|x: Seq<char>| requested_refs(all.take(i as int)).contains(x) implies requested_refs(all.take(i + 1)).contains(x) by {
                        let k = choose|k: int| 0 <= k < all.take(i as int).len() && trimmed(#[trigger] all.take(i as int)[k]) == x;
                        assert(all.take(i + 1)[k] == all.take(i as int)[k]);
                    }
                }
            }
        }
        i += 1;
    }
    proof {
        assert(all.take(i as int) =~= all);
        lemma_ordered_texts_is(texts(out@), requested_refs(all));
    }
    out
}

/// A tenant selection with its allow paths sorted and without repetitions.
fn normalize_tenant(t: &TenantSelection) -> (r: TenantSelection)
    ensures
        r@ == normalized_tenant(t@),
{
    proof {
        lemma_rank_of_string();
    }
    let paths = ranked_set(copy_texts(&t.allow_paths));
    proof {
        lemma_ordered_texts_is(texts(paths@), texts(t.allow_paths@).to_set());
    }
    TenantSelection { tenant: t.tenant.clone(), team: copy_opt(&t.team), allow_paths: paths }
}

/// The tenant selections of a plan: normalized, then sorted.
fn plan_tenants(ts: &Vec<TenantSelection>) -> (r: Vec<TenantSelection>)
    ensures
        views(r@) == planned_tenants(views(ts@)),
{
    let ghost norm = |t: TenantView| normalized_tenant(t);
    let mut normalized: Vec<TenantSelection> = Vec::new();
    let mut i: usize = 0;
    while i < ts.len()
        invariant
            i <= ts.len(),
            norm == (|t: TenantView| normalized_tenant(t)),
            normalized@.len() == i,
            views(normalized@) =~= views(ts@).take(i as int).map_values(norm),
        decreases ts.len() - i,
    {
        let n = normalize_tenant(&ts[i]);
        let ghost before = normalized@;
        normalized.push(n);
        proof {
            assert forall|k: int| 0 <= k < i + 1 implies #[trigger] views(normalized@)[k] == views(ts@).take(i + 1).map_values(norm)[k] by {
                if k < i {
                    assert(normalized@[k] == before[k]);
                    assert(views(before)[k] == views(ts@).take(i as int).map_values(norm)[k]);
                } else {
                    assert(normalized@[k] == n);
                }
            }
        }
        i += 1;
        assert(views(normalized@) =~= views(ts@).take(i as int).map_values(norm));
    }
    assert(views(ts@).take(i as int) =~= views(ts@));
    let sorted = sort_ranked(normalized);
    proof {
        lemma_rank_of_tenant();
        lemma_tenant_order_strict_total();
        assert(tenant_order() =~= (|a: TenantView, b: TenantView| tenant_lt(a, b)));
        let input = views(ts@).map_values(norm);
        crate::order::lemma_or_equal_total(tenant_order());
        input.lemma_sort_by_ensures(or_equal(tenant_order()));
        lemma_sorted_same_elements_equal(views(sorted@), input.sort_by(or_equal(tenant_order())), tenant_order());
    }
    sorted
}

/// The plan for a new bundle.
pub fn apply_create(request: &WizardCreateRequest, dry_run: bool) -> (r: Result<WizardPlan, WizardError>)
    ensures
        request.tenants@.len() == 0 <==> r == Err::<WizardPlan, WizardError>(WizardError::NoTenantSelection),
        request.tenants@.len() > 0 <==> r is Ok,
        r is Ok ==> r->Ok_0@ == create_plan(request@, dry_run),
{
    if request.tenants.len() == 0 {
        return Err(WizardError::NoTenantSelection);
    }
    let pack_refs = normalized_refs(&request.pack_refs);
    let tenants = plan_tenants(&request.tenants);
    let steps = create_steps_list(pack_refs.len(), request.bundle.as_str(), tenants.len());
    let plan = WizardPlan {
        mode: owned("create"),
        dry_run,
        bundle: request.bundle.clone(),
        steps,
        metadata: WizardPlanMetadata { pack_refs, tenants },
    };
    Ok(plan)
}

} // verus!

verus! {

/// The plan for changing an existing bundle.
pub fn apply_update(request: &WizardCreateRequest, dry_run: bool) -> (r: Result<WizardPlan, WizardError>)
    ensures
        request.tenants@.len() == 0 <==> r == Err::<WizardPlan, WizardError>(WizardError::NoTenantSelection),
        request.tenants@.len() > 0 <==> r is Ok,
        r is Ok ==> r->Ok_0@ == update_plan(request@, dry_run),
{
    let mut plan = apply_create(request, dry_run)?;
    plan.mode = owned(WizardMode::Update.as_str());
    plan.steps = update_steps_list(plan.metadata.pack_refs.len(), plan.metadata.tenants.len());
    Ok(plan)
}

/// The plan for forbidding the requested paths again.
pub fn apply_remove(request: &WizardCreateRequest, dry_run: bool) -> (r: Result<WizardPlan, WizardError>)
    ensures
        request.tenants@.len() == 0 <==> r == Err::<WizardPlan, WizardError>(WizardError::NoTenantSelection),
        request.tenants@.len() > 0 <==> r is Ok,
        r is Ok ==> r->Ok_0@ == remove_plan(request@, dry_run),
{
    if request.tenants.len() == 0 {
        return Err(WizardError::NoTenantSelection);
    }
    let tenants = plan_tenants(&request.tenants);
    let steps = remove_steps_list(tenants.len());
    let plan = WizardPlan {
        mode: owned(WizardMode::Remove.as_str()),
        dry_run,
        bundle: request.bundle.clone(),
        steps,
        metadata: WizardPlanMetadata { pack_refs: Vec::new(), tenants },
    };
    assert(plan@.pack_refs =~= Seq::<Seq<char>>::empty());
    Ok(plan)
}

/// The plan for a request in a mode.
pub fn apply(mode: WizardMode, request: &WizardCreateRequest, dry_run: bool) -> (r: Result<WizardPlan, WizardError>)
    ensures
        request.tenants@.len() == 0 <==> r == Err::<WizardPlan, WizardError>(WizardError::NoTenantSelection),
        request.tenants@.len() > 0 <==> r is Ok,
        r is Ok ==> r->Ok_0@ == planned(mode, request@, dry_run),
{
    match mode {
        WizardMode::Create => apply_create(request, dry_run),
        WizardMode::Update => apply_update(request, dry_run),
        WizardMode::Remove => apply_remove(request, dry_run),
    }
}

/// A plan depends on the request only through its bundle, the set of its trimmed non-blank pack
/// references and the multiset of its normalized tenant selections: requests that list the same
/// references and selections in another order, or repeat references, get the same plan.
pub proof fn law_plan_is_deterministic(mode: WizardMode, a: RequestView, b: RequestView, dry_run: bool)
    requires
        a.bundle == b.bundle,
        requested_refs(a.pack_refs) == requested_refs(b.pack_refs),
        a.tenants.map_values(|t: TenantView| normalized_tenant(t)).to_multiset()
            == b.tenants.map_values(|t: TenantView| normalized_tenant(t)).to_multiset(),
    ensures
        planned(mode, a, dry_run) == planned(mode, b, dry_run),
{
    lemma_tenant_order_strict_total();
    assert(tenant_order() =~= (|a: TenantView, b: TenantView| tenant_lt(a, b)));
    crate::order::lemma_or_equal_total(tenant_order());
    let na = a.tenants.map_values(|t: TenantView| normalized_tenant(t));
    let nb = b.tenants.map_values(|t: TenantView| normalized_tenant(t));
    na.lemma_sort_by_ensures(or_equal(tenant_order()));
    nb.lemma_sort_by_ensures(or_equal(tenant_order()));
    lemma_sorted_same_elements_equal(na.sort_by(or_equal(tenant_order())), nb.sort_by(or_equal(tenant_order())), tenant_order());
}

/// The pack references of a plan are strictly increasing, hence sorted and without repetitions,
/// and are exactly the trimmed non-blank references of the request.
pub proof fn law_plan_pack_refs_sorted_distinct(req: RequestView)
    ensures
        sorted_by(ordered_texts(requested_refs(req.pack_refs)), text_order()),
        ordered_texts(requested_refs(req.pack_refs)).to_set() == requested_refs(req.pack_refs),
{
    lemma_text_order_strict_total();
    let s = requested_refs(req.pack_refs);
    // A witness: the requested references are finite, so some increasing listing exists.
    lemma_ordered_listing_exists(s, req.pack_refs);
}

/// What a tenant selection is up to the order of its allow paths: its tenant, its team and the
/// multiset of its allow paths.
pub open spec fn tenant_key(t: TenantView) -> (Seq<char>, Option<Seq<char>>, Multiset<Seq<char>>) {
    (t.tenant, t.team, t.allow_paths.to_multiset())
}

/// The normalized selection of a key.
pub open spec fn normalized_key(k: (Seq<char>, Option<Seq<char>>, Multiset<Seq<char>>)) -> TenantView {
    TenantView { tenant: k.0, team: k.1, allow_paths: ordered_texts(k.2.dom()) }
}

proof fn lemma_map_values_to_multiset<A, B>(x: Seq<A>, y: Seq<A>, g: spec_fn(A) -> B)
    requires
        x.to_multiset() == y.to_multiset(),
    ensures
        x.map_values(g).to_multiset() == y.map_values(g).to_multiset(),
    decreases x.len(),
{
    broadcast use vstd::seq_lib::group_to_multiset_ensures;
    broadcast use vstd::multiset::group_multiset_axioms;
    assert(x.to_multiset().len() == x.len() && y.to_multiset().len() == y.len());
    if x.len() == 0 {
        assert(y.len() == 0);
        assert(x.map_values(g) =~= Seq::<B>::empty());
        assert(y.map_values(g) =~= Seq::<B>::empty());
    } else {
        let a = x.last();
        let x0 = x.drop_last();
        assert(x0.push(a) =~= x);
        assert(x.to_multiset().count(a) > 0);
        assert(y.contains(a));
        let j = choose|j: int| 0 <= j < y.len() && y[j] == a;
        let y0 = y.remove(j);
        assert(y0.to_multiset() =~= y.to_multiset().remove(a));
        assert(x0.to_multiset() =~= x.to_multiset().remove(a));
        lemma_map_values_to_multiset(x0, y0, g);
        assert(x.map_values(g) =~= x0.map_values(g).push(g(a)));
        assert(y.map_values(g).remove(j) =~= y0.map_values(g));
        let ym = y.map_values(g);
        assert(ym[j] == g(a));
        assert(ym.to_multiset().count(g(a)) > 0) by {
            assert(ym.contains(g(a)));
        }
        assert(ym.remove(j).to_multiset() =~= ym.to_multiset().remove(g(a)));
        assert(ym.to_multiset() =~= ym.to_multiset().remove(g(a)).insert(g(a)));
    }
}

proof fn lemma_same_multiset_same_refs(a: Seq<Seq<char>>, b: Seq<Seq<char>>)
    requires
        a.to_multiset() == b.to_multiset(),
    ensures
        requested_refs(a) == requested_refs(b),
{
    broadcast use vstd::seq_lib::group_to_multiset_ensures;
    assert forall|x: Seq<char>| requested_refs(a).contains(x) implies requested_refs(b).contains(x) by {
        let i = choose|i: int| 0 <= i < a.len() && trimmed(#[trigger] a[i]) == x;
        assert(a.contains(a[i]));
        assert(a.to_multiset().count(a[i]) > 0);
        assert(b.to_multiset().count(a[i]) > 0);
        assert(b.contains(a[i]));
        let j = choose|j: int| 0 <= j < b.len() && b[j] == a[i];
        assert(trimmed(b[j]) == x);
    }
    assert forall|x: Seq<char>| requested_refs(b).contains(x) implies requested_refs(a).contains(x) by {
        let i = choose|i: int| 0 <= i < b.len() && trimmed(#[trigger] b[i]) == x;
        assert(b.contains(b[i]));
        assert(b.to_multiset().count(b[i]) > 0);
        assert(a.to_multiset().count(b[i]) > 0);
        assert(a.contains(b[i]));
        let j = choose|j: int| 0 <= j < a.len() && a[j] == b[i];
        assert(trimmed(a[j]) == x);
    }
    assert(requested_refs(a) =~= requested_refs(b));
}

/// A plan does not depend on the order in which a request lists things: when two requests name
/// the same bundle, list the same pack references in any order, and the same tenant selections
/// in any order, each with its allow paths in any order, they get the same plan in every mode,
/// and both have tenants or neither has (so `apply` accepts both or refuses both).
pub proof fn law_plan_ignores_request_order(mode: WizardMode, a: RequestView, b: RequestView, dry_run: bool)
    requires
        a.bundle == b.bundle,
        a.pack_refs.to_multiset() == b.pack_refs.to_multiset(),
        a.tenants.map_values(|t: TenantView| tenant_key(t)).to_multiset()
            == b.tenants.map_values(|t: TenantView| tenant_key(t)).to_multiset(),
    ensures
        planned(mode, a, dry_run) == planned(mode, b, dry_run),
        a.tenants.len() == b.tenants.len(),
{
    broadcast use vstd::seq_lib::group_to_multiset_ensures;
    lemma_same_multiset_same_refs(a.pack_refs, b.pack_refs);
    let ka = a.tenants.map_values(|t: TenantView| tenant_key(t));
    let kb = b.tenants.map_values(|t: TenantView| tenant_key(t));
    assert(ka.len() == a.tenants.len() && kb.len() == b.tenants.len());
    assert(ka.to_multiset().len() == kb.to_multiset().len());
    lemma_map_values_to_multiset(ka, kb, |k: (Seq<char>, Option<Seq<char>>, Multiset<Seq<char>>)| normalized_key(k));
    assert forall|t: TenantView| #[trigger] normalized_tenant(t) == normalized_key(tenant_key(t)) by {
        assert forall|x: Seq<char>| t.allow_paths.to_set().contains(x) <==> t.allow_paths.to_multiset().dom().contains(x) by {
            assert(t.allow_paths.contains(x) <==> t.allow_paths.to_multiset().count(x) > 0);
        }
        assert(t.allow_paths.to_set() =~= t.allow_paths.to_multiset().dom());
    }
    assert(a.tenants.map_values(|t: TenantView| normalized_tenant(t))
        =~= ka.map_values(|k: (Seq<char>, Option<Seq<char>>, Multiset<Seq<char>>)| normalized_key(k)));
    assert(b.tenants.map_values(|t: TenantView| normalized_tenant(t))
        =~= kb.map_values(|k: (Seq<char>, Option<Seq<char>>, Multiset<Seq<char>>)| normalized_key(k)));
    law_plan_is_deterministic(mode, a, b, dry_run);
}

proof fn lemma_ordered_listing_exists(s: Set<Seq<char>>, refs: Seq<Seq<char>>)
    requires
        s == requested_refs(refs),
    ensures
        sorted_by(ordered_texts(s), text_order()),
        ordered_texts(s).to_set() == s,
{
    lemma_text_order_strict_total();
    let listed = refs.map_values(|x: Seq<char>| trimmed(x)).filter(|x: Seq<char>| x.len() > 0);
    crate::order::lemma_or_equal_total(text_order());
    let sorted = listed.sort_by(or_equal(text_order()));
    listed.lemma_sort_by_ensures(or_equal(text_order()));
    let w = sorted_distinct_of(sorted);
    lemma_sorted_distinct_of(sorted);
    assert(sorted.to_set() =~= listed.to_set()) by {
        broadcast use vstd::seq_lib::group_to_multiset_ensures;
        assert forall|x: Seq<char>| sorted.contains(x) <==> listed.contains(x) by {
            if listed.contains(x) {
                assert(listed.to_multiset().count(x) > 0);
            }
            if sorted.contains(x) {
                assert(sorted.to_multiset().count(x) > 0);
            }
        }
    }
    assert(listed.to_set() =~= s) by {
        let p = |x: Seq<char>| x.len() > 0;
        let m = refs.map_values(|x: Seq<char>| trimmed(x));
        assert forall|x: Seq<char>| listed.contains(x) <==> s.contains(x) by {
            if listed.contains(x) {
                m.filter_lemma(p);
                m.lemma_filter_contains_rev(p, x);
                let k = choose|k: int| 0 <= k < listed.len() && listed[k] == x;
                assert(p(listed[k]));
                let j = choose|j: int| 0 <= j < m.len() && m[j] == x;
                assert(trimmed(refs[j]) == x);
            }
            if s.contains(x) {
                let j = choose|j: int| 0 <= j < refs.len() && trimmed(#[trigger] refs[j]) == x;
                assert(m[j] == x);
                m.filter_lemma(p);
                assert(listed.contains(x));
            }
        }
    }
    assert(sorted_by(w, text_order()) && w.to_set() == s);
}

/// The sorted sequence without repeated neighbours.
spec fn sorted_distinct_of(s: Seq<Seq<char>>) -> Seq<Seq<char>>
    decreases s.len(),
{
    if s.len() == 0 {
        s
    } else {
        let r = sorted_distinct_of(s.drop_last());
        if r.len() > 0 && r.last() == s.last() {
            r
        } else {
            r.push(s.last())
        }
    }
}

proof fn lemma_sorted_distinct_of(s: Seq<Seq<char>>)
    requires
        sorted_by(s, or_equal(text_order())),
        strict_total_ordering(text_order()),
    ensures
        sorted_by(sorted_distinct_of(s), text_order()),
        sorted_distinct_of(s).to_set() == s.to_set(),
        s.len() > 0 ==> sorted_distinct_of(s).len() > 0 && sorted_distinct_of(s).last() == s.last(),
    decreases s.len(),
{
    if s.len() > 0 {
        let t = s.drop_last();
        assert(sorted_by(t, or_equal(text_order())));
        lemma_sorted_distinct_of(t);
        let r = sorted_distinct_of(t);
        let q = sorted_distinct_of(s);
        if r.len() > 0 && r.last() == s.last() {
            assert(q.to_set() =~= s.to_set()) by {
                assert forall|x: Seq<char>| q.to_set().contains(x) <==> s.to_set().contains(x) by {
                    if s.contains(x) {
                        let k = choose|k: int| 0 <= k < s.len() && s[k] == x;
                        if k < s.len() - 1 {
                            assert(t[k] == x);
                            assert(t.contains(x));
                        } else {
                            assert(r[r.len() - 1] == x);
                        }
                    }
                    if q.contains(x) {
                        assert(t.to_set().contains(x));
                        let k = choose|k: int| 0 <= k < t.len() && t[k] == x;
                        assert(s[k] == x);
                    }
                }
            }
        } else {
            assert(q == r.push(s.last()));
            if r.len() > 0 {
                // r.last() == t.last() <= s.last(), and they differ
                assert(r.last() == t.last());
                assert(or_equal(text_order())(t.last(), s.last())) by {
                    assert(or_equal(text_order())(s[s.len() - 2], s[s.len() - 1]));
                }
                assert forall|i: int, j: int| 0 <= i < j < q.len() implies #[trigger] text_order()(q[i], q[j]) by {
                    if j == q.len() - 1 && i < j {
                        assert(q[j] == s.last());
                        if i < r.len() - 1 {
                            assert(text_order()(r[i], r[r.len() - 1]));
                        }
                    } else {
                        assert(q[i] == r[i] && q[j] == r[j]);
                    }
                }
            }
            assert(q.to_set() =~= s.to_set()) by {
                assert forall|x: Seq<char>| q.to_set().contains(x) <==> s.to_set().contains(x) by {
                    if s.contains(x) {
                        let k = choose|k: int| 0 <= k < s.len() && s[k] == x;
                        if k < s.len() - 1 {
                            assert(t[k] == x);
                            assert(t.contains(x));
                            assert(t.to_set().contains(x));
                            assert(r.to_set().contains(x));
                            assert(r.contains(x));
                            let m = choose|m: int| 0 <= m < r.len() && r[m] == x;
                            assert(q[m] == x);
                        } else {
                            assert(q[q.len() - 1] == x);
                        }
                    }
                    if q.contains(x) {
                        let m = choose|m: int| 0 <= m < q.len() && q[m] == x;
                        if m < r.len() {
                            assert(r[m] == x);
                            assert(t.to_set().contains(x));
                            let k = choose|k: int| 0 <= k < t.len() && t[k] == x;
                            assert(s[k] == x);
                        } else {
                            assert(s[s.len() - 1] == x);
                        }
                    }
                }
            }
        }
    }
}

} // verus!

verus! {

/// Access policy of a gmap rule.
#[derive(Clone, Copy, Debug, PartialEq, Eq, Structural)]
pub enum Policy {
    Public,
    Forbidden,
}

/// What is known of the bundle directory before a plan runs.
#[derive(Clone, Copy, Debug, PartialEq, Eq, Structural)]
pub struct BundleProbe {
    /// The bundle path exists.
    pub exists: bool,
    /// `greentic.demo.yaml` exists in the bundle.
    pub has_demo_config: bool,
}

/// The directory a tenant or team needs, and the gmap file seeded in it when missing.
#[derive(Clone, Debug)]
pub struct SeedDir {
    pub dir: String,
    pub gmap_file: String,
    pub gmap_contents: String,
}

/// The file system work a plan asks for, in order: the scaffold (directories, then files written
/// when missing), the packs to fetch into `packs/`, then the tenant selections to write with
/// `policy`.
#[derive(Clone, Debug)]
pub struct BundleWork {
    pub bundle: String,
    pub directories: Vec<String>,
    pub seed_files: Vec<(String, String)>,
    pub pack_refs: Vec<String>,
    pub tenants: Vec<TenantSelection>,
    pub policy: Policy,
}

/// The contents of bundle work.
pub struct BundleWorkView {
    pub bundle: Seq<char>,
    pub directories: Seq<Seq<char>>,
    pub seed_files: Seq<(Seq<char>, Seq<char>)>,
    pub pack_refs: Seq<Seq<char>>,
    pub tenants: Seq<TenantView>,
    pub policy: Policy,
}

impl View for BundleWork {
    type V = BundleWorkView;

    open spec fn view(&self) -> BundleWorkView {
        BundleWorkView {
            bundle: self.bundle@,
            directories: texts(self.directories@),
            seed_files: self.seed_files@.map_values(|f: (String, String)| (f.0@, f.1@)),
            pack_refs: texts(self.pack_refs@),
            tenants: views(self.tenants@),
            policy: self.policy,
        }
    }
}

/// The directories of a new demo bundle, relative to its root.
pub open spec fn scaffold_dirs() -> Seq<Seq<char>> {
    seq![
        ""@, "providers"@, "providers/messaging"@, "providers/events"@, "providers/secrets"@,
        "packs"@, "resolved"@, "state"@, "state/resolved"@, "state/runs"@, "state/pids"@,
        "state/logs"@, "state/runtime"@, "state/doctor"@, "tenants"@, "tenants/default"@,
        "tenants/default/teams"@, "tenants/demo"@, "tenants/demo/teams"@,
        "tenants/demo/teams/default"@, "logs"@,
    ]
}

/// The files of a new demo bundle, as (path, contents).
pub open spec fn scaffold_files(root: Seq<char>) -> Seq<(Seq<char>, Seq<char>)> {
    seq![
        (join(root, "greentic.demo.yaml"@), "version: \"1\"\nproject_root: \"./\"\n"@),
        (join(join(join(root, "tenants"@), "default"@), "tenant.gmap"@), "_ = forbidden\n"@),
        (join(join(join(root, "tenants"@), "demo"@), "tenant.gmap"@), "_ = forbidden\n"@),
        (join(join(join(join(join(root, "tenants"@), "demo"@), "teams"@), "default"@), "team.gmap"@), "_ = forbidden\n"@),
    ]
}

/// The work a plan asks for.
pub open spec fn planned_work(plan: PlanView, scaffold: bool, policy: Policy) -> BundleWorkView {
    BundleWorkView {
        bundle: plan.bundle,
        directories: if scaffold { scaffold_dirs().map_values(|d: Seq<char>| join(plan.bundle, d)) } else { Seq::<Seq<char>>::empty() },
        seed_files: if scaffold { scaffold_files(plan.bundle) } else { Seq::<(Seq<char>, Seq<char>)>::empty() },
        pack_refs: if policy == Policy::Public { plan.pack_refs } else { Seq::<Seq<char>>::empty() },
        tenants: plan.tenants,
        policy,
    }
}

/// Create and update plans fetch exactly the plan's packs and write its selections as public
/// rules; only remove fetches nothing and writes its selections as forbidden. Only create lays
/// out a scaffold.
pub proof fn law_only_remove_drops_packs(plan: PlanView)
    ensures
        planned_work(plan, true, Policy::Public).pack_refs == plan.pack_refs,
        planned_work(plan, false, Policy::Public).pack_refs == plan.pack_refs,
        planned_work(plan, false, Policy::Forbidden).pack_refs.len() == 0,
        planned_work(plan, true, Policy::Public).tenants == plan.tenants,
        planned_work(plan, false, Policy::Public).tenants == plan.tenants,
        planned_work(plan, false, Policy::Forbidden).tenants == plan.tenants,
        planned_work(plan, false, Policy::Public).directories.len() == 0,
        planned_work(plan, true, Policy::Public).directories.len() > 0,
{
}

/// The error, if any, with which a plan of `mode` is refused before it runs.
pub open spec fn plan_refusal(mode: WizardMode, plan: WizardPlan, probe: BundleProbe) -> Option<WizardError> {
    if plan.mode@ != mode_name(mode) {
        Some(WizardError::UnsupportedMode(plan.mode))
    } else if mode == WizardMode::Create {
        if probe.exists { Some(WizardError::BundleExists(plan.bundle)) } else { None }
    } else if !probe.exists {
        Some(WizardError::BundleMissing(plan.bundle))
    } else if !probe.has_demo_config {
        Some(WizardError::BundleNotDemo(plan.bundle))
    } else {
        None
    }
}

use crate::paths::{join, path_join};

fn scaffold(root: &str) -> (r: (Vec<String>, Vec<(String, String)>))
    ensures
        texts(r.0@) == scaffold_dirs().map_values(|d: Seq<char>| join(root@, d)),
        r.1@.map_values(|f: (String, String)| (f.0@, f.1@)) == scaffold_files(root@),
{
    let names: [&str; 21] = [
        "", "providers", "providers/messaging", "providers/events", "providers/secrets",
        "packs", "resolved", "state", "state/resolved", "state/runs", "state/pids",
        "state/logs", "state/runtime", "state/doctor", "tenants", "tenants/default",
        "tenants/default/teams", "tenants/demo", "tenants/demo/teams",
        "tenants/demo/teams/default", "logs",
    ];
    proof {
        assert(names@.map_values(|s: &str| s@) =~= scaffold_dirs());
    }
    let mut dirs: Vec<String> = Vec::new();
    let mut i: usize = 0;
    while i < 21
        invariant
            i <= 21,
            names@.map_values(|s: &str| s@) == scaffold_dirs(),
            dirs@.len() == i,
            forall|k: int| 0 <= k < i ==> #[trigger] dirs@[k]@ == join(root@, scaffold_dirs()[k]),
        decreases 21 - i,
    {
        let d = path_join(root, names[i]);
        proof {
            assert(names@[i as int]@ == scaffold_dirs()[i as int]);
        }
        dirs.push(d);
        i += 1;
    }
    assert(texts(dirs@) =~= scaffold_dirs().map_values(|d: Seq<char>| join(root@, d)));
    let tenants = path_join(root, "tenants");
    let default_dir = path_join(tenants.as_str(), "default");
    let demo_dir = path_join(tenants.as_str(), "demo");
    let demo_teams = path_join(demo_dir.as_str(), "teams");
    let demo_default = path_join(demo_teams.as_str(), "default");
    let mut files: Vec<(String, String)> = Vec::new();
    files.push((path_join(root, "greentic.demo.yaml"), owned("version: \"1\"\nproject_root: \"./\"\n")));
    files.push((path_join(default_dir.as_str(), "tenant.gmap"), owned("_ = forbidden\n")));
    files.push((path_join(demo_dir.as_str(), "tenant.gmap"), owned("_ = forbidden\n")));
    files.push((path_join(demo_default.as_str(), "team.gmap"), owned("_ = forbidden\n")));
    assert(files@.map_values(|f: (String, String)| (f.0@, f.1@)) =~= scaffold_files(root@));
    (dirs, files)
}

/// Refuses a bundle to change unless it exists and has `greentic.demo.yaml`.
pub fn validate_bundle_exists(bundle: &String, probe: BundleProbe) -> (r: Result<(), WizardError>)
    ensures
        !probe.exists ==> r == Err::<(), WizardError>(WizardError::BundleMissing(*bundle)),
        probe.exists && !probe.has_demo_config ==> r == Err::<(), WizardError>(WizardError::BundleNotDemo(*bundle)),
        probe.exists && probe.has_demo_config ==> r is Ok,
{
    if !probe.exists {
        return Err(WizardError::BundleMissing(bundle.clone()));
    }
    if !probe.has_demo_config {
        return Err(WizardError::BundleNotDemo(bundle.clone()));
    }
    Ok(())
}

fn check_mode(plan: &WizardPlan, mode: WizardMode) -> (r: Result<(), WizardError>)
    ensures
        plan.mode@ != mode_name(mode) <==> r is Err,
        r is Err ==> r == Err::<(), WizardError>(WizardError::UnsupportedMode(plan.mode)),
{
    if !text_eq(plan.mode.as_str(), mode.as_str()) {
        return Err(WizardError::UnsupportedMode(plan.mode.clone()));
    }
    Ok(())
}

/// The work of a create plan: it is refused when the plan is not a create plan or the bundle
/// path exists; otherwise a scaffold, the plan's packs and allow rules.
pub fn execute_create_plan(plan: &WizardPlan, probe: BundleProbe) -> (r: Result<BundleWork, WizardError>)
    ensures
        match plan_refusal(WizardMode::Create, *plan, probe) {
            Some(e) => r == Err::<BundleWork, WizardError>(e),
            None => r is Ok && r->Ok_0@ == planned_work(plan@, true, Policy::Public),
        },        r matches Ok(w) ==> w@.pack_refs == plan@.pack_refs && w@.tenants == plan@.tenants && w.policy == Policy::Public,
{
    check_mode(plan, WizardMode::Create)?;
    if probe.exists {
        return Err(WizardError::BundleExists(plan.bundle.clone()));
    }
    let (directories, seed_files) = scaffold(plan.bundle.as_str());
    let work = BundleWork {
        bundle: plan.bundle.clone(),
        directories,
        seed_files,
        pack_refs: copy_texts(&plan.metadata.pack_refs),
        tenants: copy_tenants(&plan.metadata.tenants),
        policy: Policy::Public,
    };
    Ok(work)
}

/// The work of an update plan: refused unless it is an update plan of an existing demo bundle.
pub fn execute_update_plan(plan: &WizardPlan, probe: BundleProbe) -> (r: Result<BundleWork, WizardError>)
    ensures
        match plan_refusal(WizardMode::Update, *plan, probe) {
            Some(e) => r == Err::<BundleWork, WizardError>(e),
            None => r is Ok && r->Ok_0@ == planned_work(plan@, false, Policy::Public),
        },        r matches Ok(w) ==> w@.pack_refs == plan@.pack_refs && w@.tenants == plan@.tenants && w.policy == Policy::Public,
{
    check_mode(plan, WizardMode::Update)?;
    validate_bundle_exists(&plan.bundle, probe)?;
    let work = BundleWork {
        bundle: plan.bundle.clone(),
        directories: Vec::new(),
        seed_files: Vec::new(),
        pack_refs: copy_texts(&plan.metadata.pack_refs),
        tenants: copy_tenants(&plan.metadata.tenants),
        policy: Policy::Public,
    };
    assert(work@.directories =~= Seq::<Seq<char>>::empty());
    assert(work@.seed_files =~= Seq::<(Seq<char>, Seq<char>)>::empty());
    Ok(work)
}

/// The work of a remove plan: refused unless it is a remove plan of an existing demo bundle.
pub fn execute_remove_plan(plan: &WizardPlan, probe: BundleProbe) -> (r: Result<BundleWork, WizardError>)
    ensures
        match plan_refusal(WizardMode::Remove, *plan, probe) {
            Some(e) => r == Err::<BundleWork, WizardError>(e),
            None => r is Ok && r->Ok_0@ == planned_work(plan@, false, Policy::Forbidden),
        },        r matches Ok(w) ==> w@.pack_refs.len() == 0 && w@.tenants == plan@.tenants && w.policy == Policy::Forbidden,
{
    check_mode(plan, WizardMode::Remove)?;
    validate_bundle_exists(&plan.bundle, probe)?;
    let work = BundleWork {
        bundle: plan.bundle.clone(),
        directories: Vec::new(),
        seed_files: Vec::new(),
        pack_refs: Vec::new(),
        tenants: copy_tenants(&plan.metadata.tenants),
        policy: Policy::Forbidden,
    };
    assert(work@.directories =~= Seq::<Seq<char>>::empty());
    assert(work@.seed_files =~= Seq::<(Seq<char>, Seq<char>)>::empty());
    assert(work@.pack_refs =~= Seq::<Seq<char>>::empty());
    Ok(work)
}

/// The work of a plan in a mode.
pub fn execute_plan(mode: WizardMode, plan: &WizardPlan, probe: BundleProbe) -> (r: Result<BundleWork, WizardError>)
    ensures
        match plan_refusal(mode, *plan, probe) {
            Some(e) => r == Err::<BundleWork, WizardError>(e),
            None => r is Ok && r->Ok_0@ == planned_work(
                plan@,
                mode == WizardMode::Create,
                if mode == WizardMode::Remove { Policy::Forbidden } else { Policy::Public },
            ),
        },
{
    match mode {
        WizardMode::Create => execute_create_plan(plan, probe),
        WizardMode::Update => execute_update_plan(plan, probe),
        WizardMode::Remove => execute_remove_plan(plan, probe),
    }
}

fn copy_tenant(t: &TenantSelection) -> (r: TenantSelection)
    ensures
        r@ == t@,
{
    TenantSelection { tenant: t.tenant.clone(), team: copy_opt(&t.team), allow_paths: copy_texts(&t.allow_paths) }
}

fn copy_tenants(v: &Vec<TenantSelection>) -> (r: Vec<TenantSelection>)
    ensures
        views(r@) == views(v@),
{
    let mut out: Vec<TenantSelection> = Vec::new();
    let mut i: usize = 0;
    while i < v.len()
        invariant
            i <= v.len(),
            out@.len() == i,
            forall|k: int| 0 <= k < i ==> #[trigger] out@[k]@ == v@[k]@,
        decreases v.len() - i,
    {
        out.push(copy_tenant(&v[i]));
        i += 1;
    }
    assert(views(out@) =~= views(v@));
    out
}

} // verus!

verus! {

/// A selection that names a team writes that team's rules and needs that team's manifest,
/// whether or not the tenant has a `default` team; `default` stands in only when no team is
/// given and the tenant has a `default` team, and a blank team writes the tenant's rules.
pub proof fn law_named_team_is_used_as_given(t: Seq<char>, default_team_exists: bool, bundle: Seq<char>, tenant: Seq<char>)
    ensures
        t.len() > 0 ==> effective_team_of(Some(t), default_team_exists) == Some(t),
        t.len() > 0 ==> gmap_path_of(bundle, tenant, effective_team_of(Some(t), default_team_exists))
            == gmap_path_of(bundle, tenant, Some(t)),
        t.len() > 0 ==> manifest_name_of(tenant, effective_team_of(Some(t), default_team_exists)) == tenant + "."@ + t
            + ".yaml"@,
        t.len() == 0 ==> effective_team_of(Some(t), default_team_exists) is None,
        effective_team_of(None, default_team_exists) == if default_team_exists {
            Some("default"@)
        } else {
            None
        },
{
}

/// The team whose rules a selection writes: its own team unless blank, else `default` when the
/// tenant has a `default` team directory.
pub open spec fn effective_team_of(team: Option<Seq<char>>, default_team_exists: bool) -> Option<Seq<char>> {
    match team {
        Some(t) => if t.len() == 0 { None } else { Some(t) },
        None => if default_team_exists { Some("default"@) } else { None },
    }
}

/// The gmap file of a tenant, or of one of its teams.
pub open spec fn gmap_path_of(bundle: Seq<char>, tenant: Seq<char>, team: Option<Seq<char>>) -> Seq<char> {
    let base = join(join(bundle, "tenants"@), tenant);
    match team {
        Some(t) => join(join(join(base, "teams"@), t), "team.gmap"@),
        None => join(base, "tenant.gmap"@),
    }
}

/// The resolved manifest file name of a tenant, or of one of its teams.
pub open spec fn manifest_name_of(tenant: Seq<char>, team: Option<Seq<char>>) -> Seq<char> {
    match team {
        Some(t) => tenant + "."@ + t + ".yaml"@,
        None => tenant + ".yaml"@,
    }
}

/// The allow paths that are written as rules: those that are not blank.
pub open spec fn written_paths(paths: Seq<Seq<char>>) -> Seq<Seq<char>>
    decreases paths.len(),
{
    if paths.len() == 0 {
        paths
    } else if trimmed(paths.last()).len() > 0 {
        written_paths(paths.drop_last()).push(paths.last())
    } else {
        written_paths(paths.drop_last())
    }
}

/// The team a selection's rules go to (see `effective_team_of`).
pub fn effective_team(team: &Option<String>, default_team_exists: bool) -> (r: Option<String>)
    ensures
        opt_text(r) == effective_team_of(opt_text(*team), default_team_exists),
        team is Some && team->0@.len() > 0 ==> opt_text(r) == Some(team->0@),
        team is None && default_team_exists ==> opt_text(r) == Some("default"@),
        team is None && !default_team_exists ==> r is None,
{
    match team {
        Some(t) => {
            if t.as_str().is_empty() {
                None
            } else {
                Some(t.clone())
            }
        },
        None => {
            if default_team_exists {
                Some(owned("default"))
            } else {
                None
            }
        },
    }
}

/// The gmap file that holds the rules of a tenant, or of one of its teams.
pub fn demo_bundle_gmap_path(bundle: &str, tenant: &str, team: Option<&str>) -> (r: String)
    ensures
        r@ == gmap_path_of(bundle@, tenant@, match team { Some(t) => Some(t@), None => None }),
{
    let base = path_join(path_join(bundle, "tenants").as_str(), tenant);
    match team {
        Some(t) => {
            let teams = path_join(base.as_str(), "teams");
            let dir = path_join(teams.as_str(), t);
            path_join(dir.as_str(), "team.gmap")
        },
        None => path_join(base.as_str(), "tenant.gmap"),
    }
}

/// `{tenant}.{team}.yaml`, or `{tenant}.yaml` without a team.
pub fn resolved_manifest_filename(tenant: &str, team: Option<&str>) -> (r: String)
    ensures
        r@ == manifest_name_of(tenant@, match team { Some(t) => Some(t@), None => None }),
{
    match team {
        Some(t) => {
            let a = concat3(tenant, ".", t);
            concat2(a.as_str(), ".yaml")
        },
        None => concat2(tenant, ".yaml"),
    }
}

/// The rules a tenant selection writes, once its directories exist.
#[derive(Clone, Debug)]
pub struct RuleWrites {
    /// The gmap file the rules go to.
    pub gmap_path: String,
    /// The rule paths, in the selection's order.
    pub rules: Vec<String>,
    pub policy: Policy,
    /// The resolved manifest the selection needs.
    pub manifest: String,
}

/// What a tenant selection writes: the non-blank allow paths as rules with `policy` in the gmap
/// of its effective team, and the name of the manifest it needs.
pub fn tenant_rule_writes(bundle: &str, selection: &TenantSelection, default_team_exists: bool, policy: Policy) -> (r: RuleWrites)
    ensures
        r.gmap_path@ == gmap_path_of(bundle@, selection.tenant@, effective_team_of(opt_text(selection.team), default_team_exists)),
        texts(r.rules@) == written_paths(texts(selection.allow_paths@)),
        r.policy == policy,
        r.manifest@ == manifest_name_of(selection.tenant@, effective_team_of(opt_text(selection.team), default_team_exists)),
        selection.team is Some && selection.team->0@.len() > 0 ==> r.gmap_path@ == gmap_path_of(
            bundle@,
            selection.tenant@,
            Some(selection.team->0@),
        ) && r.manifest@ == selection.tenant@ + "."@ + selection.team->0@ + ".yaml"@,
{
    let team = effective_team(&selection.team, default_team_exists);
    let (gmap_path, manifest) = match &team {
        Some(t) => (
            demo_bundle_gmap_path(bundle, selection.tenant.as_str(), Some(t.as_str())),
            resolved_manifest_filename(selection.tenant.as_str(), Some(t.as_str())),
        ),
        None => (
            demo_bundle_gmap_path(bundle, selection.tenant.as_str(), None),
            resolved_manifest_filename(selection.tenant.as_str(), None),
        ),
    };
    let ghost paths = texts(selection.allow_paths@);
    let mut rules: Vec<String> = Vec::new();
    let mut i: usize = 0;
    while i < selection.allow_paths.len()
        invariant
            i <= selection.allow_paths.len(),
            paths == texts(selection.allow_paths@),
            texts(rules@) == written_paths(paths.take(i as int)),
        decreases selection.allow_paths.len() - i,
    {
        let path = &selection.allow_paths[i];
        let t = text_trim(path.as_str());
        proof {
            assert(paths.take(i + 1).drop_last() =~= paths.take(i as int));
            assert(paths.take(i + 1).last() == path@);
        }
        if !t.as_str().is_empty() {
            let ghost before = rules@;
            rules.push(path.clone());
            assert(texts(rules@) =~= texts(before).push(path@));
        }
        i += 1;
    }
    assert(paths.take(i as int) =~= paths);
    RuleWrites { gmap_path, rules, policy, manifest }
}

/// The directories a tenant selection needs and the gmap files seeded in them: the tenant's
/// `teams` directory with `tenant.gmap`, and the team's directory with `team.gmap` when the
/// selection names a non-blank team.
pub fn ensure_tenant_and_team(bundle: &str, selection: &TenantSelection) -> (r: Vec<SeedDir>)
    ensures
        r@.len() == match selection.team {
            Some(t) => if t@.len() > 0 { 2int } else { 1int },
            None => 1int,
        },
        r@[0].dir@ == join(join(join(bundle@, "tenants"@), selection.tenant@), "teams"@),
        r@[0].gmap_file@ == join(join(join(bundle@, "tenants"@), selection.tenant@), "tenant.gmap"@),
        r@[0].gmap_contents@ == "_ = forbidden\n"@,
        match selection.team {
            Some(t) => t@.len() > 0 ==> {
                &&& r@[1].dir@ == join(join(join(join(bundle@, "tenants"@), selection.tenant@), "teams"@), t@)
                &&& r@[1].gmap_file@ == join(r@[1].dir@, "team.gmap"@)
                &&& r@[1].gmap_contents@ == "_ = forbidden\n"@
            },
            None => true,
        },
{
    let mut out: Vec<SeedDir> = Vec::new();
    out.push(crate::project::add_tenant(bundle, selection.tenant.as_str()));
    match &selection.team {
        Some(team) => {
            if !team.as_str().is_empty() {
                out.push(crate::project::add_team(bundle, selection.tenant.as_str(), team.as_str()));
            }
        },
        None => {},
    }
    out
}

/// The distinct manifest names, in increasing order (the order they are copied in).
pub fn manifest_targets(names: Vec<String>) -> (r: Vec<String>)
    ensures
        sorted_by(texts(r@), text_order()),
        texts(r@).to_set() == texts(names@).to_set(),
{
    proof {
        lemma_rank_of_string();
    }
    ranked_set(names)
}

/// Where the resolver writes a manifest and where the plan copies it: `state/resolved/{name}`
/// and `resolved/{name}` under the bundle.
pub fn manifest_copy_paths(bundle: &str, name: &str) -> (r: (String, String))
    ensures
        r.0@ == join(join(join(bundle@, "state"@), "resolved"@), name@),
        r.1@ == join(join(bundle@, "resolved"@), name@),
{
    let state = path_join(bundle, "state");
    let resolved = path_join(state.as_str(), "resolved");
    let src = path_join(resolved.as_str(), name);
    let dst_dir = path_join(bundle, "resolved");
    let dst = path_join(dst_dir.as_str(), name);
    (src, dst)
}

/// Refuses to copy a manifest that the resolver did not write.
pub fn require_manifest(src: &String, exists: bool) -> (r: Result<(), WizardError>)
    ensures
        exists <==> r is Ok,
        !exists ==> r == Err::<(), WizardError>(WizardError::ManifestMissing(*src)),
{
    if exists {
        Ok(())
    } else {
        Err(WizardError::ManifestMissing(src.clone()))
    }
}

} // verus!

verus! {

use crate::text::{starts_with, strip_prefix, text_strip_prefix, text_has_char, trim_start_by, trim_end_by, is_char, strip_all_prefix, text_strip_all_prefix, prefix_of, text_prefix};
use crate::slug::{slug_of, slug_text};

/// Maps a `repo://` or `store://` target to an OCI reference: a target that already names a
/// repository with a tag or digest is kept; otherwise it is placed under `base`, if there is one.
pub open spec fn registry_target(target: Seq<char>, base: Option<Seq<char>>) -> Option<Seq<char>> {
    if target.contains('/') && (target.contains('@') || target.contains(':')) {
        Some(target)
    } else {
        match base {
            Some(b) => Some(trim_end_by(b, is_char('/')) + "/"@ + trim_start_by(target, is_char('/'))),
            None => None,
        }
    }
}

/// The OCI reference of a `repo://` or `store://` target (see `registry_target`).
pub fn map_registry_target(target: &str, base: Option<String>) -> (r: Option<String>)
    ensures
        opt_text(r) == registry_target(target@, opt_text(base)),
        !target@.contains('/') ==> (r is Some <==> base is Some),
        !target@.contains('/') && base is Some ==> (r matches Some(m) && m@ == trim_end_by(base->0@, is_char('/')) + "/"@
            + trim_start_by(target@, is_char('/'))),
        base is None && r is Some ==> target@.contains('/') && opt_text(r) == Some(target@),
{
    if text_has_char(target, '/') && (text_has_char(target, '@') || text_has_char(target, ':')) {
        return Some(owned(target));
    }
    let base = base?;
    let normalized_base = crate::text::text_trim_end_char(base.as_str(), '/');
    let normalized_target = crate::text::text_trim_start_char(target, '/');
    Some(concat3(normalized_base.as_str(), "/", normalized_target.as_str()))
}

/// The OCI reference a pack reference is fetched from, or the error it is refused with.
pub open spec fn pack_reference_target(
    reference: Seq<char>,
    repo_base: Option<Seq<char>>,
    store_base: Option<Seq<char>>,
) -> Result<Seq<char>, Seq<char>> {
    let t = trimmed(reference);
    match strip_prefix(t, "oci://"@) {
        Some(rest) => Ok(rest),
        None => match strip_prefix(t, "repo://"@) {
            Some(rest) => match registry_target(rest, repo_base) {
                Some(m) => Ok(m),
                None => Err("repo:// reference "@ + t + " requires GREENTIC_REPO_REGISTRY_BASE to map to OCI"@),
            },
            None => match strip_prefix(t, "store://"@) {
                Some(rest) => match registry_target(rest, store_base) {
                    Some(m) => Ok(m),
                    None => Err("store:// reference "@ + t + " requires GREENTIC_STORE_REGISTRY_BASE to map to OCI"@),
                },
                None => Ok(t),
            },
        },
    }
}

/// A `repo://` or `store://` target is kept as it is only when it names a repository path
/// (a `/`) and a tag or digest (`@` or `:`); any other target goes under the registry base,
/// with the base's trailing and the target's leading slashes dropped and one `/` between
/// them, and cannot be mapped without a base. In particular, a target without `/` always goes
/// under the base, tagged or not.
pub proof fn law_registry_targets_go_under_the_base(target: Seq<char>, base: Option<Seq<char>>)
    ensures
        target.contains('/') && (target.contains('@') || target.contains(':')) ==> registry_target(target, base)
            == Some(target),
        !(target.contains('/') && (target.contains('@') || target.contains(':'))) ==> match base {
            Some(b) => registry_target(target, base) == Some(
                trim_end_by(b, is_char('/')) + "/"@ + trim_start_by(target, is_char('/')),
            ),
            None => registry_target(target, base) is None,
        },
{
}

/// A `repo://` reference whose target has no `/` is placed under the repo registry base when
/// one is given, and refused without one; likewise `store://` under the store base.
pub proof fn law_unqualified_references_use_the_base(
    reference: Seq<char>,
    repo_base: Option<Seq<char>>,
    store_base: Option<Seq<char>>,
)
    ensures
        strip_prefix(trimmed(reference), "repo://"@) is Some && !strip_prefix(trimmed(reference), "repo://"@)->0.contains(
            '/',
        ) ==> match repo_base {
            Some(b) => pack_reference_target(reference, repo_base, store_base) == Ok::<Seq<char>, Seq<char>>(
                trim_end_by(b, is_char('/')) + "/"@ + trim_start_by(
                    strip_prefix(trimmed(reference), "repo://"@)->0,
                    is_char('/'),
                ),
            ),
            None => pack_reference_target(reference, repo_base, store_base) is Err,
        },
        strip_prefix(trimmed(reference), "store://"@) is Some && !strip_prefix(trimmed(reference), "store://"@)->0.contains(
            '/',
        ) ==> match store_base {
            Some(b) => pack_reference_target(reference, repo_base, store_base) == Ok::<Seq<char>, Seq<char>>(
                trim_end_by(b, is_char('/')) + "/"@ + trim_start_by(
                    strip_prefix(trimmed(reference), "store://"@)->0,
                    is_char('/'),
                ),
            ),
            None => pack_reference_target(reference, repo_base, store_base) is Err,
        },
{
    reveal_strlit("oci://");
    reveal_strlit("repo://");
    reveal_strlit("store://");
    let t = trimmed(reference);
    if t.len() > 0 {
        assert(starts_with(t, "oci://"@) ==> t.take(6)[0] == t[0] && t[0] == 'o');
        assert(starts_with(t, "repo://"@) ==> t.take(7)[0] == t[0] && t[0] == 'r');
        assert(starts_with(t, "store://"@) ==> t.take(8)[0] == t[0] && t[0] == 's');
    }
}

/// The OCI reference a pack reference is fetched from: `oci://` references directly, `repo://`
/// and `store://` references under their registry base; other references as they are.
pub fn map_pack_reference(reference: &str, repo_base: Option<String>, store_base: Option<String>) -> (r: Result<String, String>)
    ensures
        match pack_reference_target(reference@, opt_text(repo_base), opt_text(store_base)) {
            Ok(m) => r is Ok && r->Ok_0@ == m,
            Err(e) => r is Err && r->Err_0@ == e,
        },
{
    let trimmed_ref = text_trim(reference);
    if let Some(rest) = text_strip_prefix(trimmed_ref.as_str(), "oci://") {
        return Ok(rest);
    }
    if let Some(rest) = text_strip_prefix(trimmed_ref.as_str(), "repo://") {
        return match map_registry_target(rest.as_str(), repo_base) {
            Some(m) => Ok(m),
            None => Err(concat3("repo:// reference ", trimmed_ref.as_str(), " requires GREENTIC_REPO_REGISTRY_BASE to map to OCI")),
        };
    }
    if let Some(rest) = text_strip_prefix(trimmed_ref.as_str(), "store://") {
        return match map_registry_target(rest.as_str(), store_base) {
            Some(m) => Ok(m),
            None => Err(concat3("store:// reference ", trimmed_ref.as_str(), " requires GREENTIC_STORE_REGISTRY_BASE to map to OCI")),
        };
    }
    Ok(trimmed_ref)
}

/// `{slug}-{digest}.gtpack`: the reference's slug cut to 40 characters and the first 12
/// characters of the digest without its `sha256:` prefix.
pub open spec fn pack_file_name(reference: Seq<char>, digest: Seq<char>) -> Seq<char> {
    prefix_of(slug_of(reference), 40) + "-"@ + prefix_of(strip_all_prefix(digest, "sha256:"@), 12) + ".gtpack"@
}

/// The file name a fetched pack is stored under in the bundle.
pub fn deterministic_pack_file_name(reference: &str, digest: &str) -> (r: String)
    ensures
        r@ == pack_file_name(reference@, digest@),
{
    let slug = slug_text(reference);
    let slug = text_prefix(slug.as_str(), 40);
    let stripped = text_strip_all_prefix(digest, "sha256:");
    let short_digest = text_prefix(stripped.as_str(), 12);
    let a = concat3(slug.as_str(), "-", short_digest.as_str());
    concat2(a.as_str(), ".gtpack")
}

} // verus!

verus! {

/// A pack fetched for a plan: its reference as given and as fetched, the digest it resolved
/// to, what its manifest declares, where it was cached and where it goes in the bundle.
#[derive(Clone, Debug)]
pub struct ResolvedPackInfo {
    pub source_ref: String,
    pub mapped_ref: String,
    pub resolved_digest: String,
    pub pack_id: String,
    pub entry_flows: Vec<String>,
    pub cached_path: String,
    pub output_path: String,
}

/// What executing a plan did: the bundle, the packs fetched into it, and the resolved
/// manifests copied.
#[derive(Clone, Debug)]
pub struct WizardExecutionReport {
    pub bundle: String,
    pub resolved_packs: Vec<ResolvedPackInfo>,
    pub resolved_manifests: Vec<String>,
}

} // verus!

verus! {

/// A pack that a catalog offers.
#[derive(Clone, Debug)]
pub struct PackListing {
    pub id: String,
    pub label: String,
    pub reference: String,
}

/// A source of pack listings for the wizard.
pub trait CatalogSource {
    fn list(&self) -> Vec<PackListing>;
}

/// The built-in catalog.
#[derive(Clone, Debug, Default)]
pub struct StaticCatalogSource;

/// The listings of the built-in catalog, as (id, label, reference).
pub open spec fn static_listings() -> Seq<(Seq<char>, Seq<char>, Seq<char>)> {
    seq![
        ("messaging-telegram"@, "Messaging Telegram"@, "repo://messaging/providers/messaging-telegram@latest"@),
        ("messaging-slack"@, "Messaging Slack"@, "repo://messaging/providers/messaging-slack@latest"@),
    ]
}

fn listing(id: &str, label: &str, reference: &str) -> (l: PackListing)
    ensures
        l.id@ == id@,
        l.label@ == label@,
        l.reference@ == reference@,
{
    PackListing { id: owned(id), label: owned(label), reference: owned(reference) }
}

impl CatalogSource for StaticCatalogSource {
    /// Listing only; fetching is delegated to the distributor client when a plan runs.
    fn list(&self) -> (r: Vec<PackListing>)
        ensures
            r@.map_values(|l: PackListing| (l.id@, l.label@, l.reference@)) == static_listings(),
    {
        let mut v: Vec<PackListing> = Vec::new();
        v.push(listing("messaging-telegram", "Messaging Telegram", "repo://messaging/providers/messaging-telegram@latest"));
        v.push(listing("messaging-slack", "Messaging Slack", "repo://messaging/providers/messaging-slack@latest"));
        assert(v@.map_values(|l: PackListing| (l.id@, l.label@, l.reference@)) =~= static_listings());
        v
    }
}

} // verus!
