//! Routing of webhook requests received by the demo's HTTP ingress:
//! `/{domain}/ingress/{provider}/{tenant}/{team?}`.
use vstd::prelude::*;
use crate::domains::{Domain, domain_from_name_any_case, domain_named};
use crate::json::{Json, JsonV, jv, jstr};
use crate::text::{chars_of, lower_all, owned, string_from, text_eq, text_lower, texts};

verus! {

/// Where a webhook request goes.
#[derive(Clone, Debug)]
pub struct IngressRoute {
    pub domain: Domain,
    pub provider: String,
    pub tenant: String,
    pub team: String,
}

/// A refused request: its HTTP status and message.
#[derive(Clone, Debug)]
pub struct IngressError {
    pub status: u16,
    pub message: String,
}

/// The state of splitting a path at `/`: the segments closed so far and the one being read.
pub open spec fn split_state(s: Seq<char>) -> (Seq<Seq<char>>, Seq<char>)
    decreases s.len(),
{
    if s.len() == 0 {
        (Seq::empty(), Seq::empty())
    } else {
        let (done, cur) = split_state(s.drop_last());
        if s.last() == '/' {
            if cur.len() > 0 {
                (done.push(cur), Seq::empty())
            } else {
                (done, Seq::empty())
            }
        } else {
            (done, cur.push(s.last()))
        }
    }
}

/// The non-empty segments of a path, between slashes.
pub open spec fn path_segments(s: Seq<char>) -> Seq<Seq<char>> {
    let (done, cur) = split_state(s);
    if cur.len() > 0 {
        done.push(cur)
    } else {
        done
    }
}

/// The non-empty segments of a path.
pub fn segments_of(path: &str) -> (r: Vec<String>)
    ensures
        texts(r@) == path_segments(path@),
{
    let v = chars_of(path);
    let mut done: Vec<String> = Vec::new();
    let mut cur: Vec<char> = Vec::new();
    let mut i: usize = 0;
    while i < v.len()
        invariant
            i <= v@.len(),
            v@ == path@,
            (texts(done@), cur@) == split_state(v@.take(i as int)),
        decreases v@.len() - i,
    {
        proof {
            assert(v@.take(i + 1).drop_last() =~= v@.take(i as int));
        }
        if v[i] == '/' {
            if cur.len() > 0 {
                let ghost before = done@;
                done.push(string_from(&cur));
                proof {
                    assert(texts(done@) =~= texts(before).push(cur@));
                }
                cur = Vec::new();
                proof {
                    assert(cur@ =~= Seq::<char>::empty());
                }
            }
        } else {
            cur.push(v[i]);
        }
        i += 1;
    }
    proof {
        assert(v@.take(i as int) =~= v@);
    }
    if cur.len() > 0 {
        let ghost before = done@;
        done.push(string_from(&cur));
        proof {
            assert(texts(done@) =~= texts(before).push(cur@));
        }
    }
    done
}

/// How a request is routed: only GET and POST; a path of at least a domain, `ingress`, a
/// provider and a tenant; a known domain that is enabled; the team `default` unless given.
pub open spec fn ingress_route(method: Seq<char>, path: Seq<char>, enabled: Seq<Domain>) -> Result<
    (Domain, Seq<char>, Seq<char>, Seq<char>),
    (u16, Seq<char>),
> {
    let s = path_segments(path);
    if method != "POST"@ && method != "GET"@ {
        Err((405u16, "only GET/POST allowed"@))
    } else if s.len() < 4 || lower_all(s[1]) != lower_all("ingress"@) {
        Err((400u16, "expected /{domain}/ingress/{provider}/{tenant}/{team?}"@))
    } else {
        match domain_named(lower_all(s[0])) {
            None => Err((404u16, "unknown domain"@)),
            Some(d) => if !enabled.contains(d) {
                Err((404u16, "domain disabled"@))
            } else {
                Ok((d, s[2], s[3], if s.len() > 4 { s[4] } else { "default"@ }))
            },
        }
    }
}

fn refused(status: u16, message: &str) -> (r: IngressError)
    ensures
        r.status == status,
        r.message@ == message@,
{
    IngressError { status, message: owned(message) }
}

fn domain_enabled(enabled: &Vec<Domain>, d: Domain) -> (r: bool)
    ensures
        r == enabled@.contains(d),
{
    let mut i: usize = 0;
    while i < enabled.len()
        invariant
            i <= enabled@.len(),
            forall|k: int| 0 <= k < i ==> enabled@[k] != d,
        decreases enabled@.len() - i,
    {
        if enabled[i] == d {
            return true;
        }
        i += 1;
    }
    false
}

/// Routes a webhook request (see `ingress_route`).
pub fn route_ingress(method: &str, path: &str, enabled: &Vec<Domain>) -> (r: Result<IngressRoute, IngressError>)
    ensures
        match ingress_route(method@, path@, enabled@) {
            Ok((d, provider, tenant, team)) => r matches Ok(route) && route.domain == d && route.provider@ == provider
                && route.tenant@ == tenant && route.team@ == team,
            Err((status, message)) => r matches Err(e) && e.status == status && e.message@ == message,
        },
{
    if !text_eq(method, "POST") && !text_eq(method, "GET") {
        return Err(refused(405, "only GET/POST allowed"));
    }
    let segments = segments_of(path);
    let ghost s = texts(segments@);
    if segments.len() < 4 {
        return Err(refused(400, "expected /{domain}/ingress/{provider}/{tenant}/{team?}"));
    }
    let second = text_lower(segments[1].as_str());
    let ingress = text_lower("ingress");
    if !text_eq(second.as_str(), ingress.as_str()) {
        return Err(refused(400, "expected /{domain}/ingress/{provider}/{tenant}/{team?}"));
    }
    let domain = match domain_from_name_any_case(segments[0].as_str()) {
        Some(d) => d,
        None => return Err(refused(404, "unknown domain")),
    };
    if !domain_enabled(enabled, domain) {
        return Err(refused(404, "domain disabled"));
    }
    let team = if segments.len() > 4 {
        segments[4].clone()
    } else {
        owned("default")
    };
    proof {
        assert(s[0] == segments@[0]@ && s[1] == segments@[1]@ && s[2] == segments@[2]@ && s[3] == segments@[3]@);
        if segments@.len() > 4 {
            assert(s[4] == segments@[4]@);
        }
    }
    Ok(IngressRoute { domain, provider: segments[2].clone(), tenant: segments[3].clone(), team })
}

/// The flow that handles a provider's webhooks: `handle-webhook` when the provider has it,
/// else `ingest`; refused when it has neither.
pub fn ingress_flow(has_handle_webhook: bool, has_ingest: bool) -> (r: Result<String, IngressError>)
    ensures
        has_handle_webhook ==> (r matches Ok(f) && f@ == "handle-webhook"@),
        !has_handle_webhook && has_ingest ==> (r matches Ok(f) && f@ == "ingest"@),
        !has_handle_webhook && !has_ingest ==> (r matches Err(e) && e.status == 404 && e.message@ == "no ingress flow available"@),
{
    if has_handle_webhook {
        Ok(owned("handle-webhook"))
    } else if has_ingest {
        Ok(owned("ingest"))
    } else {
        Err(refused(404, "no ingress flow available"))
    }
}

/// The body of a refused request.
pub fn error_body(message: &str) -> (r: Json)
    ensures
        jv(r) == JsonV::Object(seq![("success"@, JsonV::Bool(false)), ("message"@, JsonV::Str(message@))]),
{
    let mut fields: Vec<(String, Json)> = Vec::new();
    fields.push((owned("success"), Json::Bool(false)));
    fields.push((owned("message"), jstr(message)));
    proof {
        crate::json::lemma_jv_fields(fields@);
        assert(crate::json::jv_fields(fields@) =~= seq![("success"@, JsonV::Bool(false)), ("message"@, JsonV::Str(message@))]);
    }
    Json::Object(fields)
}

/// The status of a flow's outcome: 200 when it succeeded, else 502.
pub fn outcome_status(success: bool) -> (r: u16)
    ensures
        r == if success { 200u16 } else { 502u16 },
{
    if success { 200 } else { 502 }
}

/// The body of a flow's outcome.
pub fn flow_outcome_body(success: bool, mode: &str, output: Json, raw: Json, error: Json) -> (r: Json)
    ensures
        jv(r) == JsonV::Object(seq![
            ("success"@, JsonV::Bool(success)),
            ("mode"@, JsonV::Str(mode@)),
            ("output"@, jv(output)),
            ("raw"@, jv(raw)),
            ("error"@, jv(error)),
        ]),
{
    let ghost (o, w, e) = (jv(output), jv(raw), jv(error));
    let mut fields: Vec<(String, Json)> = Vec::new();
    fields.push((owned("success"), Json::Bool(success)));
    fields.push((owned("mode"), jstr(mode)));
    fields.push((owned("output"), output));
    fields.push((owned("raw"), raw));
    fields.push((owned("error"), error));
    proof {
        crate::json::lemma_jv_fields(fields@);
        assert(crate::json::jv_fields(fields@) =~= seq![
            ("success"@, JsonV::Bool(success)),
            ("mode"@, JsonV::Str(mode@)),
            ("output"@, o),
            ("raw"@, w),
            ("error"@, e),
        ]);
    }
    Json::Object(fields)
}

/// What a routed request asks of the runner: one run of `flow` of the route's provider, in the
/// route's domain, for the route's tenant and team.
#[derive(Clone, Debug)]
pub struct IngressInvocation {
    pub domain: Domain,
    pub provider: String,
    pub flow: String,
    pub tenant: String,
    pub team: String,
}

/// What the runner gave back for an invocation: the flow's outcome, or its error message.
#[derive(Debug)]
pub enum InvocationResult {
    Outcome { success: bool, mode: String, output: Json, raw: Json, error: Json },
    Failed(String),
}

/// The answer to a request: its HTTP status and JSON body.
#[derive(Debug)]
pub struct IngressResponse {
    pub status: u16,
    pub body: Json,
}

/// The document of a refused request's body.
pub open spec fn error_doc(message: Seq<char>) -> JsonV {
    JsonV::Object(seq![("success"@, JsonV::Bool(false)), ("message"@, JsonV::Str(message))])
}

/// The document of a flow outcome's body.
pub open spec fn outcome_doc(success: bool, mode: Seq<char>, output: JsonV, raw: JsonV, error: JsonV) -> JsonV {
    JsonV::Object(seq![
        ("success"@, JsonV::Bool(success)),
        ("mode"@, JsonV::Str(mode)),
        ("output"@, output),
        ("raw"@, raw),
        ("error"@, error),
    ])
}

/// The invocation a routed request makes: the flow `ingress_flow` picks for the provider, run
/// once for the route's tenant and team; refused with 404 when the provider has neither flow.
pub fn ingress_invocation(route: &IngressRoute, has_handle_webhook: bool, has_ingest: bool) -> (r: Result<
    IngressInvocation,
    IngressError,
>)
    ensures
        !has_handle_webhook && !has_ingest ==> (r matches Err(e) && e.status == 404
            && e.message@ == "no ingress flow available"@),
        has_handle_webhook || has_ingest ==> (r matches Ok(inv) && inv.domain == route.domain
            && inv.provider@ == route.provider@ && inv.tenant@ == route.tenant@ && inv.team@ == route.team@
            && inv.flow@ == (if has_handle_webhook { "handle-webhook"@ } else { "ingest"@ })),
{
    let flow = ingress_flow(has_handle_webhook, has_ingest)?;
    Ok(IngressInvocation {
        domain: route.domain,
        provider: route.provider.clone(),
        flow,
        tenant: route.tenant.clone(),
        team: route.team.clone(),
    })
}

/// The answer to a refused request: its status, with `success: false` and its message.
pub fn refusal_response(e: &IngressError) -> (r: IngressResponse)
    ensures
        r.status == e.status,
        jv(r.body) == error_doc(e.message@),
{
    IngressResponse { status: e.status, body: error_body(e.message.as_str()) }
}

/// The answer once the flow ran: 200 with the outcome when it succeeded, 502 with the outcome
/// when it did not, and 502 with the runner's message when the invocation itself failed.
pub fn ingress_response(result: InvocationResult) -> (r: IngressResponse)
    ensures
        match result {
            InvocationResult::Outcome { success, mode, output, raw, error } => r.status == (if success {
                200u16
            } else {
                502u16
            }) && jv(r.body) == outcome_doc(success, mode@, jv(output), jv(raw), jv(error)),
            InvocationResult::Failed(message) => r.status == 502 && jv(r.body) == error_doc(message@),
        },
{
    match result {
        InvocationResult::Outcome { success, mode, output, raw, error } => IngressResponse {
            status: outcome_status(success),
            body: flow_outcome_body(success, mode.as_str(), output, raw, error),
        },
        InvocationResult::Failed(message) => IngressResponse { status: 502, body: error_body(message.as_str()) },
    }
}

} // verus!
