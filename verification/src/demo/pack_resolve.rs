//! Finding a demo pack and the flow to run in it.
use vstd::prelude::*;
use crate::paths::{join, path_join};
use crate::text::{concat2, concat3, concat4, join_texts, joined, owned, text_eq, texts};

verus! {

/// Where the entry flows of a pack were declared.
#[derive(Clone, Copy, Debug, PartialEq, Eq, Structural)]
pub enum EntryFlowSource {
    MetaEntryFlows,
    FlowsList,
}

/// The name of the place the entry flows come from, as error messages show it.
pub open spec fn source_description(s: EntryFlowSource) -> Seq<char> {
    match s {
        EntryFlowSource::MetaEntryFlows => "meta.entry_flows"@,
        EntryFlowSource::FlowsList => "manifest.flows[*].id/entrypoints"@,
    }
}

impl EntryFlowSource {
    /// The name of the place the entry flows come from.
    pub fn description(self) -> (r: &'static str)
        ensures
            r@ == source_description(self),
    {
        match self {
            EntryFlowSource::MetaEntryFlows => "meta.entry_flows",
            EntryFlowSource::FlowsList => "manifest.flows[*].id/entrypoints",
        }
    }
}

/// The manifest metadata of a pack that the demo runner reads.
#[derive(Clone, Debug)]
pub struct PackMeta {
    pub pack_id: String,
    pub entry_flows: Vec<String>,
}

/// A pack the demo can run.
#[derive(Clone, Debug)]
pub struct DemoPack {
    pub pack_id: String,
    pub pack_path: String,
    pub entry_flows: Vec<String>,
    pub default_flow_source: EntryFlowSource,
}

/// Why no flow could be selected.
#[derive(Clone, Debug)]
pub enum FlowError {
    /// The pack declares no entry flow.
    NoFlows(EntryFlowSource),
    /// The requested flow is not among the entry flows.
    Undeclared { flow: String, source: EntryFlowSource, available: Vec<String> },
}

/// The message of a flow selection error.
pub open spec fn flow_error_text(e: FlowError) -> Seq<char> {
    match e {
        FlowError::NoFlows(source) => "default flow not declared ("@ + source_description(source)
            + ") and no flows available; available flows: []"@,
        FlowError::Undeclared { flow, source, available } => "flow `"@ + flow@ + "` not declared via "@
            + source_description(source) + "; available flows: "@ + joined(texts(available@), ", "@),
    }
}

impl FlowError {
    /// The message shown for the error.
    pub fn message(&self) -> (r: String)
        ensures
            r@ == flow_error_text(*self),
    {
        match self {
            FlowError::NoFlows(source) => concat3(
                "default flow not declared (",
                source.description(),
                ") and no flows available; available flows: []",
            ),
            FlowError::Undeclared { flow, source, available } => {
                let list = join_texts(available, ", ");
                let head = concat4("flow `", flow.as_str(), "` not declared via ", source.description());
                concat3(head.as_str(), "; available flows: ", list.as_str())
            },
        }
    }
}

fn contains_text(items: &Vec<String>, x: &str) -> (r: bool)
    ensures
        r == texts(items@).contains(x@),
{
    let mut i: usize = 0;
    while i < items.len()
        invariant
            i <= items@.len(),
            forall|k: int| 0 <= k < i ==> items@[k]@ != x@,
        decreases items@.len() - i,
    {
        if text_eq(items[i].as_str(), x) {
            proof {
                assert(texts(items@)[i as int] == x@);
            }
            return true;
        }
        i += 1;
    }
    proof {
        if texts(items@).contains(x@) {
            let k = choose|k: int| 0 <= k < texts(items@).len() && texts(items@)[k] == x@;
            assert(items@[k]@ == x@);
        }
    }
    false
}

impl DemoPack {
    /// The flow to run: the requested one when the pack declares it, else the first entry
    /// flow. Refused when the pack declares no entry flow or not the requested one.
    pub fn select_flow(&self, requested: Option<&str>) -> (r: Result<String, FlowError>)
        ensures
            self.entry_flows@.len() == 0 ==> (r matches Err(FlowError::NoFlows(s)) && s == self.default_flow_source),
            self.entry_flows@.len() > 0 ==> match requested {
                None => r is Ok && r->Ok_0@ == self.entry_flows@[0]@,
                Some(flow) => if texts(self.entry_flows@).contains(flow@) {
                    r is Ok && r->Ok_0@ == flow@
                } else {
                    r matches Err(FlowError::Undeclared { flow: f, source, available }) && f@ == flow@
                        && source == self.default_flow_source && texts(available@) == texts(self.entry_flows@)
                },
            },
    {
        if self.entry_flows.len() == 0 {
            return Err(FlowError::NoFlows(self.default_flow_source));
        }
        match requested {
            Some(flow) => {
                if contains_text(&self.entry_flows, flow) {
                    Ok(owned(flow))
                } else {
                    Err(FlowError::Undeclared {
                        flow: owned(flow),
                        source: self.default_flow_source,
                        available: crate::text::copy_texts(&self.entry_flows),
                    })
                }
            },
            None => Ok(self.entry_flows[0].clone()),
        }
    }
}

/// Why a pack could not be loaded.
#[derive(Clone, Debug)]
pub enum PackError {
    /// No pack of that name under the packs directory.
    NotFound { pack_name: String, packs_dir: String },
    /// The pack's manifest could not be read.
    ManifestUnreadable { pack_path: String },
}

/// The message of a pack error.
pub open spec fn pack_error_text(e: PackError) -> Seq<char> {
    match e {
        PackError::NotFound { pack_name, packs_dir } => "pack "@ + pack_name@ + " not found under "@ + packs_dir@,
        PackError::ManifestUnreadable { pack_path } => "failed to read manifest for pack "@ + pack_path@,
    }
}

impl PackError {
    /// The message shown for the error.
    pub fn message(&self) -> (r: String)
        ensures
            r@ == pack_error_text(*self),
    {
        match self {
            PackError::NotFound { pack_name, packs_dir } => concat4(
                "pack ",
                pack_name.as_str(),
                " not found under ",
                packs_dir.as_str(),
            ),
            PackError::ManifestUnreadable { pack_path } => concat2(
                "failed to read manifest for pack ",
                pack_path.as_str(),
            ),
        }
    }
}

/// The path of a pack under the packs directory.
pub fn pack_path(packs_dir: &str, pack_name: &str) -> (r: String)
    ensures
        r@ == join(packs_dir@, pack_name@),
{
    path_join(packs_dir, pack_name)
}

/// The demo pack `pack_name` under `packs_dir`, given whether its path exists and, when it
/// does, its manifest metadata (None when the manifest could not be read). Its default flows
/// are the metadata's entry flows.
pub fn resolve_pack(packs_dir: &str, pack_name: &str, pack_exists: bool, meta: Option<PackMeta>) -> (r: Result<
    DemoPack,
    PackError,
>)
    ensures
        !pack_exists ==> (r matches Err(PackError::NotFound { pack_name: n, packs_dir: d }) && n@ == pack_name@
            && d@ == packs_dir@),
        pack_exists && meta is None ==> (r matches Err(PackError::ManifestUnreadable { pack_path: p }) && p@ == join(
            packs_dir@,
            pack_name@,
        )),
        pack_exists && meta is Some ==> (r matches Ok(pack) && pack.pack_id == meta->Some_0.pack_id
            && pack.pack_path@ == join(packs_dir@, pack_name@) && pack.entry_flows == meta->Some_0.entry_flows
            && pack.default_flow_source == EntryFlowSource::MetaEntryFlows),
{
    if !pack_exists {
        return Err(PackError::NotFound { pack_name: owned(pack_name), packs_dir: owned(packs_dir) });
    }
    let path = pack_path(packs_dir, pack_name);
    match meta {
        None => Err(PackError::ManifestUnreadable { pack_path: path }),
        Some(meta) => Ok(DemoPack {
            pack_id: meta.pack_id,
            pack_path: path,
            entry_flows: meta.entry_flows,
            default_flow_source: EntryFlowSource::MetaEntryFlows,
        }),
    }
}

} // verus!
