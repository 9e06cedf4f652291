//! Manifests of agents.

use crate::agents::{
    reference_text, AgentArtifactDigest, AgentArtifacts, AgentDigest, AgentPorts, AgentRef,
    AgentRefModel, AgentSchemaBundle, ArtifactModel, DescribedAgent, DescribedModel,
};
use crate::digest::{blake3_hex, blake3_hex_of, push_text, utf8};
use crate::json::Json;
use crate::paths::{join_path, joined_path, parent, parent_of};
use crate::registry::dirs::{is_listed, listed};
use crate::text::{
    concat, concat3, copy_opt, copy_texts, decimal, decimal_text, opt_text, same, texts,
};
use vstd::prelude::*;

verus! {

#[allow(inconsistent_fields)]
#[derive(Debug)]
pub enum AgentRegistryError {
    NotFound { reference: AgentRef },
    IoPath { path: String, source: String },
    Io { path: String, source: String },
    Parse { path: String, source: String },
    Mismatch { reference: AgentRef, detail: String },
    Schema { reference: AgentRef, detail: String },
    Artifact { reference: AgentRef, detail: String },
    Tools { detail: String },
}

pub ghost enum RegistryFault {
    NotFound(AgentRefModel),
    IoPath(Seq<char>, Seq<char>),
    Io(Seq<char>, Seq<char>),
    Parse(Seq<char>, Seq<char>),
    Mismatch(AgentRefModel, Seq<char>),
    Schema(AgentRefModel, Seq<char>),
    Artifact(AgentRefModel, Seq<char>),
    Tools(Seq<char>),
}

pub open spec fn registry_text(f: RegistryFault) -> Seq<char> {
    match f {
        RegistryFault::NotFound(r) => "agent manifest not found for "@ + reference_text(r),
        RegistryFault::IoPath(p, s) => p + ": "@ + s,
        RegistryFault::Io(p, s) => "failed to read manifest "@ + p + ": "@ + s,
        RegistryFault::Parse(p, s) => "failed to parse manifest "@ + p + ": "@ + s,
        RegistryFault::Mismatch(r, d) => "agent mismatch for "@ + reference_text(r) + ": "@ + d,
        RegistryFault::Schema(r, d) => "schema error for "@ + reference_text(r) + ": "@ + d,
        RegistryFault::Artifact(r, d) => "artifact error for "@ + reference_text(r) + ": "@ + d,
        RegistryFault::Tools(d) => "tools.json error: "@ + d,
    }
}

fn told_of(what: &str, whom: &str, detail: &str) -> (r: String)
    ensures
        r@ == what@ + whom@ + ": "@ + detail@,
{
    let mut m = concat3(what, whom, ": ");
    m.append(detail);
    m
}

impl AgentRegistryError {
    pub open spec fn view(self) -> RegistryFault {
        match self {
            AgentRegistryError::NotFound { reference } => RegistryFault::NotFound(reference@),
            AgentRegistryError::IoPath { path, source } => RegistryFault::IoPath(path@, source@),
            AgentRegistryError::Io { path, source } => RegistryFault::Io(path@, source@),
            AgentRegistryError::Parse { path, source } => RegistryFault::Parse(path@, source@),
            AgentRegistryError::Mismatch { reference, detail } => RegistryFault::Mismatch(
                reference@,
                detail@,
            ),
            AgentRegistryError::Schema { reference, detail } => RegistryFault::Schema(
                reference@,
                detail@,
            ),
            AgentRegistryError::Artifact { reference, detail } => RegistryFault::Artifact(
                reference@,
                detail@,
            ),
            AgentRegistryError::Tools { detail } => RegistryFault::Tools(detail@),
        }
    }

    pub fn message(&self) -> (r: String)
        ensures
            r@ == registry_text(self@),
    {
        match self {
            AgentRegistryError::NotFound { reference } => concat(
                "agent manifest not found for ",
                reference.spec().as_str(),
            ),
            AgentRegistryError::IoPath { path, source } => concat3(
                path.as_str(),
                ": ",
                source.as_str(),
            ),
            AgentRegistryError::Io { path, source } => told_of(
                "failed to read manifest ",
                path.as_str(),
                source.as_str(),
            ),
            AgentRegistryError::Parse { path, source } => told_of(
                "failed to parse manifest ",
                path.as_str(),
                source.as_str(),
            ),
            AgentRegistryError::Mismatch { reference, detail } => told_of(
                "agent mismatch for ",
                reference.spec().as_str(),
                detail.as_str(),
            ),
            AgentRegistryError::Schema { reference, detail } => told_of(
                "schema error for ",
                reference.spec().as_str(),
                detail.as_str(),
            ),
            AgentRegistryError::Artifact { reference, detail } => told_of(
                "artifact error for ",
                reference.spec().as_str(),
                detail.as_str(),
            ),
            AgentRegistryError::Tools { detail } => concat("tools.json error: ", detail.as_str()),
        }
    }
}

#[derive(Debug)]
pub struct EntrySpec {
    pub path: String,
    pub blake3: String,
}

#[derive(Debug)]
pub struct ArtifactSpec {
    pub path: String,
    pub blake3: String,
    pub version: Option<u32>,
}

/// A manifest as it is read.
#[derive(Debug)]
pub struct ManifestDoc {
    pub name: String,
    pub version: String,
    pub variant: Option<String>,
    pub agent_entry_native: Option<EntrySpec>,
    pub agent_entry_wasm: Option<EntrySpec>,
    pub inputs: Vec<String>,
    pub outputs: Vec<String>,
    pub schema: Option<Json>,
    pub entry_native: Option<EntrySpec>,
    pub entry_wasm: Option<EntrySpec>,
    pub caps_file: Option<String>,
    pub tools: Option<ArtifactSpec>,
}

pub open spec fn tools_version(t: ArtifactSpec) -> u32 {
    match t.version {
        Some(v) => v,
        None => 1,
    }
}

/// What a manifest says of the agent that was asked for.
pub open spec fn described(r: AgentRefModel, d: ManifestDoc, raw: Seq<char>) -> Result<
    DescribedModel,
    RegistryFault,
> {
    let variant = opt_text(d.variant);
    if d.name@ != r.name {
        Err(RegistryFault::Mismatch(r, "manifest declares agent '"@ + d.name@ + "'"@))
    } else if r.variant is Some && variant is Some && variant->0 != r.variant->0 {
        Err(
            RegistryFault::Mismatch(
                r,
                "variant mismatch (manifest "@ + variant->0 + ", requested "@ + r.variant->0
                    + ")"@,
            ),
        )
    } else if d.tools is Some && tools_version(d.tools->0) != 1 {
        Err(
            RegistryFault::Artifact(
                r,
                "unsupported tools.json version "@ + decimal(tools_version(d.tools->0) as nat)
                    + " (supported: 1)"@,
            ),
        )
    } else {
        Ok(
            DescribedModel {
                reference: AgentRefModel {
                    name: d.name@,
                    variant: if r.variant is Some {
                        r.variant
                    } else {
                        variant
                    },
                },
                version: d.version@,
                digest: blake3_hex(utf8(raw)),
                schema: match d.schema {
                    Some(j) => Some(j@),
                    None => None,
                },
                inputs: texts(d.inputs@),
                outputs: texts(d.outputs@),
                tools: match d.tools {
                    Some(t) => Some(
                        ArtifactModel {
                            path: t.path@,
                            blake3: t.blake3@,
                            version: tools_version(t),
                        },
                    ),
                    None => None,
                },
            },
        )
    }
}

pub fn build_described(reference: &AgentRef, doc: &ManifestDoc, raw: &str) -> (r: Result<
    DescribedAgent,
    AgentRegistryError,
>)
    ensures
        match (r, described(reference@, *doc, raw@)) {
            (Ok(a), Ok(m)) => a@ == m,
            (Err(e), Err(f)) => e@ == f,
            _ => false,
        },
{
    if !same(doc.name.as_str(), reference.name.as_str()) {
        return Err(
            AgentRegistryError::Mismatch {
                reference: reference.clone(),
                detail: concat3("manifest declares agent '", doc.name.as_str(), "'"),
            },
        );
    }
    match (&reference.variant, &doc.variant) {
        (Some(asked), Some(declared)) => {
            if !same(declared.as_str(), asked.as_str()) {
                let mut detail = concat3(
                    "variant mismatch (manifest ",
                    declared.as_str(),
                    ", requested ",
                );
                detail.append(asked.as_str());
                detail.append(")");
                return Err(
                    AgentRegistryError::Mismatch { reference: reference.clone(), detail },
                );
            }
        },
        _ => {},
    }
    let variant = match &reference.variant {
        Some(v) => Some(v.clone()),
        None => copy_opt(&doc.variant),
    };
    let mut bytes: Vec<u8> = Vec::new();
    push_text(&mut bytes, raw);
    assert(bytes@ =~= utf8(raw@));
    let digest = blake3_hex_of(&bytes);
    let tools = match &doc.tools {
        Some(t) => {
            let version: u32 = match t.version {
                Some(v) => v,
                None => 1,
            };
            if version != 1 {
                return Err(
                    AgentRegistryError::Artifact {
                        reference: reference.clone(),
                        detail: concat3(
                            "unsupported tools.json version ",
                            decimal_text(version as u64).as_str(),
                            " (supported: 1)",
                        ),
                    },
                );
            }
            Some(
                AgentArtifactDigest { path: t.path.clone(), blake3: t.blake3.clone(), version },
            )
        },
        None => None,
    };
    Ok(
        DescribedAgent {
            reference: AgentRef::new(doc.name.clone(), variant),
            version: doc.version.clone(),
            digest,
            schema: AgentSchemaBundle {
                with: match &doc.schema {
                    Some(j) => Some(j.clone()),
                    None => None,
                },
            },
            ports: AgentPorts { inputs: copy_texts(&doc.inputs), outputs: copy_texts(&doc.outputs) },
            artifacts: AgentArtifacts { tools },
        },
    )
}

#[derive(Debug)]
pub struct AgentBinary {
    pub path: String,
    pub blake3: String,
}

#[derive(Debug)]
pub struct AgentArtifact {
    pub path: String,
    pub blake3: String,
    pub version: u32,
}

#[derive(Debug)]
pub struct AgentBundle {
    pub described: DescribedAgent,
    pub manifest_dir: String,
    pub wasm_entry: Option<AgentBinary>,
    pub native_entry: Option<AgentBinary>,
    pub policy_path: Option<String>,
    pub tools: Option<AgentArtifact>,
}

pub ghost struct BundleModel {
    pub described: DescribedModel,
    pub manifest_dir: Seq<char>,
    pub wasm_entry: Option<(Seq<char>, Seq<char>)>,
    pub native_entry: Option<(Seq<char>, Seq<char>)>,
    pub policy_path: Option<Seq<char>>,
    pub tools: Option<ArtifactModel>,
}

pub open spec fn binary_model(b: Option<AgentBinary>) -> Option<(Seq<char>, Seq<char>)> {
    match b {
        Some(x) => Some((x.path@, x.blake3@)),
        None => None,
    }
}

impl AgentBundle {
    pub open spec fn view(self) -> BundleModel {
        BundleModel {
            described: self.described@,
            manifest_dir: self.manifest_dir@,
            wasm_entry: binary_model(self.wasm_entry),
            native_entry: binary_model(self.native_entry),
            policy_path: opt_text(self.policy_path),
            tools: match self.tools {
                Some(t) => Some(
                    ArtifactModel { path: t.path@, blake3: t.blake3@, version: t.version },
                ),
                None => None,
            },
        }
    }
}

/// An entry below the manifest's directory: the outer one, or else the inner one.
pub open spec fn entry_at(dir: Seq<char>, outer: Option<EntrySpec>, inner: Option<EntrySpec>) -> Option<
    (Seq<char>, Seq<char>),
> {
    match (outer, inner) {
        (Some(e), _) => Some((joined_path(dir, e.path@), e.blake3@)),
        (None, Some(e)) => Some((joined_path(dir, e.path@), e.blake3@)),
        (None, None) => None,
    }
}

fn entry_below(dir: &str, outer: &Option<EntrySpec>, inner: &Option<EntrySpec>) -> (r: Option<
    AgentBinary,
>)
    ensures
        binary_model(r) == entry_at(dir@, *outer, *inner),
{
    match (outer, inner) {
        (Some(e), _) => Some(
            AgentBinary { path: join_path(dir, e.path.as_str()), blake3: e.blake3.clone() },
        ),
        (None, Some(e)) => Some(
            AgentBinary { path: join_path(dir, e.path.as_str()), blake3: e.blake3.clone() },
        ),
        (None, None) => None,
    }
}

pub open spec fn dir_of_manifest(path: Seq<char>) -> Seq<char> {
    match parent(path) {
        Some(d) => d,
        None => "."@,
    }
}

/// What a manifest brings along, with the paths below its directory.
pub open spec fn bundled(r: AgentRefModel, path: Seq<char>, d: ManifestDoc, raw: Seq<char>) -> Result<
    BundleModel,
    RegistryFault,
> {
    let dir = dir_of_manifest(path);
    match described(r, d, raw) {
        Err(f) => Err(f),
        Ok(m) => Ok(
            BundleModel {
                described: m,
                manifest_dir: dir,
                wasm_entry: entry_at(dir, d.entry_wasm, d.agent_entry_wasm),
                native_entry: entry_at(dir, d.entry_native, d.agent_entry_native),
                policy_path: match d.caps_file {
                    Some(f) => Some(joined_path(dir, f@)),
                    None => None,
                },
                tools: match d.tools {
                    Some(t) => Some(
                        ArtifactModel {
                            path: joined_path(dir, t.path@),
                            blake3: t.blake3@,
                            version: tools_version(t),
                        },
                    ),
                    None => None,
                },
            },
        ),
    }
}

pub fn build_bundle(reference: &AgentRef, path: &str, doc: &ManifestDoc, raw: &str) -> (r: Result<
    AgentBundle,
    AgentRegistryError,
>)
    ensures
        match (r, bundled(reference@, path@, *doc, raw@)) {
            (Ok(b), Ok(m)) => b@ == m,
            (Err(e), Err(f)) => e@ == f,
            _ => false,
        },
{
    let dir = match parent_of(path) {
        Some(d) => d,
        None => ".".to_owned(),
    };
    let described = match build_described(reference, doc, raw) {
        Ok(d) => d,
        Err(e) => {
            return Err(e);
        },
    };
    let wasm_entry = entry_below(dir.as_str(), &doc.entry_wasm, &doc.agent_entry_wasm);
    let native_entry = entry_below(dir.as_str(), &doc.entry_native, &doc.agent_entry_native);
    let policy_path = match &doc.caps_file {
        Some(f) => Some(join_path(dir.as_str(), f.as_str())),
        None => None,
    };
    let tools = match &doc.tools {
        Some(t) => Some(
            AgentArtifact {
                path: join_path(dir.as_str(), t.path.as_str()),
                blake3: t.blake3.clone(),
                version: match t.version {
                    Some(v) => v,
                    None => 1,
                },
            },
        ),
        None => None,
    };
    Ok(AgentBundle { described, manifest_dir: dir, wasm_entry, native_entry, policy_path, tools })
}

/// Where the manifest of an agent may stand below a search directory: a variant has places of its
/// own, tried first.
pub open spec fn roots_of(r: AgentRefModel) -> Seq<Seq<char>> {
    match r.variant {
        Some(v) => if v.len() > 0 {
            seq![
                r.name + "@"@ + v,
                joined_path(r.name, v),
                joined_path(joined_path(r.name, "variants"@), v),
                r.name,
            ]
        } else {
            seq![r.name]
        },
        None => seq![r.name],
    }
}

pub fn candidate_roots(reference: &AgentRef) -> (r: Vec<String>)
    ensures
        texts(r@) == roots_of(reference@),
{
    let mut roots: Vec<String> = Vec::new();
    match &reference.variant {
        Some(v) => {
            if !v.as_str().is_empty() {
                roots.push(concat3(reference.name.as_str(), "@", v.as_str()));
                roots.push(join_path(reference.name.as_str(), v.as_str()));
                let variants = join_path(reference.name.as_str(), "variants");
                roots.push(join_path(variants.as_str(), v.as_str()));
            }
        },
        None => {},
    }
    roots.push(reference.name.clone());
    assert(texts(roots@) =~= roots_of(reference@));
    roots
}

/// The places of a manifest, in the first `n` search directories.
pub open spec fn manifest_paths(dirs: Seq<Seq<char>>, r: AgentRefModel, n: nat) -> Seq<Seq<char>>
    decreases n,
{
    if n == 0 {
        seq![]
    } else {
        manifest_paths(dirs, r, (n - 1) as nat) + roots_of(r).map_values(
            |root: Seq<char>| joined_path(joined_path(dirs[n - 1], root), "manifest.toml"@),
        )
    }
}

/// The directories of a list, each place once and none without a name.
pub open spec fn kept_dirs(dirs: Seq<Seq<char>>, n: nat) -> Seq<Seq<char>>
    decreases n,
{
    if n == 0 {
        seq![]
    } else {
        let rest = kept_dirs(dirs, (n - 1) as nat);
        if dirs[n - 1].len() == 0 || listed(rest, dirs[n - 1]) {
            rest
        } else {
            rest.push(dirs[n - 1])
        }
    }
}

/// Finds manifests in search directories; earlier ones win.
#[derive(Debug)]
pub struct AgentRegistry {
    search_dirs: Vec<String>,
}

impl AgentRegistry {
    pub closed spec fn view(self) -> Seq<Seq<char>> {
        texts(self.search_dirs@)
    }

    pub fn new(dirs: &Vec<String>) -> (r: Self)
        ensures
            r@ == kept_dirs(texts(dirs@), dirs@.len()),
    {
        let ghost all = texts(dirs@);
        let mut kept: Vec<String> = Vec::new();
        let mut i: usize = 0;
        assert(texts(kept@) =~= seq![]);
        while i < dirs.len()
            invariant
                i <= dirs.len(),
                all == texts(dirs@),
                texts(kept@) == kept_dirs(all, i as nat),
            decreases dirs.len() - i,
        {
            assert(all[i as int] == dirs@[i as int]@);
            let ghost k = kept@;
            if !dirs[i].as_str().is_empty() && !is_listed(&kept, dirs[i].as_str()) {
                kept.push(dirs[i].clone());
                assert(texts(kept@) =~= texts(k).push(all[i as int]));
            }
            i += 1;
        }
        AgentRegistry { search_dirs: kept }
    }

    pub fn search_dirs(&self) -> (r: &Vec<String>)
        ensures
            texts(r@) == self@,
    {
        &self.search_dirs
    }

    /// The places at which an agent's manifest may stand, in their order.
    pub fn manifest_candidates(&self, reference: &AgentRef) -> (r: Vec<String>)
        ensures
            texts(r@) == manifest_paths(self@, reference@, self@.len()),
    {
        let roots = candidate_roots(reference);
        let ghost d = self@;
        let mut out: Vec<String> = Vec::new();
        let mut i: usize = 0;
        assert(texts(out@) =~= seq![]);
        while i < self.search_dirs.len()
            invariant
                i <= self.search_dirs.len(),
                d == self@,
                texts(roots@) == roots_of(reference@),
                texts(out@) == manifest_paths(d, reference@, i as nat),
            decreases self.search_dirs.len() - i,
        {
            let ghost sofar = texts(out@);
            let ghost here = roots_of(reference@).map_values(
                |root: Seq<char>| joined_path(joined_path(d[i as int], root), "manifest.toml"@),
            );
            let mut k: usize = 0;
            assert(sofar + here.take(0) =~= sofar);
            while k < roots.len()
                invariant
                    i < self.search_dirs.len(),
                    k <= roots.len(),
                    d == self@,
                    texts(roots@) == roots_of(reference@),
                    here == roots_of(reference@).map_values(
                        |root: Seq<char>|
                            joined_path(joined_path(d[i as int], root), "manifest.toml"@),
                    ),
                    texts(out@) == sofar + here.take(k as int),
                decreases roots.len() - k,
            {
                let ghost o = out@;
                assert(texts(roots@)[k as int] == roots@[k as int]@);
                assert(d[i as int] == self.search_dirs@[i as int]@);
                let dir = join_path(self.search_dirs[i].as_str(), roots[k].as_str());
                let p = join_path(dir.as_str(), "manifest.toml");
                out.push(p);
                assert(texts(out@) =~= texts(o).push(p@));
                assert(here[k as int] == p@);
                assert(sofar + here.take(k + 1) =~= (sofar + here.take(k as int)).push(p@));
                k += 1;
            }
            assert(here.take(here.len() as int) =~= here);
            i += 1;
        }
        out
    }

    /// The first of those places at which there is a file: `files` are those that are.
    pub fn find_manifest(&self, reference: &AgentRef, files: &Vec<String>) -> (r: Result<
        String,
        AgentRegistryError,
    >)
        ensures
            match (
                r,
                crate::registry::dirs::first_file(
                    manifest_paths(self@, reference@, self@.len()),
                    texts(files@),
                ),
            ) {
                (Ok(p), Some(q)) => p@ == q,
                (Err(e), None) => e@ == RegistryFault::NotFound(reference@),
                _ => false,
            },
    {
        let paths = self.manifest_candidates(reference);
        let ghost all = texts(paths@);
        let ghost f = texts(files@);
        let mut i: usize = 0;
        assert(all.skip(0) =~= all);
        while i < paths.len()
            invariant
                i <= paths.len(),
                all == texts(paths@),
                all == manifest_paths(self@, reference@, self@.len()),
                f == texts(files@),
                crate::registry::dirs::first_file(all, f) == crate::registry::dirs::first_file(
                    all.skip(i as int),
                    f,
                ),
            decreases paths.len() - i,
        {
            assert(all.skip(i as int)[0] == paths@[i as int]@);
            assert(all.skip(i as int).skip(1) =~= all.skip(i + 1));
            if crate::registry::dirs::holds(files, paths[i].as_str()) {
                return Ok(paths[i].clone());
            }
            i += 1;
        }
        Err(AgentRegistryError::NotFound { reference: reference.clone() })
    }
}

pub open spec fn ref_models(s: Seq<AgentRef>) -> Seq<AgentRefModel> {
    s.map_values(|r: AgentRef| r@)
}

/// Whether one of the references is written like this.
pub open spec fn written_among(s: Seq<AgentRefModel>, t: Seq<char>) -> bool {
    exists|i: int| 0 <= i < s.len() && reference_text(#[trigger] s[i]) == t
}

/// References in their order, each once. Two that are written alike are one, whether the variant
/// is left out or empty.
pub open spec fn once_each(s: Seq<AgentRefModel>, n: nat) -> Seq<AgentRefModel>
    decreases n,
{
    if n == 0 {
        seq![]
    } else {
        let rest = once_each(s, (n - 1) as nat);
        if written_among(rest, reference_text(s[n - 1])) {
            rest
        } else {
            rest.push(s[n - 1])
        }
    }
}

/// No two of the references that are kept are written alike, and none that was given is lost.
pub proof fn kept_references_differ(s: Seq<AgentRefModel>, n: nat)
    requires
        n <= s.len(),
    ensures
        forall|i: int, j: int|
            0 <= i < j < once_each(s, n).len() ==> reference_text(#[trigger] once_each(s, n)[i])
                != reference_text(#[trigger] once_each(s, n)[j]),
        forall|k: int|
            0 <= k < n ==> written_among(once_each(s, n), reference_text(#[trigger] s[k])),
    decreases n,
{
    if n > 0 {
        let rest = once_each(s, (n - 1) as nat);
        let all = once_each(s, n);
        kept_references_differ(s, (n - 1) as nat);
        assert forall|k: int| 0 <= k < n implies written_among(
            all,
            reference_text(#[trigger] s[k]),
        ) by {
            if k < n - 1 {
                assert(written_among(rest, reference_text(s[k])));
                let i = choose|i: int|
                    0 <= i < rest.len() && reference_text(#[trigger] rest[i]) == reference_text(
                        s[k],
                    );
                assert(all[i] == rest[i]);
            } else if !written_among(rest, reference_text(s[n - 1])) {
                assert(all[rest.len() as int] == s[n - 1]);
            }
        }
    }
}

fn is_written(seen: &Vec<AgentRef>, reference: &AgentRef) -> (r: bool)
    ensures
        r == written_among(ref_models(seen@), reference_text(reference@)),
{
    let ghost s = ref_models(seen@);
    let text = reference.spec();
    let mut i: usize = 0;
    while i < seen.len()
        invariant
            i <= seen.len(),
            s == ref_models(seen@),
            text@ == reference_text(reference@),
            forall|k: int| 0 <= k < i ==> reference_text(#[trigger] s[k]) != text@,
        decreases seen.len() - i,
    {
        assert(s[i as int] == seen@[i as int]@);
        if same(seen[i].spec().as_str(), text.as_str()) {
            return true;
        }
        i += 1;
    }
    false
}

/// Whether a reference is among those that were seen.
pub fn was_seen(seen: &Vec<AgentRef>, reference: &AgentRef) -> (r: bool)
    ensures
        r == ref_models(seen@).contains(reference@),
{
    let ghost s = ref_models(seen@);
    let mut i: usize = 0;
    while i < seen.len()
        invariant
            i <= seen.len(),
            s == ref_models(seen@),
            forall|k: int| 0 <= k < i ==> (#[trigger] s[k]) != reference@,
        decreases seen.len() - i,
    {
        if seen[i].equals(reference) {
            assert(s[i as int] == reference@);
            return true;
        }
        assert(s[i as int] != reference@);
        i += 1;
    }
    false
}

pub fn unique_references(references: &Vec<AgentRef>) -> (r: Vec<AgentRef>)
    ensures
        ref_models(r@) == once_each(ref_models(references@), references@.len()),
{
    let ghost all = ref_models(references@);
    let mut out: Vec<AgentRef> = Vec::new();
    let mut i: usize = 0;
    assert(ref_models(out@) =~= seq![]);
    while i < references.len()
        invariant
            i <= references.len(),
            all == ref_models(references@),
            ref_models(out@) == once_each(all, i as nat),
        decreases references.len() - i,
    {
        assert(all[i as int] == references@[i as int]@);
        let ghost o = out@;
        if !is_written(&out, &references[i]) {
            let x = references[i].clone();
            out.push(x);
            assert(ref_models(out@) =~= ref_models(o).push(x@));
        }
        i += 1;
    }
    out
}

/// A manifest as it was found.
#[derive(Debug)]
pub struct FoundManifest {
    pub path: String,
    pub raw: String,
    pub doc: ManifestDoc,
}

#[derive(Debug)]
pub struct ListedAgent {
    pub described: DescribedAgent,
    pub manifest_path: String,
}

pub ghost struct ListedModel {
    pub described: DescribedModel,
    pub manifest_path: Seq<char>,
}

impl ListedAgent {
    pub open spec fn view(self) -> ListedModel {
        ListedModel { described: self.described@, manifest_path: self.manifest_path@ }
    }
}

pub open spec fn listed_models(s: Seq<ListedAgent>) -> Seq<ListedModel> {
    s.map_values(|l: ListedAgent| l@)
}

pub open spec fn own_reference(d: ManifestDoc) -> AgentRefModel {
    AgentRefModel { name: d.name@, variant: opt_text(d.variant) }
}

/// The agents of the first `n` manifests: of those for one agent, the first.
pub open spec fn listing(found: Seq<FoundManifest>, n: nat) -> Result<
    (Seq<AgentRefModel>, Seq<ListedModel>),
    RegistryFault,
>
    decreases n,
{
    if n == 0 {
        Ok((seq![], seq![]))
    } else {
        match listing(found, (n - 1) as nat) {
            Err(f) => Err(f),
            Ok((seen, out)) => {
                let m = found[n - 1];
                let r = own_reference(m.doc);
                if seen.contains(r) {
                    Ok((seen, out))
                } else {
                    match described(r, m.doc, m.raw@) {
                        Err(f) => Err(f),
                        Ok(d) => Ok(
                            (
                                seen.push(r),
                                out.push(
                                    ListedModel { described: d, manifest_path: m.path@ },
                                ),
                            ),
                        ),
                    }
                }
            },
        }
    }
}

proof fn lemma_listing_stops(found: Seq<FoundManifest>, i: nat, n: nat)
    requires
        listing(found, i) is Err,
        i <= n,
    ensures
        listing(found, n) == listing(found, i),
    decreases n,
{
    if i < n {
        lemma_listing_stops(found, i, (n - 1) as nat);
    }
}

/// Lists the agents of the manifests that were found, in the order of the search.
pub fn list_agents(found: &Vec<FoundManifest>) -> (r: Result<Vec<ListedAgent>, AgentRegistryError>)
    ensures
        match (r, listing(found@, found@.len())) {
            (Ok(v), Ok((_, s))) => listed_models(v@) == s,
            (Err(e), Err(f)) => e@ == f,
            _ => false,
        },
{
    let mut seen: Vec<AgentRef> = Vec::new();
    let mut out: Vec<ListedAgent> = Vec::new();
    assert(ref_models(seen@) =~= seq![]);
    assert(listed_models(out@) =~= seq![]);
    let mut i: usize = 0;
    while i < found.len()
        invariant
            i <= found.len(),
            listing(found@, i as nat) == Ok::<_, RegistryFault>(
                (ref_models(seen@), listed_models(out@)),
            ),
        decreases found.len() - i,
    {
        let m = &found[i];
        let ghost s0 = seen@;
        let ghost o0 = out@;
        let reference = AgentRef::new(m.doc.name.clone(), copy_opt(&m.doc.variant));
        assert(reference@ == own_reference(m.doc));
        if !was_seen(&seen, &reference) {
            match build_described(&reference, &m.doc, m.raw.as_str()) {
                Err(e) => {
                    proof {
                        lemma_listing_stops(found@, (i + 1) as nat, found@.len());
                    }
                    return Err(e);
                },
                Ok(described) => {
                    let l = ListedAgent { described, manifest_path: m.path.clone() };
                    out.push(l);
                    assert(listed_models(out@) =~= listed_models(o0).push(l@));
                    seen.push(reference);
                    assert(ref_models(seen@) =~= ref_models(s0).push(reference@));
                },
            }
        }
        i += 1;
    }
    Ok(out)
}

/// The digests that descriptions are held to.
pub fn digests_from(described: &Vec<DescribedAgent>) -> (r: Vec<AgentDigest>)
    ensures
        r@.len() == described@.len(),
        forall|i: int|
            0 <= i < r@.len() ==> (#[trigger] r@[i]).reference@ == described@[i].reference@
                && r@[i].digest@ == described@[i].digest@,
{
    let mut out: Vec<AgentDigest> = Vec::new();
    let mut i: usize = 0;
    while i < described.len()
        invariant
            i <= described.len(),
            out@.len() == i,
            forall|k: int|
                0 <= k < i ==> (#[trigger] out@[k]).reference@ == described@[k].reference@
                    && out@[k].digest@ == described@[k].digest@,
        decreases described.len() - i,
    {
        out.push(
            AgentDigest {
                reference: described[i].reference.clone(),
                digest: described[i].digest.clone(),
            },
        );
        i += 1;
    }
    out
}

/// No agent is listed twice.
pub proof fn agents_are_listed_once(found: Seq<FoundManifest>, n: nat)
    requires
        n <= found.len(),
        listing(found, n) is Ok,
    ensures
        ({
            let (seen, out) = listing(found, n)->Ok_0;
            &&& seen.len() == out.len()
            &&& forall|i: int, j: int| 0 <= i < j < seen.len() ==> seen[i] != seen[j]
            &&& forall|i: int|
                0 <= i < out.len() ==> (#[trigger] out[i]).described.reference == seen[i]
        }),
    decreases n,
{
    if n > 0 {
        assert(listing(found, (n - 1) as nat) is Ok);
        agents_are_listed_once(found, (n - 1) as nat);
        let (seen, out) = listing(found, n)->Ok_0;
        let (s, o) = listing(found, (n - 1) as nat)->Ok_0;
        let r = own_reference(found[n - 1].doc);
        if !s.contains(r) {
            assert forall|i: int, j: int| 0 <= i < j < seen.len() implies seen[i] != seen[j] by {
                if j == s.len() {
                    assert(s[i] == seen[i]);
                    assert(s.contains(s[i]));
                } else {
                    assert(s[i] == seen[i] && s[j] == seen[j]);
                }
            }
            assert forall|i: int| 0 <= i < out.len() implies (
            #[trigger] out[i]).described.reference == seen[i] by {
                if i < o.len() {
                    assert(o[i] == out[i]);
                }
            }
        }
    }
}

} // verus!
