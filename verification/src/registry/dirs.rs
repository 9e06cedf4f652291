//! Search directories, the workspace, openings by name.

use crate::config::checks::{look_up, var, Surroundings, SurroundingsModel};
use crate::paths::{ancestors, extend, extended, has_extension, join_path, joined_path, parent, parent_of, same_path, same_place, with_extension};
use crate::text::{concat3, has_prefix, join, joined, opt_text, same, strip_prefix, texts};
use vstd::prelude::*;

verus! {

#[derive(Debug)]
pub struct PathOverrides {
    pub agents_dir: Option<String>,
    pub openings_dir: Option<String>,
    pub cwd: Option<String>,
    pub workspace_root: Option<String>,
}

impl Default for PathOverrides {
    fn default() -> (r: Self)
        ensures
            r.agents_dir is None,
            r.openings_dir is None,
            r.cwd is None,
            r.workspace_root is None,
    {
        PathOverrides { agents_dir: None, openings_dir: None, cwd: None, workspace_root: None }
    }
}

#[derive(Debug)]
pub struct RegistryPaths {
    pub agents: Vec<String>,
    pub openings: Vec<String>,
    pub demo_agents: Option<String>,
    pub info: Vec<String>,
    pub warnings: Vec<String>,
}

/// Whether a path is in a list already, however it is written.
pub open spec fn listed(s: Seq<Seq<char>>, p: Seq<char>) -> bool {
    exists|i: int| 0 <= i < s.len() && same_place(#[trigger] s[i], p)
}

pub open spec fn with_unique(s: Seq<Seq<char>>, p: Seq<char>) -> Seq<Seq<char>> {
    if listed(s, p) {
        s
    } else {
        s.push(p)
    }
}

pub fn is_listed(list: &Vec<String>, p: &str) -> (r: bool)
    ensures
        r == listed(texts(list@), p@),
{
    let ghost s = texts(list@);
    let mut i: usize = 0;
    while i < list.len()
        invariant
            i <= list.len(),
            s == texts(list@),
            forall|k: int| 0 <= k < i ==> !same_place(#[trigger] s[k], p@),
        decreases list.len() - i,
    {
        if same_path(list[i].as_str(), p) {
            assert(same_place(s[i as int], p@));
            return true;
        }
        assert(!same_place(s[i as int], p@));
        i += 1;
    }
    false
}

pub fn push_unique(list: &mut Vec<String>, p: String)
    ensures
        texts(final(list)@) == with_unique(texts(old(list)@), p@),
{
    let ghost o = list@;
    if !is_listed(list, p.as_str()) {
        list.push(p);
        assert(texts(list@) =~= texts(o).push(p@));
    }
}

/// A directory with its home and its variable put in.
pub open spec fn expanded_dir(raw: Seq<char>, s: SurroundingsModel) -> Seq<char> {
    if s.home is Some && raw == "~"@ {
        s.home->0
    } else if s.home is Some && has_prefix(raw, "~/"@) {
        joined_path(s.home->0, raw.skip(2))
    } else if has_prefix(raw, "env:"@) && var(s.vars, raw.skip(4)) is Some {
        var(s.vars, raw.skip(4))->0
    } else {
        raw
    }
}

pub fn expand_dir(raw: &str, s: &Surroundings) -> (r: String)
    ensures
        r@ == expanded_dir(raw@, s@),
{
    proof {
        reveal_strlit("~/");
        reveal_strlit("env:");
    }
    match &s.home {
        Some(home) => {
            if same(raw, "~") {
                return home.clone();
            }
            match strip_prefix(raw, "~/") {
                Some(rest) => {
                    return join_path(home.as_str(), rest.as_str());
                },
                None => {},
            }
        },
        None => {},
    }
    match strip_prefix(raw, "env:") {
        Some(key) => {
            match look_up(&s.vars, key.as_str()) {
                Some(v) => {
                    return v;
                },
                None => {},
            }
        },
        None => {},
    }
    raw.to_owned()
}

/// The first `n` directories, expanded, behind those of a list; each place once.
pub open spec fn with_dirs(
    s: Seq<Seq<char>>,
    dirs: Seq<Seq<char>>,
    env: SurroundingsModel,
    n: nat,
) -> Seq<Seq<char>>
    decreases n,
{
    if n == 0 {
        s
    } else {
        with_unique(with_dirs(s, dirs, env, (n - 1) as nat), expanded_dir(dirs[n - 1], env))
    }
}

/// The directories to search: one that was asked for, or the workspace's, then the configured ones.
pub open spec fn search_list(
    asked: Option<Seq<char>>,
    of_workspace: Option<Seq<char>>,
    configured: Seq<Seq<char>>,
    env: SurroundingsModel,
) -> Seq<Seq<char>> {
    let first: Seq<Seq<char>> = match (asked, of_workspace) {
        (Some(a), _) => seq![expanded_dir(a, env)],
        (None, Some(w)) => seq![w],
        (None, None) => seq![],
    };
    with_dirs(first, configured, env, configured.len())
}

fn search_in(
    asked: &Option<String>,
    of_workspace: Option<String>,
    configured: &Vec<String>,
    s: &Surroundings,
) -> (r: Vec<String>)
    ensures
        texts(r@) == search_list(opt_text(*asked), opt_text(of_workspace), texts(configured@), s@),
{
    let mut out: Vec<String> = Vec::new();
    match (asked, of_workspace) {
        (Some(a), _) => {
            out.push(expand_dir(a.as_str(), s));
            assert(texts(out@) =~= seq![expanded_dir(a@, s@)]);
        },
        (None, Some(w)) => {
            out.push(w);
            assert(texts(out@) =~= seq![w@]);
        },
        (None, None) => {
            assert(texts(out@) =~= seq![]);
        },
    }
    let ghost first = texts(out@);
    let mut i: usize = 0;
    while i < configured.len()
        invariant
            i <= configured.len(),
            texts(out@) == with_dirs(first, texts(configured@), s@, i as nat),
        decreases configured.len() - i,
    {
        assert(texts(configured@)[i as int] == configured@[i as int]@);
        push_unique(&mut out, expand_dir(configured[i].as_str(), s));
        i += 1;
    }
    out
}

pub open spec fn agents_below(workspace: Option<Seq<char>>) -> Option<Seq<char>> {
    match workspace {
        Some(w) => Some(joined_path(w, "agents"@)),
        None => None,
    }
}

pub open spec fn openings_below(workspace: Option<Seq<char>>) -> Option<Seq<char>> {
    match workspace {
        Some(w) => Some(joined_path(joined_path(w, "examples"@), "openings"@)),
        None => None,
    }
}

/// The directories in which agents, and those in which openings are searched.
pub fn search_dirs(
    agent_dirs: &Vec<String>,
    opening_dirs: &Vec<String>,
    overrides: &PathOverrides,
    workspace: &Option<String>,
    s: &Surroundings,
) -> (r: (Vec<String>, Vec<String>))
    ensures
        texts(r.0@) == search_list(
            opt_text(overrides.agents_dir),
            agents_below(opt_text(*workspace)),
            texts(agent_dirs@),
            s@,
        ),
        texts(r.1@) == search_list(
            opt_text(overrides.openings_dir),
            openings_below(opt_text(*workspace)),
            texts(opening_dirs@),
            s@,
        ),
{
    let agents = match workspace {
        Some(w) => Some(join_path(w.as_str(), "agents")),
        None => None,
    };
    let openings = match workspace {
        Some(w) => {
            let examples = join_path(w.as_str(), "examples");
            Some(join_path(examples.as_str(), "openings"))
        },
        None => None,
    };
    (
        search_in(&overrides.agents_dir, agents, agent_dirs, s),
        search_in(&overrides.openings_dir, openings, opening_dirs, s),
    )
}

pub fn default_demo_agents_dir() -> (r: &'static str)
    ensures
        r@ == "/usr/lib/runloop/agents"@,
{
    "/usr/lib/runloop/agents"
}

/// Whether any directory of a list is among those that exist.
pub open spec fn any_exists(dirs: Seq<Seq<char>>, existing: Seq<Seq<char>>) -> bool {
    exists|i: int| 0 <= i < dirs.len() && existing.contains(#[trigger] dirs[i])
}

fn some_exists(dirs: &Vec<String>, existing: &Vec<String>) -> (r: bool)
    ensures
        r == any_exists(texts(dirs@), texts(existing@)),
{
    let ghost s = texts(dirs@);
    let ghost e = texts(existing@);
    let mut i: usize = 0;
    while i < dirs.len()
        invariant
            i <= dirs.len(),
            s == texts(dirs@),
            e == texts(existing@),
            forall|k: int| 0 <= k < i ==> !e.contains(#[trigger] s[k]),
        decreases dirs.len() - i,
    {
        assert(s[i as int] == dirs@[i as int]@);
        match crate::text::position(existing, dirs[i].as_str()) {
            Some(k) => {
                assert(e[k as int] == s[i as int]);
                assert(e.contains(s[i as int]));
                return true;
            },
            None => {
                assert(!e.contains(s[i as int])) by {
                    if e.contains(s[i as int]) {
                        let k = choose|k: int| 0 <= k < e.len() && e[k] == s[i as int];
                        assert(existing@[k]@ == dirs@[i as int]@);
                    }
                }
            },
        }
        i += 1;
    }
    false
}

/// The directories to search, with the demonstration agents where no other directory for agents
/// exists, and a warning where none for openings does.
pub fn resolve_paths(
    agent_dirs: &Vec<String>,
    opening_dirs: &Vec<String>,
    overrides: &PathOverrides,
    workspace: &Option<String>,
    s: &Surroundings,
    existing: &Vec<String>,
) -> (r: RegistryPaths)
    ensures
        ({
            let agents = search_list(
                opt_text(overrides.agents_dir),
                agents_below(opt_text(*workspace)),
                texts(agent_dirs@),
                s@,
            );
            let openings = search_list(
                opt_text(overrides.openings_dir),
                openings_below(opt_text(*workspace)),
                texts(opening_dirs@),
                s@,
            );
            let demo = "/usr/lib/runloop/agents"@;
            &&& texts(r.openings@) == openings
            &&& if any_exists(agents, texts(existing@)) {
                texts(r.agents@) == agents && r.demo_agents is None && texts(r.info@) == Seq::<
                    Seq<char>,
                >::empty()
            } else {
                texts(r.agents@) == with_unique(agents, demo) && opt_text(r.demo_agents) == Some(
                    demo,
                ) && texts(r.info@) == seq![
                    "no agent search dirs found; using demo bundles until custom bundles are added"@,
                ]
            }
            &&& texts(r.warnings@) == if any_exists(openings, texts(existing@)) {
                seq![]
            } else {
                seq![
                    "no opening search dirs exist; set --openings-dir or configure openings.search_dirs"@,
                ]
            }
        }),
{
    let (found_agents, openings) = search_dirs(agent_dirs, opening_dirs, overrides, workspace, s);
    let mut agents = found_agents;
    let agents_there = some_exists(&agents, existing);
    let openings_there = some_exists(&openings, existing);
    let mut info: Vec<String> = Vec::new();
    let mut warnings: Vec<String> = Vec::new();
    let mut demo_agents: Option<String> = None;
    assert(texts(info@) =~= seq![]);
    assert(texts(warnings@) =~= seq![]);
    if !agents_there {
        info.push(
            "no agent search dirs found; using demo bundles until custom bundles are added".to_owned(),
        );
        assert(texts(info@) =~= seq![
            "no agent search dirs found; using demo bundles until custom bundles are added"@,
        ]);
        push_unique(&mut agents, default_demo_agents_dir().to_owned());
        demo_agents = Some(default_demo_agents_dir().to_owned());
    }
    if !openings_there {
        warnings.push(
            "no opening search dirs exist; set --openings-dir or configure openings.search_dirs".to_owned(),
        );
        assert(texts(warnings@) =~= seq![
            "no opening search dirs exist; set --openings-dir or configure openings.search_dirs"@,
        ]);
    }
    RegistryPaths { agents, openings, demo_agents, info, warnings }
}

/// No place is searched twice.
pub proof fn places_are_searched_once(
    s: Seq<Seq<char>>,
    dirs: Seq<Seq<char>>,
    env: SurroundingsModel,
    n: nat,
)
    requires
        n <= dirs.len(),
        apart(s),
    ensures
        apart(with_dirs(s, dirs, env, n)),
    decreases n,
{
    if n > 0 {
        places_are_searched_once(s, dirs, env, (n - 1) as nat);
        let t = with_dirs(s, dirs, env, (n - 1) as nat);
        let p = expanded_dir(dirs[n - 1], env);
        let r = with_unique(t, p);
        assert forall|i: int, j: int| 0 <= i < j < r.len() implies !same_place(
            #[trigger] r[i],
            #[trigger] r[j],
        ) by {
            if j == t.len() {
                assert(r[i] == t[i]);
            }
        }
    }
}

pub open spec fn apart(s: Seq<Seq<char>>) -> bool {
    forall|i: int, j: int| 0 <= i < j < s.len() ==> !same_place(#[trigger] s[i], #[trigger] s[j])
}

#[derive(Debug)]
pub enum OpeningLookupError {
    NotFound { name: String, searched: String },
}

impl OpeningLookupError {
    pub fn message(&self) -> (r: String)
        ensures
            self matches OpeningLookupError::NotFound { name, searched } && r@ == "opening '"@
                + name@ + "' not found (searched: "@ + searched@ + ")"@,
    {
        match self {
            OpeningLookupError::NotFound { name, searched } => {
                let mut m = concat3("opening '", name.as_str(), "' not found (searched: ");
                m.append(searched.as_str());
                m.append(")");
                m
            },
        }
    }
}

/// The names under which an opening is looked for.
pub open spec fn opening_names(name: Seq<char>) -> Seq<Seq<char>> {
    if has_extension(name) {
        seq![name]
    } else {
        seq![with_extension(name, "yaml"@), name]
    }
}

pub fn names_of_opening(name: &str) -> (r: Vec<String>)
    ensures
        texts(r@) == opening_names(name@),
{
    let mut r: Vec<String> = Vec::new();
    if !extended(name) {
        r.push(extend(name, "yaml"));
    }
    r.push(name.to_owned());
    assert(texts(r@) =~= opening_names(name@));
    r
}

/// The paths at which an opening is looked for, in the first `n` directories.
pub open spec fn opening_paths(name: Seq<char>, dirs: Seq<Seq<char>>, n: nat) -> Seq<Seq<char>>
    decreases n,
{
    if n == 0 {
        seq![]
    } else {
        opening_paths(name, dirs, (n - 1) as nat) + opening_names(name).map_values(
            |c: Seq<char>| joined_path(dirs[n - 1], c),
        )
    }
}

/// The first path of a list that is a file.
pub open spec fn first_file(paths: Seq<Seq<char>>, files: Seq<Seq<char>>) -> Option<Seq<char>>
    decreases paths.len(),
{
    if paths.len() == 0 {
        None
    } else if files.contains(paths[0]) {
        Some(paths[0])
    } else {
        first_file(paths.skip(1), files)
    }
}

/// The paths at which an opening is looked for, in their order.
pub fn opening_candidates(name: &str, dirs: &Vec<String>) -> (r: Vec<String>)
    ensures
        texts(r@) == opening_paths(name@, texts(dirs@), dirs@.len()),
{
    let names = names_of_opening(name);
    let ghost d = texts(dirs@);
    let mut out: Vec<String> = Vec::new();
    let mut i: usize = 0;
    assert(texts(out@) =~= seq![]);
    while i < dirs.len()
        invariant
            i <= dirs.len(),
            d == texts(dirs@),
            texts(names@) == opening_names(name@),
            texts(out@) == opening_paths(name@, d, i as nat),
        decreases dirs.len() - i,
    {
        let ghost sofar = texts(out@);
        let ghost here = opening_names(name@).map_values(
            |c: Seq<char>| joined_path(d[i as int], c),
        );
        let mut k: usize = 0;
        assert(sofar + here.take(0) =~= sofar);
        while k < names.len()
            invariant
                i < dirs.len(),
                k <= names.len(),
                d == texts(dirs@),
                texts(names@) == opening_names(name@),
                here == opening_names(name@).map_values(
                    |c: Seq<char>| joined_path(d[i as int], c),
                ),
                texts(out@) == sofar + here.take(k as int),
            decreases names.len() - k,
        {
            let ghost o = out@;
            assert(texts(names@)[k as int] == names@[k as int]@);
            assert(d[i as int] == dirs@[i as int]@);
            let p = join_path(dirs[i].as_str(), names[k].as_str());
            out.push(p);
            assert(texts(out@) =~= texts(o).push(p@));
            assert(here[k as int] == p@);
            assert(sofar + here.take(k + 1) =~= (sofar + here.take(k as int)).push(p@));
            k += 1;
        }
        assert(here.take(here.len() as int) =~= here);
        i += 1;
    }
    out
}

/// Finds an opening by its name. `dirs` are the search directories that exist, `files` those of the
/// paths in question that are files.
pub fn resolve_opening_path(name: &str, dirs: &Vec<String>, files: &Vec<String>) -> (r: Result<
    String,
    OpeningLookupError,
>)
    ensures
        ({
            let paths = opening_paths(name@, texts(dirs@), dirs@.len());
            match r {
                Ok(p) => if texts(files@).contains(name@) {
                    p@ == name@
                } else {
                    first_file(paths, texts(files@)) == Some(p@)
                },
                Err(OpeningLookupError::NotFound { name: n, searched }) => !texts(
                    files@,
                ).contains(name@) && first_file(paths, texts(files@)) is None && n@ == name@
                    && searched@ == join(paths, ", "@),
            }
        }),
{
    let ghost f = texts(files@);
    if holds(files, name) {
        return Ok(name.to_owned());
    }
    let paths = opening_candidates(name, dirs);
    let ghost all = texts(paths@);
    let mut i: usize = 0;
    assert(all.skip(0) =~= all);
    while i < paths.len()
        invariant
            i <= paths.len(),
            all == texts(paths@),
            all == opening_paths(name@, texts(dirs@), dirs@.len()),
            f == texts(files@),
            !f.contains(name@),
            first_file(all, f) == first_file(all.skip(i as int), f),
        decreases paths.len() - i,
    {
        assert(all.skip(i as int)[0] == paths@[i as int]@);
        assert(all.skip(i as int).skip(1) =~= all.skip(i + 1));
        if holds(files, paths[i].as_str()) {
            return Ok(paths[i].clone());
        }
        i += 1;
    }
    Err(
        OpeningLookupError::NotFound { name: name.to_owned(), searched: joined(&paths, ", ") },
    )
}

pub(crate) fn holds(v: &Vec<String>, s: &str) -> (r: bool)
    ensures
        r == texts(v@).contains(s@),
{
    let ghost t = texts(v@);
    match crate::text::position(v, s) {
        Some(k) => {
            assert(t[k as int] == s@);
            true
        },
        None => {
            assert(!t.contains(s@)) by {
                if t.contains(s@) {
                    let k = choose|k: int| 0 <= k < t.len() && t[k] == s@;
                    assert(v@[k]@ == s@);
                }
            }
            false
        },
    }
}

/// What stands under `workspace` in a manifest.
#[derive(Debug)]
pub enum WorkspaceKey {
    Table,
    Path(String),
    Other,
}

pub ghost enum KeyModel {
    Table,
    Path(Seq<char>),
    Other,
}

impl WorkspaceKey {
    pub open spec fn view(self) -> KeyModel {
        match self {
            WorkspaceKey::Table => KeyModel::Table,
            WorkspaceKey::Path(p) => KeyModel::Path(p@),
            WorkspaceKey::Other => KeyModel::Other,
        }
    }
}

/// What `toml::from_str` reads under a key of a text, if the text is TOML and has it.
pub uninterp spec fn toml_key(text: Seq<char>, key: Seq<char>) -> Option<KeyModel>;

/// What stands under `workspace` in a text.
pub open spec fn toml_workspace(text: Seq<char>) -> Option<KeyModel> {
    toml_key(text, "workspace"@)
}

/// `toml::from_str` into a value, of which only one key is looked at. The claim is that the outcome
/// is settled by the text and the key.
#[verifier::external_body]
fn read_key(text: &str, key: &str) -> (r: Option<WorkspaceKey>)
    ensures
        match r {
            Some(k) => toml_key(text@, key@) == Some(k@),
            None => toml_key(text@, key@) is None,
        },
{
    let doc = toml::from_str::<toml::Value>(text).ok()?;
    doc.get(key).map(
        |found| match found {
            toml::Value::Table(_) => WorkspaceKey::Table,
            toml::Value::String(path) => WorkspaceKey::Path(path.clone()),
            _ => WorkspaceKey::Other,
        },
    )
}

/// What was found in a directory: its manifest, and what its manifest points to.
#[derive(Debug)]
pub struct AncestorFacts {
    pub dir: String,
    /// Whether there is a manifest.
    pub has_manifest: bool,
    /// The manifest's text, if it can be read.
    pub manifest: Option<String>,
    /// Whether the path that the manifest names as its workspace is a directory.
    pub target_is_dir: bool,
    /// The text of the manifest at that path, if it is a file that can be read.
    pub target_manifest: Option<String>,
}

pub ghost struct AncestorModel {
    pub dir: Seq<char>,
    pub has_manifest: bool,
    pub manifest: Option<Seq<char>>,
    pub target_is_dir: bool,
    pub target_manifest: Option<Seq<char>>,
}

impl AncestorFacts {
    pub open spec fn view(self) -> AncestorModel {
        AncestorModel {
            dir: self.dir@,
            has_manifest: self.has_manifest,
            manifest: opt_text(self.manifest),
            target_is_dir: self.target_is_dir,
            target_manifest: opt_text(self.target_manifest),
        }
    }
}

pub open spec fn ancestor_models(s: Seq<AncestorFacts>) -> Seq<AncestorModel> {
    s.map_values(|a: AncestorFacts| a@)
}

/// The directory of a manifest.
pub open spec fn manifest_home(dir: Seq<char>) -> Option<Seq<char>> {
    parent(joined_path(dir, "Cargo.toml"@))
}

/// The path that a manifest names as its workspace.
pub open spec fn target_of(dir: Seq<char>, rel: Seq<char>) -> Seq<char> {
    match manifest_home(dir) {
        Some(h) => joined_path(h, rel),
        None => rel,
    }
}

pub open spec fn target_manifest_of(target: Seq<char>, is_dir: bool) -> Seq<char> {
    if is_dir {
        joined_path(target, "Cargo.toml"@)
    } else {
        target
    }
}

/// The root of the workspace that a manifest declares or points to.
pub open spec fn root_by_manifest(a: AncestorModel) -> Option<Seq<char>> {
    match a.manifest {
        None => None,
        Some(text) => match toml_workspace(text) {
            Some(KeyModel::Table) => manifest_home(a.dir),
            Some(KeyModel::Path(rel)) => match a.target_manifest {
                Some(t) => if toml_workspace(t) == Some(KeyModel::Table) {
                    parent(target_manifest_of(target_of(a.dir, rel), a.target_is_dir))
                } else {
                    None
                },
                None => None,
            },
            _ => None,
        },
    }
}

/// The path at which the manifest in a directory says its workspace is.
pub fn workspace_target(dir: &str, manifest: &str) -> (r: Option<String>)
    ensures
        match r {
            Some(t) => toml_workspace(manifest@) matches Some(KeyModel::Path(rel)) && t@
                == target_of(dir@, rel),
            None => !(toml_workspace(manifest@) matches Some(KeyModel::Path(rel))),
        },
{
    match read_key(manifest, "workspace") {
        Some(WorkspaceKey::Path(rel)) => {
            let file = join_path(dir, "Cargo.toml");
            match parent_of(file.as_str()) {
                Some(h) => Some(join_path(h.as_str(), rel.as_str())),
                None => Some(rel),
            }
        },
        _ => None,
    }
}

pub fn manifest_workspace_root(a: &AncestorFacts) -> (r: Option<String>)
    ensures
        opt_text(r) == root_by_manifest(a@),
{
    let text = match &a.manifest {
        Some(t) => t,
        None => {
            return None;
        },
    };
    match read_key(text.as_str(), "workspace") {
        Some(WorkspaceKey::Table) => {
            let file = join_path(a.dir.as_str(), "Cargo.toml");
            parent_of(file.as_str())
        },
        Some(WorkspaceKey::Path(rel)) => {
            let file = join_path(a.dir.as_str(), "Cargo.toml");
            let target = match parent_of(file.as_str()) {
                Some(h) => join_path(h.as_str(), rel.as_str()),
                None => rel,
            };
            let target_manifest = if a.target_is_dir {
                join_path(target.as_str(), "Cargo.toml")
            } else {
                target
            };
            match &a.target_manifest {
                Some(t) => match read_key(t.as_str(), "workspace") {
                    Some(WorkspaceKey::Table) => parent_of(target_manifest.as_str()),
                    _ => None,
                },
                None => None,
            }
        },
        _ => None,
    }
}

/// The first root that a manifest gives, going up.
pub open spec fn first_root(s: Seq<AncestorModel>) -> Option<Seq<char>>
    decreases s.len(),
{
    if s.len() == 0 {
        None
    } else if s[0].has_manifest && root_by_manifest(s[0]) is Some {
        root_by_manifest(s[0])
    } else {
        first_root(s.skip(1))
    }
}

/// The first directory with a manifest, going up.
pub open spec fn first_manifest_dir(s: Seq<AncestorModel>) -> Option<Seq<char>>
    decreases s.len(),
{
    if s.len() == 0 {
        None
    } else if s[0].has_manifest {
        Some(s[0].dir)
    } else {
        first_manifest_dir(s.skip(1))
    }
}

/// The root of the workspace: where a manifest says so, or else the nearest manifest.
pub open spec fn walked_root(s: Seq<AncestorModel>) -> Option<Seq<char>> {
    if first_root(s) is Some {
        first_root(s)
    } else {
        first_manifest_dir(s)
    }
}

pub fn walk_for_workspace_root(ancestors: &Vec<AncestorFacts>) -> (r: Option<String>)
    ensures
        opt_text(r) == walked_root(ancestor_models(ancestors@)),
{
    let ghost all = ancestor_models(ancestors@);
    let mut first: Option<String> = None;
    let mut i: usize = 0;
    assert(all.skip(0) =~= all);
    while i < ancestors.len()
        invariant
            i <= ancestors.len(),
            all == ancestor_models(ancestors@),
            first_root(all) == first_root(all.skip(i as int)),
            first_manifest_dir(all) == if first is Some {
                opt_text(first)
            } else {
                first_manifest_dir(all.skip(i as int))
            },
        decreases ancestors.len() - i,
    {
        assert(all.skip(i as int)[0] == ancestors@[i as int]@);
        assert(all.skip(i as int).skip(1) =~= all.skip(i + 1));
        if ancestors[i].has_manifest {
            match manifest_workspace_root(&ancestors[i]) {
                Some(root) => {
                    return Some(root);
                },
                None => {},
            }
            if first.is_none() {
                first = Some(ancestors[i].dir.clone());
            }
        }
        i += 1;
    }
    first
}

/// The workspace: one that the environment names, if it is a directory, or else the one that is
/// found going up.
pub fn choose_workspace(named: Option<String>, named_is_dir: bool, ancestors: &Vec<AncestorFacts>) -> (r:
    Option<String>)
    ensures
        opt_text(r) == if named is Some && named_is_dir {
            opt_text(named)
        } else {
            walked_root(ancestor_models(ancestors@))
        },
{
    match named {
        Some(n) => if named_is_dir {
            Some(n)
        } else {
            walk_for_workspace_root(ancestors)
        },
        None => walk_for_workspace_root(ancestors),
    }
}

} // verus!
