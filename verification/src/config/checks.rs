//! Paths in the settings, and what the settings must meet.

use crate::config::settings::{Config, ModelProvider};
use crate::error::{Error, ErrorModel};
use crate::paths::{file_name, file_name_of, join_path, joined_path, parent, parent_of};
use crate::text::{concat3, decimal, decimal_text, has_prefix, is_blank, lower, lowered, opt_text, same, strip_prefix, texts, trim, trimmed};
use vstd::prelude::*;

verus! {

/// What paths are expanded with: the home directory and the environment.
#[derive(Debug)]
pub struct Surroundings {
    pub home: Option<String>,
    pub vars: Vec<(String, String)>,
}

pub type VarModels = Seq<(Seq<char>, Seq<char>)>;

pub ghost struct SurroundingsModel {
    pub home: Option<Seq<char>>,
    pub vars: VarModels,
}

pub open spec fn var_models(s: Seq<(String, String)>) -> VarModels {
    s.map_values(|p: (String, String)| (p.0@, p.1@))
}

impl Surroundings {
    pub open spec fn view(self) -> SurroundingsModel {
        SurroundingsModel { home: opt_text(self.home), vars: var_models(self.vars@) }
    }
}

/// The value of a variable.
pub open spec fn var(vars: VarModels, name: Seq<char>) -> Option<Seq<char>>
    decreases vars.len(),
{
    if vars.len() == 0 {
        None
    } else if vars[0].0 == name {
        Some(vars[0].1)
    } else {
        var(vars.skip(1), name)
    }
}

pub fn look_up(vars: &Vec<(String, String)>, name: &str) -> (r: Option<String>)
    ensures
        opt_text(r) == var(var_models(vars@), name@),
{
    let ghost all = var_models(vars@);
    let mut i: usize = 0;
    assert(all.skip(0) =~= all);
    while i < vars.len()
        invariant
            i <= vars.len(),
            all == var_models(vars@),
            var(all, name@) == var(all.skip(i as int), name@),
        decreases vars.len() - i,
    {
        assert(all.skip(i as int)[0] == (vars@[i as int].0@, vars@[i as int].1@));
        assert(all.skip(i as int).skip(1) =~= all.skip(i + 1));
        if same(vars[i].0.as_str(), name) {
            return Some(vars[i].1.clone());
        }
        i += 1;
    }
    None
}

/// What `shellexpand::full_with_context` makes of a path, with a home directory and variables; none
/// where the path names a variable that is not there.
pub uninterp spec fn shell_expanded(
    path: Seq<char>,
    home: Option<Seq<char>>,
    vars: Seq<(Seq<char>, Seq<char>)>,
) -> Option<Seq<char>>;

/// `shellexpand::full_with_context`. The claim is that the outcome is settled by the path, the home
/// directory and the variables.
#[verifier::external_body]
fn shell_expand(path: &str, home: &Option<String>, vars: &Vec<(String, String)>) -> (r: Option<
    String,
>)
    ensures
        opt_text(r) == shell_expanded(path@, opt_text(*home), var_models(vars@)),
{
    shellexpand::full_with_context(
        path,
        || home.clone(),
        |name| look_up(vars, name).map(Some).ok_or(()),
    ).ok().map(|text| text.into_owned())
}

/// A path with its home directory and variables put in.
pub open spec fn expanded(path: Seq<char>, s: SurroundingsModel) -> Seq<char> {
    if s.home is Some && has_prefix(path, "~/"@) {
        joined_path(s.home->0, path.skip(2))
    } else if has_prefix(path, "env:"@) && var(s.vars, path.skip(4)) is Some {
        var(s.vars, path.skip(4))->0
    } else {
        match shell_expanded(path, s.home, s.vars) {
            Some(t) => t,
            None => path,
        }
    }
}

pub fn expand_path(path: &str, s: &Surroundings) -> (r: String)
    ensures
        r@ == expanded(path@, s@),
{
    proof {
        reveal_strlit("~/");
        reveal_strlit("env:");
    }
    match (&s.home, strip_prefix(path, "~/")) {
        (Some(home), Some(rest)) => {
            return join_path(home.as_str(), rest.as_str());
        },
        _ => {},
    }
    match strip_prefix(path, "env:") {
        Some(key) => {
            match look_up(&s.vars, key.as_str()) {
                Some(v) => {
                    return v;
                },
                None => {},
            }
        },
        None => {},
    }
    match shell_expand(path, &s.home, &s.vars) {
        Some(t) => t,
        None => path.to_owned(),
    }
}

pub open spec fn expanded_opt(path: Option<Seq<char>>, s: SurroundingsModel) -> Option<Seq<char>> {
    match path {
        Some(p) => Some(expanded(p, s)),
        None => None,
    }
}

fn expand_opt(path: &Option<String>, s: &Surroundings) -> (r: Option<String>)
    ensures
        opt_text(r) == expanded_opt(opt_text(*path), s@),
{
    match path {
        Some(p) => Some(expand_path(p.as_str(), s)),
        None => None,
    }
}

/// A directory for sockets under its present name: `run` below `.runloop` has become `sock`.
pub open spec fn present_sockets_dir(p: Seq<char>) -> Seq<char> {
    match parent(p) {
        Some(above) => if file_name(p) == Some("run"@) && file_name(above) == Some(".runloop"@) {
            joined_path(above, "sock"@)
        } else {
            p
        },
        None => p,
    }
}

pub fn rewrite_sockets_dir(p: &str) -> (r: String)
    ensures
        r@ == present_sockets_dir(p@),
{
    match parent_of(p) {
        Some(above) => {
            let last = match file_name_of(p) {
                Some(n) => same(n.as_str(), "run"),
                None => false,
            };
            let inside = match file_name_of(above.as_str()) {
                Some(n) => same(n.as_str(), ".runloop"),
                None => false,
            };
            if last && inside {
                join_path(above.as_str(), "sock")
            } else {
                p.to_owned()
            }
        },
        None => p.to_owned(),
    }
}

pub open spec fn all_expanded(dirs: Seq<Seq<char>>, s: SurroundingsModel) -> Seq<Seq<char>> {
    dirs.map_values(|d: Seq<char>| expanded(d, s))
}

fn expand_all(dirs: &Vec<String>, s: &Surroundings) -> (r: Vec<String>)
    ensures
        texts(r@) == all_expanded(texts(dirs@), s@),
{
    let mut r: Vec<String> = Vec::new();
    let mut i: usize = 0;
    while i < dirs.len()
        invariant
            i <= dirs.len(),
            r@.len() == i,
            forall|k: int| 0 <= k < i ==> (#[trigger] r@[k])@ == expanded(dirs@[k]@, s@),
        decreases dirs.len() - i,
    {
        r.push(expand_path(dirs[i].as_str(), s));
        i += 1;
    }
    assert(texts(r@) =~= all_expanded(texts(dirs@), s@));
    r
}

/// A provider with its model directory expanded, and nothing else changed.
pub open spec fn provider_expanded(a: ModelProvider, b: ModelProvider, s: SurroundingsModel) -> bool {
    &&& opt_text(b.model_dir) == expanded_opt(opt_text(a.model_dir), s)
    &&& b == (ModelProvider { model_dir: b.model_dir, ..a })
}

/// Settings with all their paths expanded, and nothing else changed.
pub open spec fn paths_expanded(a: Config, b: Config, s: SurroundingsModel) -> bool {
    &&& b.runtime.workdir@ == expanded(a.runtime.workdir@, s)
    &&& b.runtime.sockets_dir@ == present_sockets_dir(expanded(a.runtime.sockets_dir@, s))
    &&& opt_text(b.runtime.socket_path) == expanded_opt(opt_text(a.runtime.socket_path), s)
    &&& b.runtime.base == a.runtime.base
    &&& b.runtime.agent_container == a.runtime.agent_container
    &&& b.runtime.max_agents == a.runtime.max_agents
    &&& b.runtime.pressure_threshold == a.runtime.pressure_threshold
    &&& b.kb.root_dir@ == expanded(a.kb.root_dir@, s)
    &&& b.kb.events_db == a.kb.events_db
    &&& b.kb.view_db == a.kb.view_db
    &&& b.kb.wal == a.kb.wal
    &&& b.kb.fts == a.kb.fts
    &&& b.kb.redaction == a.kb.redaction
    &&& opt_text(b.logging.file) == expanded_opt(opt_text(a.logging.file), s)
    &&& b.logging.level == a.logging.level
    &&& b.logging.format == a.logging.format
    &&& opt_text(b.security.secrets.root) == expanded_opt(opt_text(a.security.secrets.root), s)
    &&& b.security.secrets.provider == a.security.secrets.provider
    &&& b.security.secrets.encryption == a.security.secrets.encryption
    &&& b.security.secrets.master_key == a.security.secrets.master_key
    &&& b.security.secrets.allow_export == a.security.secrets.allow_export
    &&& b.security.secrets.allow_list == a.security.secrets.allow_list
    &&& b.security.secrets.default_ttl == a.security.secrets.default_ttl
    &&& b.security.confirm_external_actions == a.security.confirm_external_actions
    &&& b.security.allow_unsigned_agents == a.security.allow_unsigned_agents
    &&& b.security.allowed_agent_signers == a.security.allowed_agent_signers
    &&& b.security.caps == a.security.caps
    &&& b.security.testing == a.security.testing
    &&& texts(b.openings.search_dirs@) == all_expanded(texts(a.openings.search_dirs@), s)
    &&& texts(b.agents.search_dirs@) == all_expanded(texts(a.agents.search_dirs@), s)
    &&& b.models.default == a.models.default
    &&& b.models.broker.route == a.models.broker.route
    &&& b.models.broker.cache == a.models.broker.cache
    &&& b.models.broker.budgets == a.models.broker.budgets
    &&& b.models.broker.providers@.len() == a.models.broker.providers@.len()
    &&& forall|i: int|
        0 <= i < a.models.broker.providers@.len() ==> provider_expanded(
            #[trigger] a.models.broker.providers@[i],
            b.models.broker.providers@[i],
            s,
        )
    &&& b.version == a.version
    &&& b.router == a.router
    &&& b.ui == a.ui
    &&& b.observability == a.observability
    &&& b.bus == a.bus
}

fn expand_providers(v: &mut Vec<ModelProvider>, s: &Surroundings)
    ensures
        final(v)@.len() == old(v)@.len(),
        forall|i: int|
            0 <= i < old(v)@.len() ==> provider_expanded(
                #[trigger] old(v)@[i],
                final(v)@[i],
                s@,
            ),
{
    let ghost v0 = v@;
    let mut i: usize = 0;
    while i < v.len()
        invariant
            v0 == old(v)@,
            i <= v.len(),
            v@.len() == v0.len(),
            forall|k: int| 0 <= k < i ==> provider_expanded(#[trigger] v0[k], v@[k], s@),
            forall|k: int| i <= k < v0.len() ==> #[trigger] v@[k] == v0[k],
        decreases v.len() - i,
    {
        let ghost before = v@;
        let dir = expand_opt(&v[i].model_dir, s);
        v[i].model_dir = dir;
        assert(provider_expanded(v0[i as int], v@[i as int], s@));
        assert forall|k: int| 0 <= k < i implies provider_expanded(#[trigger] v0[k], v@[k], s@) by {
            assert(v@[k] == before[k]);
        }
        i += 1;
    }
}

/// The first thing that is wrong with the kinds of publishers.
pub open spec fn kinds_complaint(kinds: Seq<Seq<char>>) -> Option<Seq<char>>
    decreases kinds.len(),
{
    if kinds.len() == 0 {
        None
    } else {
        let kind = lower(trim(kinds[0]));
        if kind.len() == 0 {
            Some("empty publisher kind entry in bus.auth.publishers.action_decision.allowed_kinds"@)
        } else if kind == "ui"@ || kind == "tui"@ || kind == "agent"@ {
            kinds_complaint(kinds.skip(1))
        } else {
            Some(
                "unknown publisher kind '"@ + kind
                    + "' in bus.auth.publishers.action_decision.allowed_kinds"@,
            )
        }
    }
}

/// The first thing that is wrong with the settings.
pub open spec fn config_complaint(c: Config) -> Option<Seq<char>> {
    if c.version != 1 {
        Some("unsupported config version "@ + decimal(c.version as nat) + "; expected 1"@)
    } else if c.runtime.agent_container@ != "wasm32-wasip1"@ {
        Some(
            "runtime.agent_container must be \"wasm32-wasip1\" for MVP (found "@
                + c.runtime.agent_container@ + ")"@,
        )
    } else if c.observability.metrics_interval_ms < 100 || c.observability.metrics_interval_ms
        > 60_000 {
        Some(
            "observability.metrics_interval_ms must be between 100 and 60000 (found "@ + decimal(
                c.observability.metrics_interval_ms as nat,
            ) + ")"@,
        )
    } else if c.runtime.socket_path is Some && trim(c.runtime.socket_path->0@).len() == 0 {
        Some("runtime.socket_path cannot be empty when specified"@)
    } else if c.runtime.socket_path is None && trim(c.runtime.sockets_dir@).len() == 0 {
        Some("runtime.sockets_dir cannot be empty when runtime.socket_path is unset"@)
    } else {
        kinds_complaint(texts(c.bus.auth.publishers.action_decision.allowed_kinds@))
    }
}

fn check_kinds(kinds: &Vec<String>) -> (r: Option<String>)
    ensures
        opt_text(r) == kinds_complaint(texts(kinds@)),
{
    let ghost all = texts(kinds@);
    let mut i: usize = 0;
    assert(all.skip(0) =~= all);
    while i < kinds.len()
        invariant
            i <= kinds.len(),
            all == texts(kinds@),
            kinds_complaint(all) == kinds_complaint(all.skip(i as int)),
        decreases kinds.len() - i,
    {
        assert(all.skip(i as int)[0] == kinds@[i as int]@);
        assert(all.skip(i as int).skip(1) =~= all.skip(i + 1));
        let t = trimmed(kinds[i].as_str());
        let kind = lowered(t.as_str());
        if kind.as_str().is_empty() {
            return Some(
                "empty publisher kind entry in bus.auth.publishers.action_decision.allowed_kinds".to_owned(),
            );
        }
        if !(same(kind.as_str(), "ui") || same(kind.as_str(), "tui") || same(
            kind.as_str(),
            "agent",
        )) {
            return Some(
                concat3(
                    "unknown publisher kind '",
                    kind.as_str(),
                    "' in bus.auth.publishers.action_decision.allowed_kinds",
                ),
            );
        }
        i += 1;
    }
    None
}

impl Config {
    /// Refuses settings that the runtime cannot work with.
    pub fn validate(&self) -> (r: Result<(), Error>)
        ensures
            match r {
                Ok(_) => config_complaint(*self) is None,
                Err(e) => config_complaint(*self) matches Some(m) && e@ == ErrorModel::Config(m),
            },
    {
        if self.version != 1 {
            return Err(
                Error::Config(
                    concat3(
                        "unsupported config version ",
                        decimal_text(self.version as u64).as_str(),
                        "; expected 1",
                    ),
                ),
            );
        }
        if !same(self.runtime.agent_container.as_str(), "wasm32-wasip1") {
            return Err(
                Error::Config(
                    concat3(
                        "runtime.agent_container must be \"wasm32-wasip1\" for MVP (found ",
                        self.runtime.agent_container.as_str(),
                        ")",
                    ),
                ),
            );
        }
        if self.observability.metrics_interval_ms < 100 || self.observability.metrics_interval_ms
            > 60_000 {
            return Err(
                Error::Config(
                    concat3(
                        "observability.metrics_interval_ms must be between 100 and 60000 (found ",
                        decimal_text(self.observability.metrics_interval_ms as u64).as_str(),
                        ")",
                    ),
                ),
            );
        }
        match &self.runtime.socket_path {
            Some(p) => {
                if is_blank(p.as_str()) {
                    return Err(
                        Error::Config(
                            "runtime.socket_path cannot be empty when specified".to_owned(),
                        ),
                    );
                }
            },
            None => {
                if is_blank(self.runtime.sockets_dir.as_str()) {
                    return Err(
                        Error::Config(
                            "runtime.sockets_dir cannot be empty when runtime.socket_path is unset".to_owned(),
                        ),
                    );
                }
            },
        }
        match check_kinds(&self.bus.auth.publishers.action_decision.allowed_kinds) {
            Some(m) => Err(Error::Config(m)),
            None => Ok(()),
        }
    }

    /// Expands all paths of the settings.
    pub fn expand_paths(&mut self, s: &Surroundings)
        ensures
            paths_expanded(*old(self), *final(self), s@),
    {
        let workdir = expand_path(self.runtime.workdir.as_str(), s);
        self.runtime.workdir = workdir;
        let sockets = expand_path(self.runtime.sockets_dir.as_str(), s);
        self.runtime.sockets_dir = rewrite_sockets_dir(sockets.as_str());
        let socket = expand_opt(&self.runtime.socket_path, s);
        self.runtime.socket_path = socket;
        expand_providers(&mut self.models.broker.providers, s);
        let root = expand_path(self.kb.root_dir.as_str(), s);
        self.kb.root_dir = root;
        let file = expand_opt(&self.logging.file, s);
        self.logging.file = file;
        let secrets = expand_opt(&self.security.secrets.root, s);
        self.security.secrets.root = secrets;
        let openings = expand_all(&self.openings.search_dirs, s);
        self.openings.search_dirs = openings;
        let agents = expand_all(&self.agents.search_dirs, s);
        self.agents.search_dirs = agents;
    }
}

/// The settings are refused exactly where something is wrong with them, and the defaults are not,
/// wherever the sockets are kept.
pub proof fn defaults_are_valid(c: Config, runtime_dir: Option<Seq<char>>)
    requires
        crate::config::settings::is_default_config(c, runtime_dir),
    ensures
        config_complaint(c) is None,
{
    let kinds = texts(c.bus.auth.publishers.action_decision.allowed_kinds@);
    assert(kinds =~= seq!["ui"@, "tui"@]);
    lemma_plain_kind("ui"@);
    lemma_plain_kind("tui"@);
    reveal_strlit("ui");
    reveal_strlit("tui");
    assert(lower("ui"@) =~= "ui"@);
    assert(lower("tui"@) =~= "tui"@);
    assert(kinds.skip(1) =~= seq!["tui"@]);
    assert(kinds.skip(1).skip(1) =~= seq![]);
    assert(kinds_complaint(kinds.skip(1).skip(1)) is None);
    assert(kinds_complaint(kinds.skip(1)) is None);
    assert(kinds_complaint(kinds) is None);
    let d = c.runtime.sockets_dir@;
    reveal_strlit("~/.runloop/sock");
    reveal_strlit("/runloop");
    assert(d.len() > 0 && !crate::text::is_white_space(d.last())) by {
        if d == "~/.runloop/sock"@ {
            assert(d.last() == 'k');
        } else {
            assert(d.last() == "/runloop"@.last());
            assert(d.last() == 'p');
        }
    }
    lemma_visible(d);
}

proof fn lemma_plain_kind(s: Seq<char>)
    requires
        s == "ui"@ || s == "tui"@,
    ensures
        trim(s) == s,
{
    reveal_strlit("ui");
    reveal_strlit("tui");
    assert(!crate::text::is_white_space(s[0]));
    assert(!crate::text::is_white_space(s.last()));
}

proof fn lemma_visible(s: Seq<char>)
    requires
        s.len() > 0,
        !crate::text::is_white_space(s.last()),
    ensures
        trim(s).len() > 0,
    decreases s.len(),
{
    lemma_start_keeps_last(s);
}

proof fn lemma_start_keeps_last(s: Seq<char>)
    requires
        s.len() > 0,
        !crate::text::is_white_space(s.last()),
    ensures
        crate::text::trim_start(s).len() > 0,
        crate::text::trim_start(s).last() == s.last(),
    decreases s.len(),
{
    if crate::text::is_white_space(s[0]) {
        assert(s.len() > 1);
        assert(s.skip(1).last() == s.last());
        lemma_start_keeps_last(s.skip(1));
    }
}

} // verus!
