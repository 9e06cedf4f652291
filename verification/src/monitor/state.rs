//! What the monitor knows.

use crate::json::{compact, json_text, list_in, list_model, map_in, text_in, tree_get, tree_list, tree_map, tree_text, tree_unsigned, unsigned_in, Json, JsonMap, JsonModel, MapModel};
use crate::shelf::{find_place, keys_of, raw_keys, shelf_put};
use crate::text::{concat3, contains, copy_opt, has_text, opt_text, same, texts};
use vstd::prelude::*;

verus! {

#[derive(Clone, Copy, Debug, PartialEq, Eq, Structural)]
pub enum Pane {
    Log,
    Plan,
    Metrics,
    Trace,
}

#[derive(Debug)]
pub struct LogEntry {
    pub ts: u64,
    pub level: String,
    pub msg: String,
    pub node: Option<String>,
}

#[derive(Debug)]
pub struct NodeStatus {
    pub id: String,
    pub status: String,
    pub attempt: u32,
    pub duration: u64,
    pub error_count: u32,
    pub inputs: Vec<String>,
    pub outputs: Vec<String>,
}

#[derive(Debug)]
pub struct MetricGroup {
    pub values: Vec<(String, String)>,
}

#[derive(Debug)]
pub struct TraceEntry {
    pub ts: u64,
    pub msg: String,
    pub kind: String,
}

/// What has been seen. Nodes and groups of metrics stand in the order of their names.
#[derive(Debug)]
pub struct AppState {
    pub logs: Vec<LogEntry>,
    pub plan: Vec<(String, NodeStatus)>,
    pub metrics: Vec<(String, MetricGroup)>,
    pub trace: Vec<TraceEntry>,
    pub last_updated: Option<u64>,
}

pub ghost struct LogModel {
    pub ts: u64,
    pub level: Seq<char>,
    pub msg: Seq<char>,
    pub node: Option<Seq<char>>,
}

pub ghost struct NodeModel {
    pub id: Seq<char>,
    pub status: Seq<char>,
    pub attempt: u32,
    pub duration: u64,
    pub error_count: u32,
    pub inputs: Seq<Seq<char>>,
    pub outputs: Seq<Seq<char>>,
}

pub ghost struct TraceModel {
    pub ts: u64,
    pub msg: Seq<char>,
    pub kind: Seq<char>,
}

pub type GroupModel = Seq<(Seq<char>, Seq<char>)>;

pub ghost struct StateModel {
    pub logs: Seq<LogModel>,
    pub plan: Seq<(Seq<char>, NodeModel)>,
    pub metrics: Seq<(Seq<char>, GroupModel)>,
    pub trace: Seq<TraceModel>,
    pub last_updated: Option<u64>,
}

impl LogEntry {
    pub open spec fn view(self) -> LogModel {
        LogModel { ts: self.ts, level: self.level@, msg: self.msg@, node: opt_text(self.node) }
    }
}

impl NodeStatus {
    pub open spec fn view(self) -> NodeModel {
        NodeModel {
            id: self.id@,
            status: self.status@,
            attempt: self.attempt,
            duration: self.duration,
            error_count: self.error_count,
            inputs: texts(self.inputs@),
            outputs: texts(self.outputs@),
        }
    }
}

impl MetricGroup {
    pub open spec fn view(self) -> GroupModel {
        self.values@.map_values(|e: (String, String)| (e.0@, e.1@))
    }
}

impl TraceEntry {
    pub open spec fn view(self) -> TraceModel {
        TraceModel { ts: self.ts, msg: self.msg@, kind: self.kind@ }
    }
}

pub open spec fn log_models(s: Seq<LogEntry>) -> Seq<LogModel> {
    s.map_values(|e: LogEntry| e@)
}

pub open spec fn node_models(s: Seq<(String, NodeStatus)>) -> Seq<(Seq<char>, NodeModel)> {
    s.map_values(|e: (String, NodeStatus)| (e.0@, e.1@))
}

pub open spec fn group_models(s: Seq<(String, MetricGroup)>) -> Seq<(Seq<char>, GroupModel)> {
    s.map_values(|e: (String, MetricGroup)| (e.0@, e.1@))
}

pub open spec fn trace_models(s: Seq<TraceEntry>) -> Seq<TraceModel> {
    s.map_values(|e: TraceEntry| e@)
}

impl AppState {
    pub open spec fn view(self) -> StateModel {
        StateModel {
            logs: log_models(self.logs@),
            plan: node_models(self.plan@),
            metrics: group_models(self.metrics@),
            trace: trace_models(self.trace@),
            last_updated: self.last_updated,
        }
    }
}

pub open spec fn nothing_seen() -> StateModel {
    StateModel {
        logs: seq![],
        plan: seq![],
        metrics: seq![],
        trace: seq![],
        last_updated: None,
    }
}

impl Default for AppState {
    fn default() -> (r: Self)
        ensures
            r@ == nothing_seen(),
    {
        let r = AppState {
            logs: Vec::new(),
            plan: Vec::new(),
            metrics: Vec::new(),
            trace: Vec::new(),
            last_updated: None,
        };
        assert(r@.logs =~= seq![]);
        assert(r@.plan =~= seq![]);
        assert(r@.metrics =~= seq![]);
        assert(r@.trace =~= seq![]);
        r
    }
}

/// What an event of a run says, with the usual values where it says nothing.
pub ghost struct SaidModel {
    pub kind: Seq<char>,
    pub ts: u64,
    pub node: Option<Seq<char>>,
    pub level: Seq<char>,
    pub message: Seq<char>,
    pub meta: Option<JsonModel>,
}

pub open spec fn or_text(t: Option<Seq<char>>, usual: Seq<char>) -> Seq<char> {
    match t {
        Some(s) => s,
        None => usual,
    }
}

pub open spec fn meta_get(meta: Option<JsonModel>, key: Seq<char>) -> Option<JsonModel> {
    match meta {
        Some(j) => tree_get(j, key),
        None => None,
    }
}

pub open spec fn said(payload: JsonModel, now: u64) -> SaidModel {
    let meta = tree_get(payload, "meta"@);
    SaidModel {
        kind: or_text(tree_text(tree_get(payload, "kind"@)), "unknown"@),
        ts: match (
            tree_unsigned(tree_get(payload, "ts_ms"@)),
            tree_unsigned(meta_get(meta, "ts_ms"@)),
        ) {
            (Some(t), _) => t,
            (None, Some(t)) => t,
            (None, None) => now,
        },
        node: match meta_get(meta, "node_id"@) {
            Some(j) => tree_text(Some(j)),
            None => tree_text(meta_get(meta, "node"@)),
        },
        level: or_text(tree_text(tree_get(payload, "level"@)), "info"@),
        message: or_text(tree_text(tree_get(payload, "message"@)), ""@),
        meta,
    }
}

pub open spec fn is_log_kind(kind: Seq<char>) -> bool {
    kind == "log"@ || kind == "node.stdout"@ || kind == "node.stderr"@
}

pub open spec fn is_plan_kind(kind: Seq<char>) -> bool {
    kind == "plan"@ || kind == "status"@ || kind == "node.started"@ || kind == "node.finished"@
        || kind == "run.finished"@
}

pub open spec fn is_trace_kind(kind: Seq<char>) -> bool {
    kind == "trace"@ || kind == "trace.line"@
}

pub open spec fn logged(s: StateModel, e: SaidModel, msg: Seq<char>, node: Option<Seq<char>>) -> StateModel {
    StateModel { logs: s.logs.push(LogModel { ts: e.ts, level: e.level, msg, node }), ..s }
}

pub open spec fn fresh_node(id: Seq<char>) -> NodeModel {
    NodeModel {
        id,
        status: "pending"@,
        attempt: 0,
        duration: 0,
        error_count: 0,
        inputs: seq![],
        outputs: seq![],
    }
}

/// The texts in a list; what is no text is left out.
pub open spec fn texts_in(s: Seq<JsonModel>) -> Seq<Seq<char>>
    decreases s.len(),
{
    if s.len() == 0 {
        seq![]
    } else {
        match s.last() {
            JsonModel::Text(t) => texts_in(s.drop_last()).push(t),
            _ => texts_in(s.drop_last()),
        }
    }
}

/// A count that begins again at nothing where it has no room left.
pub open spec fn one_more(n: u32) -> u32 {
    if n == u32::MAX {
        0
    } else {
        (n + 1) as u32
    }
}

/// A node after an event about it.
pub open spec fn node_after(n: NodeModel, e: SaidModel) -> NodeModel {
    NodeModel {
        id: n.id,
        status: or_text(tree_text(meta_get(e.meta, "state"@)), e.kind),
        attempt: match tree_unsigned(meta_get(e.meta, "attempt"@)) {
            Some(a) => (a % 0x1_0000_0000) as u32,
            None => n.attempt,
        },
        duration: match tree_unsigned(meta_get(e.meta, "duration_ms"@)) {
            Some(d) => d,
            None => n.duration,
        },
        error_count: if has_text(e.message, "failed"@) {
            one_more(n.error_count)
        } else {
            n.error_count
        },
        inputs: match tree_list(meta_get(e.meta, "inputs"@)) {
            Some(l) => texts_in(l),
            None => n.inputs,
        },
        outputs: match tree_list(meta_get(e.meta, "outputs"@)) {
            Some(l) => texts_in(l),
            None => n.outputs,
        },
    }
}

pub open spec fn planned(s: StateModel, e: SaidModel, id: Seq<char>) -> StateModel {
    let before = match crate::shelf::shelf_get(s.plan, id) {
        Some(n) => n,
        None => fresh_node(id),
    };
    StateModel { plan: shelf_put(s.plan, id, node_after(before, e)), ..s }
}

/// What is known after an event of a run.
pub open spec fn run_seen(s: StateModel, payload: JsonModel, now: u64) -> StateModel {
    let e = said(payload, now);
    let t = StateModel { last_updated: Some(e.ts), ..s };
    if is_log_kind(e.kind) {
        logged(t, e, e.message, e.node)
    } else if is_plan_kind(e.kind) {
        match e.node {
            Some(id) => planned(t, e, id),
            None => logged(t, e, e.message, None),
        }
    } else if is_trace_kind(e.kind) {
        StateModel {
            trace: t.trace.push(TraceModel { ts: e.ts, msg: e.message, kind: e.kind }),
            ..t
        }
    } else {
        logged(t, e, e.kind + ": "@ + e.message, e.node)
    }
}

fn text_or(j: Option<&Json>, usual: &str) -> (r: String)
    ensures
        r@ == or_text(tree_text(crate::json::opt_model(j)), usual@),
{
    match text_in(j) {
        Some(t) => t.clone(),
        None => usual.to_owned(),
    }
}

fn meta_in<'a>(meta: Option<&'a Json>, key: &str) -> (r: Option<&'a Json>)
    ensures
        crate::json::opt_model(r) == meta_get(crate::json::opt_model(meta), key@),
{
    match meta {
        Some(j) => j.get(key),
        None => None,
    }
}

fn texts_of(v: &Vec<Json>) -> (r: Vec<String>)
    ensures
        texts(r@) == texts_in(list_model(v@)),
{
    let ghost all = list_model(v@);
    let mut out: Vec<String> = Vec::new();
    let mut i: usize = 0;
    assert(texts(out@) =~= texts_in(all.take(0)));
    while i < v.len()
        invariant
            i <= v.len(),
            all == list_model(v@),
            texts(out@) == texts_in(all.take(i as int)),
        decreases v.len() - i,
    {
        assert(all.take(i + 1).drop_last() =~= all.take(i as int));
        assert(all.take(i + 1).last() == v@[i as int]@);
        let ghost o = out@;
        match &v[i] {
            Json::Text(t) => {
                out.push(t.clone());
                assert(texts(out@) =~= texts(o).push(t@));
            },
            _ => {},
        }
        i += 1;
    }
    assert(all.take(all.len() as int) =~= all);
    out
}

/// What an event of a run says.
struct Said<'a> {
    kind: String,
    ts: u64,
    node: Option<String>,
    level: String,
    message: String,
    meta: Option<&'a Json>,
}

impl<'a> Said<'a> {
    spec fn view(self) -> SaidModel {
        SaidModel {
            kind: self.kind@,
            ts: self.ts,
            node: opt_text(self.node),
            level: self.level@,
            message: self.message@,
            meta: crate::json::opt_model(self.meta),
        }
    }
}

fn read_said<'a>(payload: &'a Json, now: u64) -> (r: Said<'a>)
    ensures
        r@ == said(payload@, now),
{
    let meta = payload.get("meta");
    let ts: u64 = match unsigned_in(payload.get("ts_ms")) {
        Some(t) => t,
        None => match unsigned_in(meta_in(meta, "ts_ms")) {
            Some(t) => t,
            None => now,
        },
    };
    let named = match meta_in(meta, "node_id") {
        Some(j) => text_in(Some(j)),
        None => text_in(meta_in(meta, "node")),
    };
    let node = match named {
        Some(t) => Some(t.clone()),
        None => None,
    };
    Said {
        kind: text_or(payload.get("kind"), "unknown"),
        ts,
        node,
        level: text_or(payload.get("level"), "info"),
        message: text_or(payload.get("message"), ""),
        meta,
    }
}

/// A node after an event about it.
fn update_node(n: NodeStatus, e: &Said) -> (r: NodeStatus)
    ensures
        r@ == node_after(n@, e@),
{
    let status = match text_in(meta_in(e.meta, "state")) {
        Some(t) => t.clone(),
        None => e.kind.clone(),
    };
    let attempt: u32 = match unsigned_in(meta_in(e.meta, "attempt")) {
        Some(a) => (a % 0x1_0000_0000) as u32,
        None => n.attempt,
    };
    let duration: u64 = match unsigned_in(meta_in(e.meta, "duration_ms")) {
        Some(d) => d,
        None => n.duration,
    };
    let error_count: u32 = if contains(e.message.as_str(), "failed") {
        if n.error_count == u32::MAX {
            0
        } else {
            n.error_count + 1
        }
    } else {
        n.error_count
    };
    let inputs = match list_in(meta_in(e.meta, "inputs")) {
        Some(l) => texts_of(l),
        None => n.inputs,
    };
    let outputs = match list_in(meta_in(e.meta, "outputs")) {
        Some(l) => texts_of(l),
        None => n.outputs,
    };
    NodeStatus { id: n.id, status, attempt, duration, error_count, inputs, outputs }
}

impl AppState {
    fn log(&mut self, ts: u64, level: String, msg: String, node: Option<String>)
        ensures
            final(self)@ == (StateModel {
                logs: old(self)@.logs.push(
                    LogModel { ts, level: level@, msg: msg@, node: opt_text(node) },
                ),
                ..old(self)@
            }),
    {
        let ghost o = self.logs@;
        let e = LogEntry { ts, level, msg, node };
        self.logs.push(e);
        assert(log_models(self.logs@) =~= log_models(o).push(e@));
    }

    fn plan_node(&mut self, id: String, e: &Said)
        ensures
            final(self)@ == planned(old(self)@, e@, id@),
    {
        let ghost before = self.plan@;
        let (i, found) = find_place(&self.plan, id.as_str());
        assert(raw_keys(before) =~= keys_of(node_models(before)));
        let ghost spec_before = node_models(before);
        if found {
            let ghost n0 = before[i as int].1@;
            let (key, old_node) = self.plan.remove(i);
            let node = update_node(old_node, e);
            self.plan.insert(i, (key, node));
            assert(node_models(self.plan@) =~= spec_before.update(i as int, (id@, node@)));
        } else {
            let none_in: Vec<String> = Vec::new();
            let none_out: Vec<String> = Vec::new();
            assert(texts(none_in@) =~= seq![]);
            assert(texts(none_out@) =~= seq![]);
            let fresh = NodeStatus {
                id: id.clone(),
                status: "pending".to_owned(),
                attempt: 0,
                duration: 0,
                error_count: 0,
                inputs: none_in,
                outputs: none_out,
            };
            assert(fresh@ == fresh_node(id@));
            let node = update_node(fresh, e);
            let ghost kv = (id@, node@);
            self.plan.insert(i, (id, node));
            assert(node_models(self.plan@) =~= spec_before.insert(i as int, kv));
        }
    }

    /// Takes an event of a run in.
    pub fn process_run_event(&mut self, payload: &Json, now: u64)
        ensures
            final(self)@ == run_seen(old(self)@, payload@, now),
    {
        let e = read_said(payload, now);
        self.last_updated = Some(e.ts);
        let kind = e.kind.as_str();
        if same(kind, "log") || same(kind, "node.stdout") || same(kind, "node.stderr") {
            self.log(e.ts, e.level, e.message, e.node);
        } else if same(kind, "plan") || same(kind, "status") || same(kind, "node.started") || same(
            kind,
            "node.finished",
        ) || same(kind, "run.finished") {
            match copy_opt(&e.node) {
                Some(id) => self.plan_node(id, &e),
                None => self.log(e.ts, e.level, e.message, None),
            }
        } else if same(kind, "trace") || same(kind, "trace.line") {
            let ghost o = self.trace@;
            let t = TraceEntry { ts: e.ts, msg: e.message, kind: e.kind };
            self.trace.push(t);
            assert(trace_models(self.trace@) =~= trace_models(o).push(t@));
        } else {
            let msg = concat3(kind, ": ", e.message.as_str());
            self.log(e.ts, e.level, msg, e.node);
        }
    }
}

/// A JSON number in the form that formatting with two decimals gives it, where the text is one.
pub uninterp spec fn two_decimals(text: Seq<char>) -> Option<Seq<char>>;

/// `serde_json::Number::as_f64` on the number in a text, formatted with two decimals. The claim is
/// that the text alone settles the outcome.
#[verifier::external_body]
fn with_two_decimals(text: &str) -> (r: Option<String>)
    ensures
        opt_text(r) == two_decimals(text@),
{
    let number = serde_json::from_str::<serde_json::Number>(text).ok()?;
    number.as_f64().map(|n| format!("{:.2}", n))
}

/// How a metric is shown: numbers with two decimals, texts as they are, anything else as JSON.
pub open spec fn metric_text(j: JsonModel) -> Seq<char> {
    match j {
        JsonModel::Number(_) => match two_decimals(json_text(j)) {
            Some(t) => t,
            None => json_text(j),
        },
        JsonModel::Text(t) => t,
        _ => json_text(j),
    }
}

fn show_metric(j: &Json) -> (r: String)
    ensures
        r@ == metric_text(j@),
{
    match j {
        Json::Number(_) => {
            let t = compact(j);
            match with_two_decimals(t.as_str()) {
                Some(s) => s,
                None => t,
            }
        },
        Json::Text(t) => t.clone(),
        _ => compact(j),
    }
}

/// A group after its first `n` metrics have been taken in.
pub open spec fn group_after(g: GroupModel, m: MapModel, n: nat) -> GroupModel
    decreases n,
{
    if n == 0 {
        g
    } else {
        shelf_put(group_after(g, m, (n - 1) as nat), m[n - 1].0, metric_text(m[n - 1].1))
    }
}

/// What is known after metrics of a source; those of no source are the system's.
pub open spec fn metrics_seen(s: StateModel, payload: JsonModel, source: Option<Seq<char>>) -> StateModel {
    let scope = or_text(source, "system"@);
    let before = match crate::shelf::shelf_get(s.metrics, scope) {
        Some(g) => g,
        None => seq![],
    };
    let after = match tree_map(Some(payload)) {
        Some(m) => group_after(before, m, m.len()),
        None => before,
    };
    StateModel { metrics: shelf_put(s.metrics, scope, after), ..s }
}

impl MetricGroup {
    fn put(&mut self, key: String, value: String)
        ensures
            final(self)@ == shelf_put(old(self)@, key@, value@),
    {
        let ghost before = self.values@;
        let ghost model = self@;
        let (i, found) = find_place(&self.values, key.as_str());
        assert(raw_keys(before) =~= keys_of(model));
        let ghost kv = (key@, value@);
        if found {
            self.values.set(i, (key, value));
            assert(self@ =~= model.update(i as int, kv));
        } else {
            self.values.insert(i, (key, value));
            assert(self@ =~= model.insert(i as int, kv));
        }
    }

    fn put_all(&mut self, m: &JsonMap)
        ensures
            final(self)@ == group_after(old(self)@, m@, m@.len()),
    {
        let ghost g0 = self@;
        let mut i: usize = 0;
        while i < m.entries.len()
            invariant
                i <= m.entries.len(),
                g0 == old(self)@,
                m@.len() == m.entries@.len(),
                self@ == group_after(g0, m@, i as nat),
            decreases m.entries.len() - i,
        {
            assert(m@[i as int] == (m.entries@[i as int].0@, m.entries@[i as int].1@));
            self.put(m.entries[i].0.clone(), show_metric(&m.entries[i].1));
            i += 1;
        }
    }
}

impl AppState {
    /// Takes metrics in.
    pub fn process_metrics(&mut self, payload: &Json, source: Option<String>)
        ensures
            final(self)@ == metrics_seen(old(self)@, payload@, opt_text(source)),
    {
        let scope = match source {
            Some(s) => s,
            None => "system".to_owned(),
        };
        let ghost before = self.metrics@;
        let ghost model = group_models(before);
        let (i, found) = find_place(&self.metrics, scope.as_str());
        assert(raw_keys(before) =~= keys_of(model));
        if found {
            let (key, old_group) = self.metrics.remove(i);
            let mut group = old_group;
            match map_in(Some(payload)) {
                Some(m) => group.put_all(m),
                None => {},
            }
            let ghost kv = (scope@, group@);
            self.metrics.insert(i, (key, group));
            assert(group_models(self.metrics@) =~= model.update(i as int, kv));
        } else {
            let mut group = MetricGroup { values: Vec::new() };
            assert(group@ =~= seq![]);
            match map_in(Some(payload)) {
                Some(m) => group.put_all(m),
                None => {},
            }
            let ghost kv = (scope@, group@);
            self.metrics.insert(i, (scope, group));
            assert(group_models(self.metrics@) =~= model.insert(i as int, kv));
        }
    }
}

/// Nothing that was logged is lost, and events about nodes leave the logs alone.
pub proof fn logs_only_grow(s: StateModel, payload: JsonModel, now: u64)
    ensures
        run_seen(s, payload, now).logs.len() <= s.logs.len() + 1,
        run_seen(s, payload, now).logs.take(s.logs.len() as int) == s.logs,
        is_plan_kind(said(payload, now).kind) && said(payload, now).node is Some && !is_log_kind(
            said(payload, now).kind,
        ) ==> run_seen(s, payload, now).logs == s.logs,
        run_seen(s, payload, now).metrics == s.metrics,
{
    let e = said(payload, now);
    let r = run_seen(s, payload, now);
    assert(s.logs.take(s.logs.len() as int) =~= s.logs);
    assert(r.logs.take(s.logs.len() as int) =~= s.logs);
}

} // verus!
