//! What the panes of the monitor show.

use crate::monitor::keys::App;
use crate::monitor::state::{
    group_models, log_models, node_models, trace_models, AppState, GroupModel, LogEntry, LogModel,
    MetricGroup, NodeModel, NodeStatus, Pane, StateModel, TraceEntry, TraceModel,
};
use crate::shelf::{find_place, keys_of, raw_keys, shelf_get};
use crate::text::{
    concat, concat3, contains, decimal, decimal_text, has_text, opt_text, same, texts,
};
use vstd::prelude::*;

verus! {

/// The colour of something that is shown.
#[derive(Clone, Copy, Debug, PartialEq, Eq, Structural)]
pub enum Tint {
    Red,
    Yellow,
    Green,
    Blue,
    Gray,
    White,
}

/// Whether something is shown while a filter is set.
pub open spec fn passes(filter: Seq<char>, text: Seq<char>) -> bool {
    filter.len() == 0 || has_text(text, filter)
}

fn pass(filter: &str, text: &str) -> (r: bool)
    ensures
        r == passes(filter@, text@),
{
    filter.is_empty() || contains(text, filter)
}

pub open spec fn filter_of(f: Option<Seq<char>>) -> Seq<char> {
    match f {
        Some(t) => t,
        None => ""@,
    }
}

/// A text with spaces behind it, up to five characters.
pub open spec fn padded(s: Seq<char>) -> Seq<char>
    decreases 5 - s.len(),
{
    if s.len() < 5 {
        padded(s.push(' '))
    } else {
        s
    }
}

fn pad(s: &str) -> (r: String)
    ensures
        r@ == padded(s@),
{
    let mut out = s.to_owned();
    let mut n: usize = crate::text::chars_of(s).len();
    while n < 5
        invariant
            n == out@.len(),
            padded(s@) == padded(out@),
        decreases 5 - n,
    {
        out.push(' ');
        n += 1;
    }
    out
}

pub open spec fn level_tint(level: Seq<char>) -> Tint {
    if level == "ERROR"@ {
        Tint::Red
    } else if level == "WARN"@ {
        Tint::Yellow
    } else if level == "INFO"@ {
        Tint::Green
    } else {
        Tint::White
    }
}

pub open spec fn log_line(l: LogModel) -> Seq<char> {
    "["@ + decimal(l.ts as nat) + "] "@ + padded(l.level) + " "@ + (match l.node {
        Some(n) => n,
        None => "-"@,
    }) + " "@ + l.msg
}

/// A line and its colour.
pub open spec fn log_row(l: LogModel) -> (Tint, Seq<char>) {
    (level_tint(l.level), log_line(l))
}

/// The log entries that pass the filter, the newest first.
pub open spec fn log_rows(s: Seq<LogModel>, filter: Seq<char>) -> Seq<(Tint, Seq<char>)>
    decreases s.len(),
{
    if s.len() == 0 {
        seq![]
    } else if passes(filter, s.last().msg) || passes(filter, s.last().level) {
        seq![log_row(s.last())] + log_rows(s.drop_last(), filter)
    } else {
        log_rows(s.drop_last(), filter)
    }
}

#[derive(Debug)]
pub struct TintedLine {
    pub tint: Tint,
    pub text: String,
}

pub open spec fn line_models(s: Seq<TintedLine>) -> Seq<(Tint, Seq<char>)> {
    s.map_values(|l: TintedLine| (l.tint, l.text@))
}

fn show_log(l: &LogEntry) -> (r: TintedLine)
    ensures
        (r.tint, r.text@) == log_row(l@),
{
    let level = l.level.as_str();
    let tint = if same(level, "ERROR") {
        Tint::Red
    } else if same(level, "WARN") {
        Tint::Yellow
    } else if same(level, "INFO") {
        Tint::Green
    } else {
        Tint::White
    };
    let mut out = concat3("[", decimal_text(l.ts).as_str(), "] ");
    out.append(pad(level).as_str());
    out.append(" ");
    match &l.node {
        Some(n) => out.append(n.as_str()),
        None => out.append("-"),
    }
    out.append(" ");
    out.append(l.msg.as_str());
    TintedLine { tint, text: out }
}

fn filter_text(f: &Option<String>) -> (r: &str)
    ensures
        r@ == filter_of(opt_text(*f)),
{
    match f {
        Some(t) => t.as_str(),
        None => "",
    }
}

pub fn logs_pane(app: &App) -> (r: Vec<TintedLine>)
    ensures
        line_models(r@) == log_rows(app@.state.logs, filter_of(app@.filter)),
{
    let filter = filter_text(&app.filter_input);
    let logs = &app.state.logs;
    let ghost all = log_models(logs@);
    let mut out: Vec<TintedLine> = Vec::new();
    let mut i: usize = logs.len();
    assert(all.take(all.len() as int) =~= all);
    assert(line_models(out@) + log_rows(all, filter@) =~= log_rows(all, filter@));
    while i > 0
        invariant
            i <= logs.len(),
            all == log_models(logs@),
            line_models(out@) + log_rows(all.take(i as int), filter@) == log_rows(all, filter@),
        decreases i,
    {
        let ghost part = all.take(i as int);
        assert(part.drop_last() =~= all.take(i - 1));
        i -= 1;
        let l = &logs[i];
        assert(part.last() == l@);
        let ghost o = out@;
        if pass(filter, l.msg.as_str()) || pass(filter, l.level.as_str()) {
            let line = show_log(l);
            out.push(line);
            assert(line_models(out@) =~= line_models(o).push(log_row(l@)));
            assert(line_models(out@) + log_rows(all.take(i as int), filter@) =~= line_models(o) + (
            seq![log_row(l@)] + log_rows(all.take(i as int), filter@)));
        }
    }
    assert(all.take(0) =~= seq![]);
    assert(line_models(out@) + log_rows(all.take(0), filter@) =~= line_models(out@));
    out
}

pub open spec fn status_tint(status: Seq<char>) -> Tint {
    if status == "ok"@ || status == "succeeded"@ {
        Tint::Green
    } else if status == "error"@ || status == "failed"@ {
        Tint::Red
    } else if status == "running"@ {
        Tint::Blue
    } else if status == "pending"@ {
        Tint::Gray
    } else {
        Tint::White
    }
}

/// A node as a row: its name, status, attempt, duration, errors, and how many inputs and outputs
/// it has. The colour is that of the status.
pub open spec fn node_cells(n: NodeModel) -> Seq<Seq<char>> {
    seq![
        n.id,
        n.status,
        decimal(n.attempt as nat),
        decimal(n.duration as nat) + "ms"@,
        decimal(n.error_count as nat),
        decimal(n.inputs.len()),
        decimal(n.outputs.len()),
    ]
}

/// The nodes that pass the filter, in the order of their names.
pub open spec fn plan_rows(s: Seq<(Seq<char>, NodeModel)>, filter: Seq<char>) -> Seq<
    (Tint, Seq<Seq<char>>),
>
    decreases s.len(),
{
    if s.len() == 0 {
        seq![]
    } else if passes(filter, s.last().1.id) {
        plan_rows(s.drop_last(), filter).push(
            (status_tint(s.last().1.status), node_cells(s.last().1)),
        )
    } else {
        plan_rows(s.drop_last(), filter)
    }
}

#[derive(Debug)]
pub struct PlanRow {
    pub tint: Tint,
    pub cells: Vec<String>,
}

pub open spec fn row_models(s: Seq<PlanRow>) -> Seq<(Tint, Seq<Seq<char>>)> {
    s.map_values(|r: PlanRow| (r.tint, texts(r.cells@)))
}

fn show_node(n: &NodeStatus) -> (r: PlanRow)
    ensures
        r.tint == status_tint(n.status@),
        texts(r.cells@) == node_cells(n@),
{
    let status = n.status.as_str();
    let tint = if same(status, "ok") || same(status, "succeeded") {
        Tint::Green
    } else if same(status, "error") || same(status, "failed") {
        Tint::Red
    } else if same(status, "running") {
        Tint::Blue
    } else if same(status, "pending") {
        Tint::Gray
    } else {
        Tint::White
    };
    let mut cells: Vec<String> = Vec::new();
    cells.push(n.id.clone());
    cells.push(n.status.clone());
    cells.push(decimal_text(n.attempt as u64));
    cells.push(concat(decimal_text(n.duration).as_str(), "ms"));
    cells.push(decimal_text(n.error_count as u64));
    cells.push(decimal_text(n.inputs.len() as u64));
    cells.push(decimal_text(n.outputs.len() as u64));
    assert(texts(cells@) =~= node_cells(n@));
    PlanRow { tint, cells }
}

pub fn plan_pane(app: &App) -> (r: Vec<PlanRow>)
    ensures
        row_models(r@) == plan_rows(app@.state.plan, filter_of(app@.filter)),
{
    let filter = filter_text(&app.filter_input);
    let plan = &app.state.plan;
    let ghost all = node_models(plan@);
    let mut out: Vec<PlanRow> = Vec::new();
    let mut i: usize = 0;
    assert(row_models(out@) =~= plan_rows(all.take(0), filter@));
    while i < plan.len()
        invariant
            i <= plan.len(),
            all == node_models(plan@),
            row_models(out@) == plan_rows(all.take(i as int), filter@),
        decreases plan.len() - i,
    {
        assert(all.take(i + 1).drop_last() =~= all.take(i as int));
        assert(all.take(i + 1).last() == (plan@[i as int].0@, plan@[i as int].1@));
        let n = &plan[i].1;
        let ghost o = out@;
        if pass(filter, n.id.as_str()) {
            let row = show_node(n);
            out.push(row);
            assert(row_models(out@) =~= row_models(o).push((row.tint, texts(row.cells@))));
        }
        i += 1;
    }
    assert(all.take(all.len() as int) =~= all);
    out
}

/// The text that `str::to_uppercase` makes of a text.
pub uninterp spec fn big_letters(text: Seq<char>) -> Seq<char>;

/// `str::to_uppercase`. The claim is that the result is settled by the text.
#[verifier::external_body]
fn to_big_letters(text: &str) -> (r: String)
    ensures
        r@ == big_letters(text@),
{
    text.to_uppercase()
}

/// A row of metrics: a heading, or a metric and its value.
#[derive(Debug)]
pub struct MetricRow {
    pub heading: bool,
    pub name: String,
    pub value: String,
}

pub ghost struct MetricModel {
    pub heading: bool,
    pub name: Seq<char>,
    pub value: Seq<char>,
}

impl MetricRow {
    pub open spec fn view(self) -> MetricModel {
        MetricModel { heading: self.heading, name: self.name@, value: self.value@ }
    }
}

pub open spec fn metric_models(s: Seq<MetricRow>) -> Seq<MetricModel> {
    s.map_values(|r: MetricRow| r@)
}

/// The metrics of a scope that pass the filter: all where the scope itself does.
pub open spec fn group_rows(scope: Seq<char>, g: GroupModel, filter: Seq<char>) -> Seq<MetricModel>
    decreases g.len(),
{
    if g.len() == 0 {
        seq![]
    } else if passes(filter, scope) || passes(filter, g.last().0) {
        group_rows(scope, g.drop_last(), filter).push(
            MetricModel { heading: false, name: g.last().0, value: g.last().1 },
        )
    } else {
        group_rows(scope, g.drop_last(), filter)
    }
}

pub open spec fn heading_rows(scope: Seq<char>, filter: Seq<char>) -> Seq<MetricModel> {
    if passes(filter, scope) {
        seq![
            MetricModel { heading: true, name: "-- "@ + big_letters(scope) + " --"@, value: ""@ },
        ]
    } else {
        seq![]
    }
}

pub open spec fn metric_rows(s: Seq<(Seq<char>, GroupModel)>, filter: Seq<char>) -> Seq<MetricModel>
    decreases s.len(),
{
    if s.len() == 0 {
        seq![]
    } else {
        metric_rows(s.drop_last(), filter) + heading_rows(s.last().0, filter) + group_rows(
            s.last().0,
            s.last().1,
            filter,
        )
    }
}

fn add_group(out: &mut Vec<MetricRow>, scope: &str, group: &MetricGroup, filter: &str)
    ensures
        metric_models(final(out)@) == metric_models(old(out)@) + heading_rows(scope@, filter@)
            + group_rows(scope@, group@, filter@),
{
    let ghost start = metric_models(out@);
    let whole = pass(filter, scope);
    let ghost o0 = out@;
    if whole {
        let row = MetricRow {
            heading: true,
            name: concat3("-- ", to_big_letters(scope).as_str(), " --"),
            value: "".to_owned(),
        };
        out.push(row);
        assert(metric_models(out@) =~= metric_models(o0).push(row@));
    }
    let ghost head = start + heading_rows(scope@, filter@);
    assert(metric_models(out@) =~= head);
    let ghost all = group@;
    let mut i: usize = 0;
    assert(head + group_rows(scope@, all.take(0), filter@) =~= head);
    while i < group.values.len()
        invariant
            i <= group.values.len(),
            all == group@,
            whole == passes(filter@, scope@),
            start == metric_models(old(out)@),
            head == start + heading_rows(scope@, filter@),
            metric_models(out@) == head + group_rows(scope@, all.take(i as int), filter@),
        decreases group.values.len() - i,
    {
        assert(all.take(i + 1).drop_last() =~= all.take(i as int));
        assert(all.take(i + 1).last() == (group.values@[i as int].0@, group.values@[i as int].1@));
        let ghost o = out@;
        if whole || pass(filter, group.values[i].0.as_str()) {
            let row = MetricRow {
                heading: false,
                name: group.values[i].0.clone(),
                value: group.values[i].1.clone(),
            };
            out.push(row);
            assert(metric_models(out@) =~= metric_models(o).push(row@));
            assert(metric_models(o).push(row@) =~= head + group_rows(
                scope@,
                all.take(i as int),
                filter@,
            ).push(row@));
        }
        i += 1;
    }
    assert(all.take(all.len() as int) =~= all);
}

pub fn metrics_pane(app: &App) -> (r: Vec<MetricRow>)
    ensures
        metric_models(r@) == metric_rows(app@.state.metrics, filter_of(app@.filter)),
{
    let filter = filter_text(&app.filter_input);
    let metrics = &app.state.metrics;
    let ghost all = group_models(metrics@);
    let mut out: Vec<MetricRow> = Vec::new();
    let mut i: usize = 0;
    assert(metric_models(out@) =~= metric_rows(all.take(0), filter@));
    while i < metrics.len()
        invariant
            i <= metrics.len(),
            all == group_models(metrics@),
            metric_models(out@) == metric_rows(all.take(i as int), filter@),
        decreases metrics.len() - i,
    {
        assert(all.take(i + 1).drop_last() =~= all.take(i as int));
        assert(all.take(i + 1).last() == (metrics@[i as int].0@, metrics@[i as int].1@));
        add_group(&mut out, metrics[i].0.as_str(), &metrics[i].1, filter);
        i += 1;
    }
    assert(all.take(all.len() as int) =~= all);
    out
}

pub open spec fn trace_line(t: TraceModel) -> Seq<char> {
    "["@ + decimal(t.ts as nat) + "] "@ + t.kind + ": "@ + t.msg
}

/// The steps of the trace that pass the filter, the newest first.
pub open spec fn trace_rows(s: Seq<TraceModel>, filter: Seq<char>) -> Seq<Seq<char>>
    decreases s.len(),
{
    if s.len() == 0 {
        seq![]
    } else if passes(filter, s.last().msg) || passes(filter, s.last().kind) {
        seq![trace_line(s.last())] + trace_rows(s.drop_last(), filter)
    } else {
        trace_rows(s.drop_last(), filter)
    }
}

fn show_trace(t: &TraceEntry) -> (r: String)
    ensures
        r@ == trace_line(t@),
{
    let mut out = concat3("[", decimal_text(t.ts).as_str(), "] ");
    out.append(t.kind.as_str());
    out.append(": ");
    out.append(t.msg.as_str());
    out
}

pub fn trace_pane(app: &App) -> (r: Vec<String>)
    ensures
        texts(r@) == trace_rows(app@.state.trace, filter_of(app@.filter)),
{
    let filter = filter_text(&app.filter_input);
    let trace = &app.state.trace;
    let ghost all = trace_models(trace@);
    let mut out: Vec<String> = Vec::new();
    let mut i: usize = trace.len();
    assert(all.take(all.len() as int) =~= all);
    assert(texts(out@) + trace_rows(all, filter@) =~= trace_rows(all, filter@));
    while i > 0
        invariant
            i <= trace.len(),
            all == trace_models(trace@),
            texts(out@) + trace_rows(all.take(i as int), filter@) == trace_rows(all, filter@),
        decreases i,
    {
        let ghost part = all.take(i as int);
        assert(part.drop_last() =~= all.take(i - 1));
        i -= 1;
        let t = &trace[i];
        assert(part.last() == t@);
        let ghost o = out@;
        if pass(filter, t.msg.as_str()) || pass(filter, t.kind.as_str()) {
            let line = show_trace(t);
            out.push(line);
            assert(texts(out@) =~= texts(o).push(line@));
            assert(texts(out@) + trace_rows(all.take(i as int), filter@) =~= texts(o) + (seq![
                trace_line(t@),
            ] + trace_rows(all.take(i as int), filter@)));
        }
    }
    assert(all.take(0) =~= seq![]);
    assert(texts(out@) + trace_rows(all.take(0), filter@) =~= texts(out@));
    out
}

/// A metric of the system, or that it is not known.
pub open spec fn system_metric(s: StateModel, key: Seq<char>) -> Seq<char> {
    match shelf_get(s.metrics, "system"@) {
        Some(g) => match shelf_get(g, key) {
            Some(v) => v,
            None => "N/A"@,
        },
        None => "N/A"@,
    }
}

fn system_value(state: &AppState, key: &str) -> (r: String)
    ensures
        r@ == system_metric(state@, key@),
{
    let (i, found) = find_place(&state.metrics, "system");
    assert(raw_keys(state.metrics@) =~= keys_of(group_models(state.metrics@)));
    if !found {
        return "N/A".to_owned();
    }
    let group = &state.metrics[i].1;
    let (j, there) = find_place(&group.values, key);
    assert(raw_keys(group.values@) =~= keys_of(group@));
    if there {
        group.values[j].1.clone()
    } else {
        "N/A".to_owned()
    }
}

pub open spec fn pane_name(p: Pane) -> Seq<char> {
    match p {
        Pane::Log => "Log"@,
        Pane::Plan => "Plan"@,
        Pane::Metrics => "Metrics"@,
        Pane::Trace => "Trace"@,
    }
}

/// What the status bar says.
#[derive(Debug)]
pub struct StatusBar {
    pub live: bool,
    pub mode: String,
    pub trace: String,
    pub load: String,
    pub confirm: String,
    pub active: String,
    pub paused: String,
    pub filter: String,
}

pub fn status_bar(app: &App) -> (r: StatusBar)
    ensures
        r.live == app.connected,
        r.mode@ == (if app.connected {
            "LIVE"@
        } else {
            "REPLAY"@
        }),
        r.trace@ == "Trace: "@ + app.trace_id@,
        r.load@ == "agents:"@ + system_metric(app@.state, "agents_running"@) + " queue:"@
            + system_metric(app@.state, "bus_queue_depth"@),
        r.confirm@ == (if app.confirm_modal is Some {
            "CONFIRM REQUIRED (!)"@
        } else {
            ""@
        }),
        r.active@ == "Active: "@ + pane_name(app.active_pane) + " | "@,
        r.paused@ == (if app.paused {
            "PAUSED | "@
        } else {
            ""@
        }),
        r.filter@ == (match app@.filter {
            Some(f) => "FILTER: "@ + f + "_"@,
            None => ""@,
        }),
{
    let mut load = concat3(
        "agents:",
        system_value(&app.state, "agents_running").as_str(),
        " queue:",
    );
    load.append(system_value(&app.state, "bus_queue_depth").as_str());
    let pane = match app.active_pane {
        Pane::Log => "Log",
        Pane::Plan => "Plan",
        Pane::Metrics => "Metrics",
        Pane::Trace => "Trace",
    };
    StatusBar {
        live: app.connected,
        mode: (if app.connected {
            "LIVE"
        } else {
            "REPLAY"
        }).to_owned(),
        trace: concat("Trace: ", app.trace_id.as_str()),
        load,
        confirm: (if app.confirm_modal.is_some() {
            "CONFIRM REQUIRED (!)"
        } else {
            ""
        }).to_owned(),
        active: concat3("Active: ", pane, " | "),
        paused: (if app.paused {
            "PAUSED | "
        } else {
            ""
        }).to_owned(),
        filter: match &app.filter_input {
            Some(f) => concat3("FILTER: ", f.as_str(), "_"),
            None => "".to_owned(),
        },
    }
}

} // verus!
