//! What the monitor does when a key is pressed or an event comes.

use crate::bus::message::{blank_header, Header};
use crate::content::CT_ACTION_DECISION;
use crate::json::{map_insert, text_json, Json, JsonMap, JsonModel, MapModel};
use crate::monitor::state::{group_models, log_models, metrics_seen, nothing_seen, run_seen, trace_models, AppState, LogEntry, LogModel, Pane, StateModel};
use crate::text::{chars_of, concat, decimal, decimal_text, opt_text, string_range};
use vstd::prelude::*;

verus! {

/// What comes from outside.
#[derive(Debug)]
pub enum Event {
    Run(Json),
    Metrics(Json, Option<String>),
    ActionRequest(Header, Json),
    BusConnected,
    Error(String),
}

pub ghost enum EventModel {
    Run(JsonModel),
    Metrics(JsonModel, Option<Seq<char>>),
    ActionRequest(Header, JsonModel),
    BusConnected,
    Error(Seq<char>),
}

impl Event {
    pub open spec fn view(self) -> EventModel {
        match self {
            Event::Run(j) => EventModel::Run(j@),
            Event::Metrics(j, s) => EventModel::Metrics(j@, opt_text(s)),
            Event::ActionRequest(h, j) => EventModel::ActionRequest(h, j@),
            Event::BusConnected => EventModel::BusConnected,
            Event::Error(m) => EventModel::Error(m@),
        }
    }
}

pub open spec fn event_models(s: Seq<Event>) -> Seq<EventModel> {
    s.map_values(|e: Event| e@)
}

/// A decision to be published: its header, what it says, and its topic.
#[derive(Debug)]
pub enum ActionCommand {
    PublishDecision(Header, Json, String),
}

pub ghost struct CommandModel {
    pub header: Header,
    pub decision: JsonModel,
    pub topic: Seq<char>,
}

impl ActionCommand {
    pub open spec fn view(self) -> CommandModel {
        match self {
            ActionCommand::PublishDecision(h, j, t) => CommandModel {
                header: h,
                decision: j@,
                topic: t@,
            },
        }
    }
}

/// An action that waits for a decision.
#[derive(Debug)]
pub struct ConfirmModal {
    pub header: Header,
    pub proposal: Json,
}

#[derive(Clone, Copy, Debug)]
pub enum Key {
    Enter,
    Esc,
    Backspace,
    Tab,
    BackTab,
    Char(char, bool),
    Other,
}

impl Pane {
    pub open spec fn following(self) -> Pane {
        match self {
            Pane::Log => Pane::Plan,
            Pane::Plan => Pane::Metrics,
            Pane::Metrics => Pane::Trace,
            Pane::Trace => Pane::Log,
        }
    }

    pub open spec fn preceding(self) -> Pane {
        match self {
            Pane::Log => Pane::Trace,
            Pane::Plan => Pane::Log,
            Pane::Metrics => Pane::Plan,
            Pane::Trace => Pane::Metrics,
        }
    }

    pub fn next(&self) -> (r: Self)
        ensures
            r == self.following(),
    {
        match self {
            Pane::Log => Pane::Plan,
            Pane::Plan => Pane::Metrics,
            Pane::Metrics => Pane::Trace,
            Pane::Trace => Pane::Log,
        }
    }

    pub fn prev(&self) -> (r: Self)
        ensures
            r == self.preceding(),
    {
        match self {
            Pane::Log => Pane::Trace,
            Pane::Plan => Pane::Log,
            Pane::Metrics => Pane::Plan,
            Pane::Trace => Pane::Metrics,
        }
    }
}

/// Going on and going back lead to the pane where one was.
pub proof fn panes_are_in_a_ring(p: Pane)
    ensures
        p.following().preceding() == p,
        p.preceding().following() == p,
        p.following().following().following().following() == p,
{
}

/// The monitor. It publishes decisions only where it is given a way to.
#[derive(Debug)]
pub struct App {
    pub should_quit: bool,
    pub active_pane: Pane,
    pub show_help: bool,
    pub trace_id: String,
    pub connected: bool,
    pub state: AppState,
    pub confirm_modal: Option<ConfirmModal>,
    pub filter_input: Option<String>,
    pub paused: bool,
    pub buffered_events: Vec<Event>,
    pub publishes: bool,
}

pub ghost struct AppModel {
    pub should_quit: bool,
    pub active_pane: Pane,
    pub show_help: bool,
    pub trace_id: Seq<char>,
    pub connected: bool,
    pub state: StateModel,
    pub modal: Option<(Header, JsonModel)>,
    pub filter: Option<Seq<char>>,
    pub paused: bool,
    pub buffered: Seq<EventModel>,
    pub publishes: bool,
}

pub open spec fn modal_model(m: Option<ConfirmModal>) -> Option<(Header, JsonModel)> {
    match m {
        Some(x) => Some((x.header, x.proposal@)),
        None => None,
    }
}

impl App {
    pub open spec fn view(self) -> AppModel {
        AppModel {
            should_quit: self.should_quit,
            active_pane: self.active_pane,
            show_help: self.show_help,
            trace_id: self.trace_id@,
            connected: self.connected,
            state: self.state@,
            modal: modal_model(self.confirm_modal),
            filter: opt_text(self.filter_input),
            paused: self.paused,
            buffered: event_models(self.buffered_events@),
            publishes: self.publishes,
        }
    }
}

/// The monitor after an event.
pub open spec fn processed(a: AppModel, e: EventModel, now: u64) -> AppModel {
    match e {
        EventModel::Run(j) => AppModel { state: run_seen(a.state, j, now), ..a },
        EventModel::Metrics(j, s) => AppModel { state: metrics_seen(a.state, j, s), ..a },
        EventModel::ActionRequest(h, j) => AppModel { modal: Some((h, j)), ..a },
        EventModel::BusConnected => AppModel { connected: true, ..a },
        EventModel::Error(m) => AppModel {
            state: StateModel {
                logs: a.state.logs.push(
                    LogModel { ts: now, level: "ERROR"@, msg: "App Error: "@ + m, node: None },
                ),
                ..a.state
            },
            ..a
        },
    }
}

pub open spec fn processed_all(a: AppModel, events: Seq<EventModel>, now: u64) -> AppModel
    decreases events.len(),
{
    if events.len() == 0 {
        a
    } else {
        processed_all(processed(a, events[0], now), events.skip(1), now)
    }
}

/// While the monitor is paused events wait; only a connection is noticed at once.
pub open spec fn handled(a: AppModel, e: EventModel, now: u64) -> AppModel {
    if a.paused && !(e is BusConnected) {
        AppModel { buffered: a.buffered.push(e), ..a }
    } else {
        processed(a, e, now)
    }
}

pub open spec fn unpaused(a: AppModel, now: u64) -> AppModel {
    processed_all(AppModel { buffered: seq![], ..a }, a.buffered, now)
}

/// The decision on the action that waits.
pub open spec fn decision_tree(approved: bool, msg_id: u64) -> JsonModel {
    JsonModel::Object(
        map_insert(
            map_insert(
                map_insert(MapModel::empty(), "approved"@, JsonModel::Bool(approved)),
                "rationale"@,
                JsonModel::Text(
                    if approved {
                        "User approved via TUI"@
                    } else {
                        "User rejected via TUI"@
                    },
                ),
            ),
            "proposal_id"@,
            JsonModel::Text(decimal(msg_id as nat)),
        ),
    )
}

pub open spec fn decision_of(h: Header, approved: bool, now: u64, next_id: u64) -> CommandModel {
    CommandModel {
        header: Header {
            schema_id: CT_ACTION_DECISION,
            created_at_ms: now,
            ttl_ms: 30_000,
            trace_id: h.trace_id,
            msg_id: next_id,
            ..blank_header()
        },
        decision: decision_tree(approved, h.msg_id),
        topic: "action.decision"@,
    }
}

pub open spec fn resolved(a: AppModel, approved: bool, now: u64, next_id: u64) -> (
    AppModel,
    Option<CommandModel>,
) {
    (
        AppModel { modal: None, ..a },
        match a.modal {
            Some((h, _)) => if a.publishes {
                Some(decision_of(h, approved, now, next_id))
            } else {
                None
            },
            None => None,
        },
    )
}

pub open spec fn cleared(s: StateModel, p: Pane) -> StateModel {
    match p {
        Pane::Log => StateModel { logs: seq![], ..s },
        Pane::Plan => s,
        Pane::Trace => StateModel { trace: seq![], ..s },
        Pane::Metrics => StateModel { metrics: seq![], ..s },
    }
}

/// A key while a filter is typed.
pub open spec fn filter_key(f: Seq<char>, key: Key) -> Option<Seq<char>> {
    match key {
        Key::Enter => None,
        Key::Esc => None,
        Key::Char(c, _) => Some(f.push(c)),
        Key::Backspace => Some(
            if f.len() > 0 {
                f.drop_last()
            } else {
                f
            },
        ),
        _ => Some(f),
    }
}

/// The monitor after a key, and the decision that is to be published.
pub open spec fn keyed(a: AppModel, key: Key, now: u64, next_id: u64) -> (
    AppModel,
    Option<CommandModel>,
) {
    match a.filter {
        Some(f) => (AppModel { filter: filter_key(f, key), ..a }, None),
        None => if a.modal is Some {
            match key {
                Key::Enter => resolved(a, true, now, next_id),
                Key::Esc => resolved(a, false, now, next_id),
                _ => (a, None),
            }
        } else {
            (
                match key {
                    Key::Char(c, ctrl) => if c == 'q' {
                        AppModel { should_quit: true, ..a }
                    } else if c == '?' {
                        AppModel { show_help: !a.show_help, ..a }
                    } else if c == '/' {
                        AppModel { filter: Some(seq![]), ..a }
                    } else if c == '.' {
                        if a.paused {
                            unpaused(AppModel { paused: false, ..a }, now)
                        } else {
                            AppModel { paused: true, ..a }
                        }
                    } else if c == '!' {
                        AppModel { state: cleared(a.state, a.active_pane), ..a }
                    } else if c == 'c' && ctrl {
                        AppModel { should_quit: true, ..a }
                    } else {
                        a
                    },
                    Key::Tab => AppModel { active_pane: a.active_pane.following(), ..a },
                    Key::BackTab => AppModel { active_pane: a.active_pane.preceding(), ..a },
                    _ => a,
                },
                None,
            )
        },
    }
}

impl App {
    pub fn new(trace_id: String, publishes: bool) -> (r: Self)
        ensures
            r@ == (AppModel {
                should_quit: false,
                active_pane: Pane::Plan,
                show_help: false,
                trace_id: trace_id@,
                connected: false,
                state: nothing_seen(),
                modal: None,
                filter: None,
                paused: false,
                buffered: seq![],
                publishes,
            }),
    {
        let r = App {
            should_quit: false,
            active_pane: Pane::Plan,
            show_help: false,
            trace_id,
            connected: false,
            state: AppState::default(),
            confirm_modal: None,
            filter_input: None,
            paused: false,
            buffered_events: Vec::new(),
            publishes,
        };
        assert(r@.buffered =~= seq![]);
        r
    }

    fn process_event(&mut self, event: Event, now: u64)
        ensures
            final(self)@ == processed(old(self)@, event@, now),
    {
        match event {
            Event::Run(payload) => self.state.process_run_event(&payload, now),
            Event::Metrics(payload, source) => self.state.process_metrics(&payload, source),
            Event::ActionRequest(header, proposal) => {
                self.confirm_modal = Some(ConfirmModal { header, proposal });
            },
            Event::BusConnected => {
                self.connected = true;
            },
            Event::Error(m) => {
                let ghost o = self.state.logs@;
                let e = LogEntry {
                    ts: now,
                    level: "ERROR".to_owned(),
                    msg: concat("App Error: ", m.as_str()),
                    node: None,
                };
                self.state.logs.push(e);
                assert(log_models(self.state.logs@) =~= log_models(o).push(e@));
            },
        }
    }

    pub fn handle_event(&mut self, event: Event, now: u64)
        ensures
            final(self)@ == handled(old(self)@, event@, now),
    {
        if self.paused {
            match event {
                Event::BusConnected => self.process_event(event, now),
                _ => {
                    let ghost o = self.buffered_events@;
                    let ghost m = event@;
                    self.buffered_events.push(event);
                    assert(event_models(self.buffered_events@) =~= event_models(o).push(m));
                },
            }
            return ;
        }
        self.process_event(event, now);
    }

    /// Takes in what waited, in the order in which it came.
    pub fn unpause(&mut self, now: u64)
        ensures
            final(self)@ == unpaused(old(self)@, now),
    {
        let ghost a0 = self@;
        let mut waiting: Vec<Event> = Vec::new();
        waiting.append(&mut self.buffered_events);
        assert(event_models(waiting@) =~= a0.buffered);
        assert(event_models(self.buffered_events@) =~= seq![]);
        assert(self@ == (AppModel { buffered: seq![], ..a0 }));
        while waiting.len() > 0
            invariant
                a0 == old(self)@,
                unpaused(a0, now) == processed_all(self@, event_models(waiting@), now),
            decreases waiting.len(),
        {
            let ghost w = waiting@;
            let e = waiting.remove(0);
            assert(event_models(w)[0] == e@);
            assert(event_models(w).skip(1) =~= event_models(waiting@));
            self.process_event(e, now);
        }
        assert(event_models(waiting@).len() == 0);
    }

    fn clear_pane(&mut self)
        ensures
            final(self)@ == (AppModel {
                state: cleared(old(self)@.state, old(self)@.active_pane),
                ..old(self)@
            }),
    {
        match self.active_pane {
            Pane::Log => {
                self.state.logs = Vec::new();
                assert(log_models(self.state.logs@) =~= seq![]);
            },
            Pane::Plan => {},
            Pane::Trace => {
                self.state.trace = Vec::new();
                assert(trace_models(self.state.trace@) =~= seq![]);
            },
            Pane::Metrics => {
                self.state.metrics = Vec::new();
                assert(group_models(self.state.metrics@) =~= seq![]);
            },
        }
    }

    fn resolve_action(&mut self, approved: bool, now: u64, next_id: u64) -> (r: Option<
        ActionCommand,
    >)
        ensures
            final(self)@ == resolved(old(self)@, approved, now, next_id).0,
            match (r, resolved(old(self)@, approved, now, next_id).1) {
                (Some(c), Some(m)) => c@ == m,
                (None, None) => true,
                _ => false,
            },
    {
        let modal = self.confirm_modal.take();
        match modal {
            Some(m) => {
                if !self.publishes {
                    return None;
                }
                let mut t = JsonMap::new();
                t.insert("approved".to_owned(), Json::Bool(approved));
                t.insert(
                    "rationale".to_owned(),
                    text_json(
                        if approved {
                            "User approved via TUI"
                        } else {
                            "User rejected via TUI"
                        },
                    ),
                );
                t.insert("proposal_id".to_owned(), Json::Text(decimal_text(m.header.msg_id)));
                let header = Header {
                    schema_id: CT_ACTION_DECISION,
                    created_at_ms: now,
                    ttl_ms: 30_000,
                    trace_id: m.header.trace_id,
                    msg_id: next_id,
                    ..Header::default()
                };
                Some(
                    ActionCommand::PublishDecision(
                        header,
                        Json::Object(t),
                        "action.decision".to_owned(),
                    ),
                )
            },
            None => None,
        }
    }

    fn filter_on_key(&mut self, f: String, key: Key)
        requires
            old(self).filter_input is None,
        ensures
            final(self)@ == (AppModel { filter: filter_key(f@, key), ..old(self)@ }),
    {
        match key {
            Key::Enter => {},
            Key::Esc => {},
            Key::Char(c, _) => {
                let mut g = f;
                g.push(c);
                self.filter_input = Some(g);
            },
            Key::Backspace => {
                let v = chars_of(f.as_str());
                if v.len() > 0 {
                    assert(v@.subrange(0, v@.len() - 1) =~= f@.drop_last());
                    self.filter_input = Some(string_range(&v, 0, v.len() - 1));
                } else {
                    self.filter_input = Some(f);
                }
            },
            _ => {
                self.filter_input = Some(f);
            },
        }
    }

    pub fn on_key(&mut self, key: Key, now: u64, next_id: u64) -> (r: Option<ActionCommand>)
        ensures
            final(self)@ == keyed(old(self)@, key, now, next_id).0,
            match (r, keyed(old(self)@, key, now, next_id).1) {
                (Some(c), Some(m)) => c@ == m,
                (None, None) => true,
                _ => false,
            },
    {
        match self.filter_input.take() {
            Some(f) => {
                self.filter_on_key(f, key);
                return None;
            },
            None => {},
        }
        if self.confirm_modal.is_some() {
            return match key {
                Key::Enter => self.resolve_action(true, now, next_id),
                Key::Esc => self.resolve_action(false, now, next_id),
                _ => None,
            };
        }
        match key {
            Key::Char(c, ctrl) => {
                if c == 'q' {
                    self.should_quit = true;
                } else if c == '?' {
                    self.show_help = !self.show_help;
                } else if c == '/' {
                    self.filter_input = Some(String::new());
                } else if c == '.' {
                    self.paused = !self.paused;
                    if !self.paused {
                        self.unpause(now);
                    }
                } else if c == '!' {
                    self.clear_pane();
                } else if c == 'c' && ctrl {
                    self.should_quit = true;
                }
            },
            Key::Tab => {
                self.active_pane = self.active_pane.next();
            },
            Key::BackTab => {
                self.active_pane = self.active_pane.prev();
            },
            _ => {},
        }
        None
    }
}

/// The monitor after events that came while it was paused.
pub open spec fn handled_all(a: AppModel, events: Seq<EventModel>, now: u64) -> AppModel
    decreases events.len(),
{
    if events.len() == 0 {
        a
    } else {
        handled(handled_all(a, events.drop_last(), now), events.last(), now)
    }
}

proof fn lemma_waiting(a: AppModel, events: Seq<EventModel>, now: u64)
    requires
        a.paused,
        forall|i: int| 0 <= i < events.len() ==> !((#[trigger] events[i]) is BusConnected),
    ensures
        handled_all(a, events, now) == (AppModel { buffered: a.buffered + events, ..a }),
    decreases events.len(),
{
    if events.len() == 0 {
        assert(a.buffered + events =~= a.buffered);
    } else {
        let p = events.drop_last();
        assert forall|i: int| 0 <= i < p.len() implies !((#[trigger] p[i]) is BusConnected) by {
            assert(p[i] == events[i]);
        }
        lemma_waiting(a, p, now);
        assert(!(events[events.len() - 1] is BusConnected));
        assert((a.buffered + p).push(events.last()) =~= a.buffered + events);
    }
}

/// Nothing is lost while the monitor is paused: once it goes on, it knows what it would know had
/// the events come then, in the same order.
pub proof fn pausing_loses_nothing(a: AppModel, events: Seq<EventModel>, later: u64, now: u64)
    requires
        a.paused,
        a.buffered.len() == 0,
        a.filter is None,
        a.modal is None,
        forall|i: int| 0 <= i < events.len() ==> !((#[trigger] events[i]) is BusConnected),
    ensures
        keyed(handled_all(a, events, now), Key::Char('.', false), later, 0).0 == processed_all(
            AppModel { paused: false, ..a },
            events,
            later,
        ),
{
    lemma_waiting(a, events, now);
    assert(a.buffered + events =~= events);
    assert(a.buffered =~= seq![]);
    let b = handled_all(a, events, now);
    assert(AppModel { buffered: seq![], ..(AppModel { paused: false, ..b }) } == AppModel {
        paused: false,
        ..a
    });
}

/// Each request is answered once: a second decision needs a second request.
pub proof fn requests_are_answered_once(a: AppModel, approved: bool, again: Key, now: u64, id: u64)
    requires
        a.filter is None,
    ensures
        keyed(resolved(a, approved, now, id).0, again, now, id).1 is None,
{
}

} // verus!
