//! Where the monitor's events come from.

use crate::bus::message::Header;
use crate::content::{CT_ACTION_REQUEST, CT_METRICS_SNAPSHOT, CT_RUN_EVENT};
use crate::json::{json_document, read_json, Json, JsonModel};
use crate::monitor::keys::{Event, EventModel};
use crate::text::{concat, concat3, is_blank, opt_text, texts, trim};
use vstd::prelude::*;

verus! {

/// A stream of messages that the monitor listens to.
#[derive(Debug)]
pub enum Feed {
    Metrics,
    AgentMetrics(String),
    Actions,
    Runs(String),
}

pub ghost enum FeedModel {
    Metrics,
    AgentMetrics(Seq<char>),
    Actions,
    Runs(Seq<char>),
}

impl Feed {
    pub open spec fn view(self) -> FeedModel {
        match self {
            Feed::Metrics => FeedModel::Metrics,
            Feed::AgentMetrics(a) => FeedModel::AgentMetrics(a@),
            Feed::Actions => FeedModel::Actions,
            Feed::Runs(t) => FeedModel::Runs(t@),
        }
    }
}

pub open spec fn feed_models(s: Seq<Feed>) -> Seq<FeedModel> {
    s.map_values(|f: Feed| f@)
}

pub open spec fn feed_topic(f: FeedModel) -> Seq<char> {
    match f {
        FeedModel::Metrics => "rlp/sys/metrics"@,
        FeedModel::AgentMetrics(a) => "rlp/agents/"@ + a + "/metrics"@,
        FeedModel::Actions => "action.request"@,
        FeedModel::Runs(t) => "rlp/runs/"@ + t + "/events"@,
    }
}

/// Whether the monitor can do without a feed: only those of single agents.
pub open spec fn is_optional(f: FeedModel) -> bool {
    f is AgentMetrics
}

pub open spec fn agent_feeds(agents: Seq<Seq<char>>) -> Seq<FeedModel> {
    agents.map_values(|a: Seq<char>| FeedModel::AgentMetrics(a))
}

/// The feeds in the order in which they are asked for; runs only where a trace is watched.
pub open spec fn wanted_feeds(agents: Seq<Seq<char>>, trace: Option<Seq<char>>) -> Seq<FeedModel> {
    seq![FeedModel::Metrics] + agent_feeds(agents) + seq![FeedModel::Actions] + (match trace {
        Some(t) => seq![FeedModel::Runs(t)],
        None => seq![],
    })
}

pub fn feeds(agents: &Vec<String>, trace_id: &Option<String>) -> (r: Vec<Feed>)
    ensures
        feed_models(r@) == wanted_feeds(texts(agents@), opt_text(*trace_id)),
{
    let mut out: Vec<Feed> = Vec::new();
    out.push(Feed::Metrics);
    let mut i: usize = 0;
    while i < agents.len()
        invariant
            i <= agents.len(),
            out@.len() == i + 1,
            out@[0]@ == FeedModel::Metrics,
            forall|k: int|
                1 <= k < i + 1 ==> (#[trigger] out@[k])@ == FeedModel::AgentMetrics(
                    agents@[k - 1]@,
                ),
        decreases agents.len() - i,
    {
        out.push(Feed::AgentMetrics(agents[i].clone()));
        i += 1;
    }
    out.push(Feed::Actions);
    match trace_id {
        Some(t) => out.push(Feed::Runs(t.clone())),
        None => {},
    }
    assert(feed_models(out@) =~= wanted_feeds(texts(agents@), opt_text(*trace_id)));
    out
}

impl Feed {
    pub fn topic(&self) -> (r: String)
        ensures
            r@ == feed_topic(self@),
    {
        match self {
            Feed::Metrics => "rlp/sys/metrics".to_owned(),
            Feed::AgentMetrics(a) => concat3("rlp/agents/", a.as_str(), "/metrics"),
            Feed::Actions => "action.request".to_owned(),
            Feed::Runs(t) => concat3("rlp/runs/", t.as_str(), "/events"),
        }
    }

    pub fn optional(&self) -> (r: bool)
        ensures
            r == is_optional(self@),
    {
        match self {
            Feed::AgentMetrics(_) => true,
            _ => false,
        }
    }
}

/// The kind of message that a feed carries.
pub open spec fn feed_kind(f: FeedModel) -> u16 {
    match f {
        FeedModel::Metrics => CT_METRICS_SNAPSHOT,
        FeedModel::AgentMetrics(_) => CT_METRICS_SNAPSHOT,
        FeedModel::Actions => CT_ACTION_REQUEST,
        FeedModel::Runs(_) => CT_RUN_EVENT,
    }
}

/// What a message on a feed means; nothing where it is of another kind or cannot be read.
pub open spec fn feed_event(f: FeedModel, h: Header, payload: Option<JsonModel>) -> Option<
    EventModel,
> {
    if h.schema_id != feed_kind(f) {
        None
    } else {
        match payload {
            None => None,
            Some(j) => Some(
                match f {
                    FeedModel::Metrics => EventModel::Metrics(j, None),
                    FeedModel::AgentMetrics(a) => EventModel::Metrics(j, Some(a)),
                    FeedModel::Actions => EventModel::ActionRequest(h, j),
                    FeedModel::Runs(_) => EventModel::Run(j),
                },
            ),
        }
    }
}

impl Feed {
    /// The kind of message that is read from this feed.
    pub fn kind(&self) -> (r: u16)
        ensures
            r == feed_kind(self@),
    {
        match self {
            Feed::Metrics => CT_METRICS_SNAPSHOT,
            Feed::AgentMetrics(_) => CT_METRICS_SNAPSHOT,
            Feed::Actions => CT_ACTION_REQUEST,
            Feed::Runs(_) => CT_RUN_EVENT,
        }
    }

    pub fn event(&self, header: Header, payload: Option<Json>) -> (r: Option<Event>)
        ensures
            match (
                r,
                feed_event(
                    self@,
                    header,
                    match payload {
                        Some(j) => Some(j@),
                        None => None,
                    },
                ),
            ) {
                (Some(e), Some(m)) => e@ == m,
                (None, None) => true,
                _ => false,
            },
    {
        if header.schema_id != self.kind() {
            return None;
        }
        match payload {
            None => None,
            Some(j) => Some(
                match self {
                    Feed::Metrics => Event::Metrics(j, None),
                    Feed::AgentMetrics(a) => Event::Metrics(j, Some(a.clone())),
                    Feed::Actions => Event::ActionRequest(header, j),
                    Feed::Runs(_) => Event::Run(j),
                },
            ),
        }
    }
}

/// Where the bus is reached: where one is told, or where the configuration says, or at the usual
/// place if there is none.
pub open spec fn socket_place(
    told: Option<Seq<char>>,
    configured: Option<(Option<Seq<char>>, Seq<char>)>,
) -> Seq<char> {
    match (told, configured) {
        (Some(p), _) => p,
        (None, Some((Some(p), _))) => p,
        (None, Some((None, dir))) => dir + "/rmp.sock"@,
        (None, None) => "/tmp/runloop/rmp.sock"@,
    }
}

/// `configured` holds the path and the directory of sockets in the configuration, if there is one.
pub fn socket_path(told: Option<String>, configured: Option<(Option<String>, String)>) -> (r:
    String)
    ensures
        r@ == socket_place(
            opt_text(told),
            match configured {
                Some((p, d)) => Some((opt_text(p), d@)),
                None => None,
            },
        ),
{
    match told {
        Some(p) => p,
        None => match configured {
            Some((Some(p), _)) => p,
            Some((None, dir)) => concat(dir.as_str(), "/rmp.sock"),
            None => "/tmp/runloop/rmp.sock".to_owned(),
        },
    }
}

/// What a line of a recording means: nothing where it is blank or no JSON.
pub fn replayed(line: &str) -> (r: Option<Event>)
    ensures
        match (r, json_document(line@)) {
            (Some(e), Some(j)) => trim(line@).len() > 0 && e@ == EventModel::Run(j),
            (None, Some(j)) => trim(line@).len() == 0,
            (None, None) => true,
            (Some(_), None) => false,
        },
{
    if is_blank(line) {
        return None;
    }
    match read_json(line) {
        Some(j) => Some(Event::Run(j)),
        None => None,
    }
}

} // verus!
