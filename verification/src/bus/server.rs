//! The bus: who listens to what, who gets a message, what becomes of it.

use crate::bus::dedupe::{
    age, holds_key, keys_once, lemma_not_held, lemma_reserved_once, pruned, repeats_are_duplicates,
    reserved, retries_are_no_duplicates, taking_back_frees_the_key, without, DedupeCache, Entries,
};
use crate::bus::message::{expiry, BusError, BusFault, Header, DEFAULT_TTL_MS};
use crate::content::{CT_ACTION_DECISION, CT_BUS_DROP_NOTICE};
use crate::ids::{uuid_text, write_uuid, AgentId};
use crate::text::{concat, same};
use vstd::prelude::*;

verus! {

/// The topic on which lost messages are told of.
pub open spec fn drop_topic_text() -> Seq<char> {
    "rlp/sys/drops"@
}

pub fn drop_topic() -> (r: &'static str)
    ensures
        r@ == drop_topic_text(),
{
    "rlp/sys/drops"
}

/// How long a window is in which notices of losses are counted.
pub const NOTICE_WINDOW_MS: u64 = 1_000;

/// How many notices of losses go out in a window.
pub const NOTICES_PER_WINDOW: u64 = 32;

/// Who publishes.
#[derive(Clone, Copy, Debug, PartialEq, Eq, Structural)]
pub enum PublisherKind {
    Ui,
    Tui,
    Agent,
}

/// Why a message was lost.
#[derive(Clone, Copy, Debug, PartialEq, Eq, Structural)]
pub enum DropReason {
    TtlExpired,
    Duplicate,
    BackpressureTimeout,
}

#[derive(Debug)]
pub struct DropNotice {
    pub v: u16,
    pub reason: DropReason,
    pub topic: String,
    pub trace_id: u128,
    pub msg_id: u64,
    pub expires_at_ms: Option<u64>,
    pub observed_at_ms: u64,
}

/// The counters of the bus.
#[derive(Clone, Copy, Debug, PartialEq, Eq, Structural)]
pub struct BusStats {
    pub published: u64,
    pub delivered: u64,
    pub drops_ttl: u64,
    pub drops_duplicate: u64,
    pub drops_backpressure: u64,
}

#[derive(Clone, Copy, Debug, PartialEq, Eq, Structural)]
pub struct BusConfig {
    pub queue_capacity: usize,
    pub send_timeout_ms: u64,
    pub dedupe_capacity: usize,
    pub dedupe_max_age_ms: u64,
    pub allow_action_decision_ui: bool,
    pub allow_action_decision_tui: bool,
}

impl Default for BusConfig {
    fn default() -> (r: Self)
        ensures
            r.queue_capacity == 1_024,
            r.send_timeout_ms == 50,
            r.dedupe_capacity == 65_536,
            r.dedupe_max_age_ms == DEFAULT_TTL_MS,
            r.allow_action_decision_ui,
            r.allow_action_decision_tui,
    {
        BusConfig {
            queue_capacity: 1_024,
            send_timeout_ms: 50,
            dedupe_capacity: 65_536,
            dedupe_max_age_ms: DEFAULT_TTL_MS,
            allow_action_decision_ui: true,
            allow_action_decision_tui: true,
        }
    }
}

/// Who may publish a decision on an action: people at a screen, where the bus allows it.
pub open spec fn may_decide(c: BusConfig, kind: PublisherKind) -> bool {
    match kind {
        PublisherKind::Ui => c.allow_action_decision_ui,
        PublisherKind::Tui => c.allow_action_decision_tui,
        PublisherKind::Agent => false,
    }
}

impl BusConfig {
    pub fn allowed_action_decision_publisher(&self, kind: PublisherKind) -> (r: bool)
        ensures
            r == may_decide(*self, kind),
    {
        match kind {
            PublisherKind::Ui => self.allow_action_decision_ui,
            PublisherKind::Tui => self.allow_action_decision_tui,
            PublisherKind::Agent => false,
        }
    }
}

/// A counter's next value; counters wrap around.
pub open spec fn counted(n: u64) -> u64 {
    if n == u64::MAX {
        0
    } else {
        (n + 1) as u64
    }
}

fn count(n: u64) -> (r: u64)
    ensures
        r == counted(n),
{
    if n == u64::MAX {
        0
    } else {
        n + 1
    }
}

pub open spec fn with_drop(s: BusStats, reason: DropReason) -> BusStats {
    match reason {
        DropReason::TtlExpired => BusStats { drops_ttl: counted(s.drops_ttl), ..s },
        DropReason::Duplicate => BusStats { drops_duplicate: counted(s.drops_duplicate), ..s },
        DropReason::BackpressureTimeout => BusStats {
            drops_backpressure: counted(s.drops_backpressure),
            ..s
        },
    }
}

fn note_drop(s: BusStats, reason: DropReason) -> (r: BusStats)
    ensures
        r == with_drop(s, reason),
{
    match reason {
        DropReason::TtlExpired => BusStats { drops_ttl: count(s.drops_ttl), ..s },
        DropReason::Duplicate => BusStats { drops_duplicate: count(s.drops_duplicate), ..s },
        DropReason::BackpressureTimeout => BusStats {
            drops_backpressure: count(s.drops_backpressure),
            ..s
        },
    }
}

struct Subscriber {
    id: u64,
    dedupe: DedupeCache,
}

struct Topic {
    name: String,
    subscribers: Vec<Subscriber>,
}

pub ghost struct SubModel {
    pub id: u64,
    pub seen: Entries,
    pub capacity: nat,
    pub max_age: u64,
}

pub type TopicsModel = Seq<(Seq<char>, Seq<SubModel>)>;

pub ghost struct ServerModel {
    pub topics: TopicsModel,
    pub stats: BusStats,
    pub drop_seq: u64,
    pub next_id: u64,
    pub closed: bool,
    pub window_start: u64,
    pub window_notices: u64,
}

/// Where a topic stands; the number of topics if it does not.
pub open spec fn topic_at(t: TopicsModel, name: Seq<char>) -> int
    decreases t.len(),
{
    if t.len() == 0 || t[0].0 == name {
        0
    } else {
        1 + topic_at(t.skip(1), name)
    }
}

/// Where a subscriber stands; the number of subscribers if it does not.
pub open spec fn sub_at(s: Seq<SubModel>, id: u64) -> int
    decreases s.len(),
{
    if s.len() == 0 || s[0].id == id {
        0
    } else {
        1 + sub_at(s.skip(1), id)
    }
}

pub open spec fn listeners(t: TopicsModel, name: Seq<char>) -> Seq<SubModel> {
    if topic_at(t, name) < t.len() {
        t[topic_at(t, name)].1
    } else {
        seq![]
    }
}

pub open spec fn sub_ids(s: Seq<SubModel>) -> Seq<u64> {
    s.map_values(|x: SubModel| x.id)
}

/// A topic with these subscribers in place of its own; a topic without any is no topic.
pub open spec fn with_listeners(t: TopicsModel, name: Seq<char>, s: Seq<SubModel>) -> TopicsModel {
    let i = topic_at(t, name);
    if i < t.len() {
        if s.len() == 0 {
            t.remove(i)
        } else {
            t.update(i, (name, s))
        }
    } else {
        t.push((name, s))
    }
}

/// A new subscriber.
pub open spec fn newcomer(c: BusConfig, id: u64) -> SubModel {
    SubModel {
        id,
        seen: Entries::empty(),
        capacity: if c.dedupe_capacity < 1 {
            1
        } else {
            c.dedupe_capacity as nat
        },
        max_age: c.dedupe_max_age_ms,
    }
}

/// The subscribers without those of the given number.
pub open spec fn others(s: Seq<SubModel>, id: u64) -> Seq<SubModel>
    decreases s.len(),
{
    if s.len() == 0 {
        s
    } else if s.last().id == id {
        others(s.drop_last(), id)
    } else {
        others(s.drop_last(), id).push(s.last())
    }
}

/// The state once a subscriber has left its topic.
pub open spec fn departed(m: ServerModel, topic: Seq<char>, id: u64) -> ServerModel {
    if topic_at(m.topics, topic) < m.topics.len() {
        ServerModel {
            topics: with_listeners(m.topics, topic, others(listeners(m.topics, topic), id)),
            ..m
        }
    } else {
        m
    }
}

/// What becomes of a message that is to be published.
pub open spec fn admission(
    c: BusConfig,
    m: ServerModel,
    topic: Seq<char>,
    h: Header,
    publisher: PublisherKind,
    now: u64,
) -> (ServerModel, Result<Seq<u64>, BusFault>) {
    if m.closed {
        (m, Err(BusFault::Closed))
    } else if h.schema_id == CT_ACTION_DECISION && !may_decide(c, publisher) {
        (
            m,
            Err(
                BusFault::Forbidden("publisher kind not permitted to publish action.decision"@),
            ),
        )
    } else {
        match expiry(h) {
            Err(f) => (m, Err(f)),
            Ok(end) => if now >= end {
                (
                    ServerModel { stats: with_drop(m.stats, DropReason::TtlExpired), ..m },
                    Err(BusFault::MessageExpired),
                )
            } else {
                (
                    ServerModel {
                        stats: BusStats { published: counted(m.stats.published), ..m.stats },
                        ..m
                    },
                    Ok(sub_ids(listeners(m.topics, topic))),
                )
            },
        }
    }
}

/// What a subscriber does with a message that reaches it.
#[derive(Clone, Copy, Debug, PartialEq, Eq, Structural)]
pub enum Turn {
    Gone,
    Duplicate,
    Push,
}

/// A message asks a subscriber for its turn.
pub open spec fn turn_of(m: ServerModel, topic: Seq<char>, id: u64, key: (u128, u64), now: u64) -> (
    ServerModel,
    Turn,
) {
    let subs = listeners(m.topics, topic);
    let j = sub_at(subs, id);
    if j >= subs.len() {
        (m, Turn::Gone)
    } else {
        let s = subs[j];
        let told = SubModel { seen: reserved(s.seen, s.capacity, s.max_age, key, now), ..s };
        let topics = with_listeners(m.topics, topic, subs.update(j, told));
        if holds_key(pruned(s.seen, now, s.max_age), key) {
            (
                ServerModel { topics, stats: with_drop(m.stats, DropReason::Duplicate), ..m },
                Turn::Duplicate,
            )
        } else {
            (ServerModel { topics, ..m }, Turn::Push)
        }
    }
}

/// What became of a push to a subscriber.
#[derive(Clone, Copy, Debug, PartialEq, Eq, Structural)]
pub enum PushOutcome {
    Sent,
    ChannelClosed,
    TimedOut,
}

/// Why a delivery failed, the graver failure later.
#[derive(Clone, Copy, Debug, PartialEq, Eq, Structural)]
pub enum FailureSeverity {
    ChannelClosed,
    BackpressureTimeout,
}

impl FailureSeverity {
    pub open spec fn weight(self) -> u8 {
        match self {
            FailureSeverity::ChannelClosed => 1,
            FailureSeverity::BackpressureTimeout => 2,
        }
    }

    pub fn rank(&self) -> (r: u8)
        ensures
            r == self.weight(),
    {
        match self {
            FailureSeverity::ChannelClosed => 1,
            FailureSeverity::BackpressureTimeout => 2,
        }
    }
}

/// The failure that is reported: a graver one takes the place of a lighter one.
pub open spec fn graver(a: Option<FailureSeverity>, b: FailureSeverity) -> FailureSeverity {
    match a {
        Some(s) => if b.weight() > s.weight() {
            b
        } else {
            s
        },
        None => b,
    }
}

/// The failure that is reported, with its error: the first of the gravest.
pub open spec fn worse(
    a: Option<(FailureSeverity, BusFault)>,
    b: (FailureSeverity, BusFault),
) -> (FailureSeverity, BusFault) {
    match a {
        Some(x) => if b.0.weight() > x.0.weight() {
            b
        } else {
            x
        },
        None => b,
    }
}

pub open spec fn primary_model(p: Option<(FailureSeverity, BusError)>) -> Option<
    (FailureSeverity, BusFault),
> {
    match p {
        Some((s, e)) => Some((s, e@)),
        None => None,
    }
}

pub fn update_primary_error(
    target: &mut Option<(FailureSeverity, BusError)>,
    severity: FailureSeverity,
    error: BusError,
)
    ensures
        primary_model(*final(target)) == Some(
            worse(primary_model(*old(target)), (severity, error@)),
        ),
{
    let replace = match target {
        Some((s, _)) => severity.rank() > s.rank(),
        None => true,
    };
    if replace {
        *target = Some((severity, error));
    }
}

/// What is reported of failures that came one after the other.
pub open spec fn worst(failures: Seq<(FailureSeverity, BusFault)>) -> Option<
    (FailureSeverity, BusFault),
>
    decreases failures.len(),
{
    if failures.len() == 0 {
        None
    } else {
        Some(worse(worst(failures.drop_last()), failures.last()))
    }
}

/// Of failures that come one after the other, the first of the gravest is reported with its own
/// error; once there is one, there is always one.
pub proof fn the_first_of_the_gravest_is_kept(failures: Seq<(FailureSeverity, BusFault)>)
    ensures
        worst(failures) is None <==> failures.len() == 0,
        failures.len() > 0 ==> exists|i: int|
            0 <= i < failures.len() && worst(failures) == Some(#[trigger] failures[i]) && (forall|
                j: int,
            |
                0 <= j < failures.len() ==> (#[trigger] failures[j]).0.weight()
                    <= failures[i].0.weight() && (j < i ==> failures[j].0.weight()
                    < failures[i].0.weight())),
    decreases failures.len(),
{
    if failures.len() > 0 {
        let rest = failures.drop_last();
        the_first_of_the_gravest_is_kept(rest);
        let n = failures.len() - 1;
        if rest.len() == 0 {
            assert(worst(failures) == Some(failures[n]));
        } else {
            let i = choose|i: int|
                0 <= i < rest.len() && worst(rest) == Some(#[trigger] rest[i]) && (forall|j: int|
                    0 <= j < rest.len() ==> (#[trigger] rest[j]).0.weight() <= rest[i].0.weight()
                        && (j < i ==> rest[j].0.weight() < rest[i].0.weight()));
            let k = if failures[n].0.weight() > rest[i].0.weight() {
                n
            } else {
                i
            };
            assert(worst(failures) == Some(failures[k]));
            assert forall|j: int| 0 <= j < failures.len() implies (#[trigger] failures[j]).0.weight()
                <= failures[k].0.weight() && (j < k ==> failures[j].0.weight()
                < failures[k].0.weight()) by {
                if j < n {
                    assert(rest[j] == failures[j]);
                }
            }
        }
    }
}

/// The error of a failure on a topic.
pub open spec fn failure_error(severity: FailureSeverity, topic: Seq<char>) -> BusFault {
    match severity {
        FailureSeverity::ChannelClosed => BusFault::Closed,
        FailureSeverity::BackpressureTimeout => BusFault::BackpressureTimeout(topic),
    }
}

/// The state once a push has ended.
pub open spec fn pushed(m: ServerModel, topic: Seq<char>, id: u64, outcome: PushOutcome) -> ServerModel {
    match outcome {
        PushOutcome::Sent => ServerModel {
            stats: BusStats { delivered: counted(m.stats.delivered), ..m.stats },
            ..m
        },
        PushOutcome::ChannelClosed => departed(m, topic, id),
        PushOutcome::TimedOut => ServerModel {
            stats: with_drop(m.stats, DropReason::BackpressureTimeout),
            ..m
        },
    }
}

/// The state once a subscriber has forgotten a message that it did not get.
pub open spec fn taken_back(m: ServerModel, topic: Seq<char>, id: u64, key: (u128, u64)) -> ServerModel {
    let subs = listeners(m.topics, topic);
    let j = sub_at(subs, id);
    if j >= subs.len() {
        m
    } else {
        let s = subs[j];
        ServerModel {
            topics: with_listeners(
                m.topics,
                topic,
                subs.update(j, SubModel { seen: without(s.seen, key), ..s }),
            ),
            ..m
        }
    }
}

pub struct Server {
    topics: Vec<Topic>,
    stats: BusStats,
    drop_seq: u64,
    next_id: u64,
    closed: bool,
    window_start: u64,
    window_notices: u64,
    config: BusConfig,
}

impl Subscriber {
    closed spec fn view(self) -> SubModel {
        SubModel {
            id: self.id,
            seen: self.dedupe@,
            capacity: self.dedupe.capacity(),
            max_age: self.dedupe.max_age(),
        }
    }
}

closed spec fn sub_models(s: Seq<Subscriber>) -> Seq<SubModel> {
    s.map_values(|x: Subscriber| x@)
}

closed spec fn topic_models(s: Seq<Topic>) -> TopicsModel {
    s.map_values(|t: Topic| (t.name@, sub_models(t.subscribers@)))
}

pub proof fn lemma_topic_at(t: TopicsModel, name: Seq<char>)
    ensures
        0 <= topic_at(t, name) <= t.len(),
        topic_at(t, name) < t.len() ==> t[topic_at(t, name)].0 == name,
        forall|j: int| 0 <= j < topic_at(t, name) ==> (#[trigger] t[j]).0 != name,
    decreases t.len(),
{
    if t.len() > 0 && t[0].0 != name {
        lemma_topic_at(t.skip(1), name);
        assert forall|j: int| 0 <= j < topic_at(t, name) implies (#[trigger] t[j]).0 != name by {
            if j > 0 {
                assert(t.skip(1)[j - 1] == t[j]);
            }
        }
    }
}

pub proof fn lemma_sub_at(s: Seq<SubModel>, id: u64)
    ensures
        0 <= sub_at(s, id) <= s.len(),
        sub_at(s, id) < s.len() ==> s[sub_at(s, id)].id == id,
        forall|j: int| 0 <= j < sub_at(s, id) ==> (#[trigger] s[j]).id != id,
    decreases s.len(),
{
    if s.len() > 0 && s[0].id != id {
        lemma_sub_at(s.skip(1), id);
        assert forall|j: int| 0 <= j < sub_at(s, id) implies (#[trigger] s[j]).id != id by {
            if j > 0 {
                assert(s.skip(1)[j - 1] == s[j]);
            }
        }
    }
}

impl Server {
    pub closed spec fn view(self) -> ServerModel {
        ServerModel {
            topics: topic_models(self.topics@),
            stats: self.stats,
            drop_seq: self.drop_seq,
            next_id: self.next_id,
            closed: self.closed,
            window_start: self.window_start,
            window_notices: self.window_notices,
        }
    }

    pub closed spec fn settings(self) -> BusConfig {
        self.config
    }

    pub fn new(config: BusConfig) -> (r: Self)
        ensures
            r.settings() == config,
            in_order(r@),
            r@ == (ServerModel {
                topics: seq![],
                stats: BusStats {
                    published: 0,
                    delivered: 0,
                    drops_ttl: 0,
                    drops_duplicate: 0,
                    drops_backpressure: 0,
                },
                drop_seq: 0,
                next_id: 0,
                closed: false,
                window_start: 0,
                window_notices: 0,
            }),
    {
        let r = Server {
            topics: Vec::new(),
            stats: BusStats {
                published: 0,
                delivered: 0,
                drops_ttl: 0,
                drops_duplicate: 0,
                drops_backpressure: 0,
            },
            drop_seq: 0,
            next_id: 0,
            closed: false,
            window_start: 0,
            window_notices: 0,
            config,
        };
        assert(r@.topics =~= seq![]);
        r
    }

    pub fn config(&self) -> (r: BusConfig)
        ensures
            r == self.settings(),
    {
        self.config
    }

    pub fn is_closed(&self) -> (r: bool)
        ensures
            r == self@.closed,
    {
        self.closed
    }

    pub fn stats(&self) -> (r: BusStats)
        ensures
            r == self@.stats,
    {
        self.stats
    }

    fn find_topic(&self, name: &str) -> (r: usize)
        ensures
            r == topic_at(self@.topics, name@),
            r <= self.topics.len(),
    {
        let ghost all = self@.topics;
        let mut i: usize = 0;
        assert(all.skip(0) =~= all);
        while i < self.topics.len()
            invariant
                i <= self.topics.len(),
                all == self@.topics,
                topic_at(all, name@) == i + topic_at(all.skip(i as int), name@),
            decreases self.topics.len() - i,
        {
            assert(all.skip(i as int)[0] == all[i as int]);
            assert(all.skip(i as int).skip(1) =~= all.skip(i + 1));
            if same(self.topics[i].name.as_str(), name) {
                return i;
            }
            i += 1;
        }
        i
    }

    fn find_sub(&self, topic: usize, id: u64) -> (r: usize)
        requires
            topic < self.topics.len(),
        ensures
            r == sub_at(self@.topics[topic as int].1, id),
            r <= self.topics@[topic as int].subscribers.len(),
    {
        let ghost all = self@.topics[topic as int].1;
        let subs = &self.topics[topic].subscribers;
        let mut i: usize = 0;
        assert(all.skip(0) =~= all);
        while i < subs.len()
            invariant
                i <= subs.len(),
                topic < self.topics.len(),
                *subs == self.topics@[topic as int].subscribers,
                all == self@.topics[topic as int].1,
                sub_at(all, id) == i + sub_at(all.skip(i as int), id),
            decreases subs.len() - i,
        {
            assert(all.skip(i as int)[0] == all[i as int]);
            assert(all.skip(i as int).skip(1) =~= all.skip(i + 1));
            if subs[i].id == id {
                return i;
            }
            i += 1;
        }
        i
    }

    /// Closes the bus and lets all subscribers go. Tells whether it was open.
    pub fn shutdown(&mut self) -> (r: bool)
        ensures
            r == !old(self)@.closed,
            final(self).settings() == old(self).settings(),
            final(self)@ == if old(self)@.closed {
                old(self)@
            } else {
                ServerModel { topics: seq![], closed: true, ..old(self)@ }
            },
    {
        if self.closed {
            return false;
        }
        self.closed = true;
        self.topics = Vec::new();
        assert(self@.topics =~= seq![]);
        true
    }

    /// Puts a new subscriber on a topic and gives its number.
    pub fn subscribe(&mut self, topic: &str) -> (r: Result<u64, BusError>)
        ensures
            final(self).settings() == old(self).settings(),
            match r {
                Err(e) => old(self)@.closed && e@ == BusFault::Closed && final(self)@
                    == old(self)@,
                Ok(id) => !old(self)@.closed && id == old(self)@.next_id && final(self)@ == (
                ServerModel {
                    topics: with_listeners(
                        old(self)@.topics,
                        topic@,
                        listeners(old(self)@.topics, topic@).push(
                            newcomer(old(self).settings(), id),
                        ),
                    ),
                    next_id: counted(old(self)@.next_id),
                    ..old(self)@
                }),
            },
    {
        if self.closed {
            return Err(BusError::Closed);
        }
        let id = self.next_id;
        self.next_id = count(self.next_id);
        let ghost t0 = self.topics@;
        let sub = Subscriber {
            id,
            dedupe: DedupeCache::new(self.config.dedupe_capacity, self.config.dedupe_max_age_ms),
        };
        assert(sub@ == newcomer(self.config, id));
        let i = self.find_topic(topic);
        proof {
            lemma_topic_at(topic_models(t0), topic@);
        }
        if i < self.topics.len() {
            let ghost s0 = self.topics@[i as int].subscribers@;
            self.topics[i].subscribers.push(sub);
            proof {
                assert(sub_models(self.topics@[i as int].subscribers@) =~= sub_models(s0).push(
                    sub@,
                ));
                assert(topic_models(self.topics@) =~= topic_models(t0).update(
                    i as int,
                    (topic@, sub_models(s0).push(sub@)),
                ));
            }
        } else {
            let mut subscribers: Vec<Subscriber> = Vec::new();
            subscribers.push(sub);
            let t = Topic { name: topic.to_owned(), subscribers };
            self.topics.push(t);
            proof {
                assert(sub_models(t.subscribers@) =~= Seq::<SubModel>::empty().push(sub@));
                assert(topic_models(self.topics@) =~= topic_models(t0).push(
                    (topic@, sub_models(t.subscribers@)),
                ));
            }
        }
        Ok(id)
    }

    /// Takes a subscriber off a topic; a topic that is left without any goes too.
    pub fn remove_subscriber(&mut self, topic: &str, id: u64)
        ensures
            final(self).settings() == old(self).settings(),
            final(self)@ == departed(old(self)@, topic@, id),
    {
        let ghost t0 = self.topics@;
        let i = self.find_topic(topic);
        proof {
            lemma_topic_at(topic_models(t0), topic@);
        }
        if i >= self.topics.len() {
            return ;
        }
        let ghost all = sub_models(t0[i as int].subscribers@);
        let ghost rest = t0.remove(i as int);
        let entry = self.topics.remove(i);
        let name = entry.name;
        let mut old_subs = entry.subscribers;
        let mut kept: Vec<Subscriber> = Vec::new();
        let ghost mut done: int = 0;
        assert(all.take(0) =~= seq![]);
        assert(sub_models(kept@) =~= others(all.take(0), id));
        assert(sub_models(old_subs@) =~= all.skip(0));
        while old_subs.len() > 0
            invariant
                0 <= done <= all.len(),
                sub_models(old_subs@) == all.skip(done),
                sub_models(kept@) == others(all.take(done), id),
                old_subs@.len() == all.len() - done,
            decreases old_subs@.len(),
        {
            let ghost o0 = old_subs@;
            let sub = old_subs.remove(0);
            proof {
                assert(sub_models(o0)[0] == sub@);
                assert(all[done] == sub@);
                assert forall|k: int| 0 <= k < old_subs@.len() implies #[trigger] sub_models(
                    old_subs@,
                )[k] == all.skip(done + 1)[k] by {
                    assert(sub_models(o0)[k + 1] == all.skip(done)[k + 1]);
                }
                assert(sub_models(old_subs@) =~= all.skip(done + 1));
                assert(all.take(done + 1).drop_last() =~= all.take(done));
                assert(all.take(done + 1).last() == sub@);
            }
            if sub.id != id {
                let ghost k0 = kept@;
                kept.push(sub);
                assert(sub_models(kept@) =~= sub_models(k0).push(sub@));
            }
            proof {
                done = done + 1;
            }
        }
        assert(all.take(all.len() as int) =~= all);
        if kept.len() > 0 {
            let t = Topic { name, subscribers: kept };
            self.topics.insert(i, t);
            assert(topic_models(self.topics@) =~= topic_models(t0).update(
                i as int,
                (topic@, sub_models(kept@)),
            ));
        } else {
            assert(topic_models(self.topics@) =~= topic_models(t0).remove(i as int));
        }
    }

    fn ids_on(&self, topic: &str) -> (r: Vec<u64>)
        ensures
            r@ == sub_ids(listeners(self@.topics, topic@)),
    {
        let mut ids: Vec<u64> = Vec::new();
        let i = self.find_topic(topic);
        if i < self.topics.len() {
            let subs = &self.topics[i].subscribers;
            let mut k: usize = 0;
            while k < subs.len()
                invariant
                    k <= subs.len(),
                    ids@.len() == k,
                    forall|j: int| 0 <= j < k ==> #[trigger] ids@[j] == subs@[j].id,
                decreases subs.len() - k,
            {
                ids.push(subs[k].id);
                k += 1;
            }
            assert(ids@ =~= sub_ids(sub_models(subs@)));
        } else {
            assert(ids@ =~= sub_ids(seq![]));
        }
        ids
    }

    /// Looks at a message that is to be published. Gives the numbers of those who are to get it.
    pub fn accept(&mut self, topic: &str, header: &Header, publisher: PublisherKind, now_ms: u64) -> (r:
        Result<Vec<u64>, BusError>)
        ensures
            final(self).settings() == old(self).settings(),
            final(self)@ == admission(
                old(self).settings(),
                old(self)@,
                topic@,
                *header,
                publisher,
                now_ms,
            ).0,
            match (
                r,
                admission(old(self).settings(), old(self)@, topic@, *header, publisher, now_ms).1,
            ) {
                (Ok(ids), Ok(s)) => ids@ == s,
                (Err(e), Err(f)) => e@ == f,
                _ => false,
            },
    {
        if self.closed {
            return Err(BusError::Closed);
        }
        if header.schema_id == CT_ACTION_DECISION && !self.config.allowed_action_decision_publisher(
            publisher,
        ) {
            return Err(
                BusError::Forbidden(
                    "publisher kind not permitted to publish action.decision".to_owned(),
                ),
            );
        }
        match header.is_expired(now_ms) {
            Err(e) => {
                return Err(e);
            },
            Ok(expired) => {
                if expired {
                    self.stats = note_drop(self.stats, DropReason::TtlExpired);
                    return Err(BusError::MessageExpired);
                }
            },
        }
        self.stats = BusStats { published: count(self.stats.published), ..self.stats };
        Ok(self.ids_on(topic))
    }

    /// A message asks a subscriber for its turn.
    pub fn reserve(&mut self, topic: &str, id: u64, key: (u128, u64), now_ms: u64) -> (r: Turn)
        ensures
            final(self).settings() == old(self).settings(),
            (final(self)@, r) == turn_of(old(self)@, topic@, id, key, now_ms),
    {
        let ghost t0 = self.topics@;
        let ghost m0 = topic_models(t0);
        let i = self.find_topic(topic);
        proof {
            lemma_topic_at(m0, topic@);
        }
        if i >= self.topics.len() {
            assert(sub_at(Seq::<SubModel>::empty(), id) == 0);
            return Turn::Gone;
        }
        let j = self.find_sub(i, id);
        if j >= self.topics[i].subscribers.len() {
            return Turn::Gone;
        }
        let ghost s0 = t0[i as int].subscribers@;
        let ghost x0 = s0[j as int]@;
        let fresh = self.topics[i].subscribers[j].dedupe.reserve(key, now_ms);
        proof {
            let told = SubModel {
                seen: reserved(x0.seen, x0.capacity, x0.max_age, key, now_ms),
                ..x0
            };
            assert(sub_models(s0)[j as int] == x0);
            assert(sub_models(self.topics@[i as int].subscribers@) =~= sub_models(s0).update(
                j as int,
                told,
            ));
            assert(topic_models(self.topics@) =~= m0.update(
                i as int,
                (topic@, sub_models(s0).update(j as int, told)),
            ));
        }
        if fresh {
            Turn::Push
        } else {
            self.stats = note_drop(self.stats, DropReason::Duplicate);
            Turn::Duplicate
        }
    }

    /// Takes the outcome of a push to a subscriber.
    pub fn push_ended(&mut self, topic: &str, id: u64, outcome: PushOutcome)
        ensures
            final(self).settings() == old(self).settings(),
            final(self)@ == pushed(old(self)@, topic@, id, outcome),
    {
        match outcome {
            PushOutcome::Sent => {
                self.stats = BusStats { delivered: count(self.stats.delivered), ..self.stats };
            },
            PushOutcome::ChannelClosed => {
                self.remove_subscriber(topic, id);
            },
            PushOutcome::TimedOut => {
                self.stats = note_drop(self.stats, DropReason::BackpressureTimeout);
            },
        }
    }

    /// Lets a subscriber forget a message that it did not get.
    pub fn rollback(&mut self, topic: &str, id: u64, key: (u128, u64))
        ensures
            final(self).settings() == old(self).settings(),
            final(self)@ == taken_back(old(self)@, topic@, id, key),
    {
        let ghost t0 = self.topics@;
        let ghost m0 = topic_models(t0);
        let i = self.find_topic(topic);
        proof {
            lemma_topic_at(m0, topic@);
        }
        if i >= self.topics.len() {
            return ;
        }
        let j = self.find_sub(i, id);
        if j >= self.topics[i].subscribers.len() {
            return ;
        }
        let ghost s0 = t0[i as int].subscribers@;
        let ghost x0 = s0[j as int]@;
        self.topics[i].subscribers[j].dedupe.remove(key);
        proof {
            let told = SubModel { seen: without(x0.seen, key), ..x0 };
            assert(sub_models(s0)[j as int] == x0);
            assert(sub_models(self.topics@[i as int].subscribers@) =~= sub_models(s0).update(
                j as int,
                told,
            ));
            assert(topic_models(self.topics@) =~= m0.update(
                i as int,
                (topic@, sub_models(s0).update(j as int, told)),
            ));
        }
    }

    /// The header of the next message that tells of a loss.
    pub fn drop_header(&mut self, lost: &Header, observed_at_ms: u64) -> (r: Header)
        ensures
            final(self).settings() == old(self).settings(),
            final(self)@ == (ServerModel { drop_seq: counted(old(self)@.drop_seq), ..old(self)@ }),
            r == (Header {
                schema_id: CT_BUS_DROP_NOTICE,
                body_len: 0,
                created_at_ms: observed_at_ms,
                ttl_ms: 5_000,
                trace_id: lost.trace_id,
                msg_id: counted(old(self)@.drop_seq),
            }),
    {
        self.drop_seq = count(self.drop_seq);
        Header {
            schema_id: CT_BUS_DROP_NOTICE,
            body_len: 0,
            created_at_ms: observed_at_ms,
            ttl_ms: 5_000,
            trace_id: lost.trace_id,
            msg_id: self.drop_seq,
        }
    }
}

/// What is told of a lost message.
pub fn drop_notice(topic: &str, lost: &Header, reason: DropReason, observed_at_ms: u64) -> (r:
    DropNotice)
    ensures
        r.v == 1,
        r.reason == reason,
        r.topic@ == topic@,
        r.trace_id == lost.trace_id,
        r.msg_id == lost.msg_id,
        r.observed_at_ms == observed_at_ms,
        r.expires_at_ms == match expiry(*lost) {
            Ok(end) => Some(end),
            Err(_) => None,
        },
{
    let expires_at_ms = match lost.expires_at_ms() {
        Ok(end) => Some(end),
        Err(_) => None,
    };
    DropNotice {
        v: 1,
        reason,
        topic: topic.to_owned(),
        trace_id: lost.trace_id,
        msg_id: lost.msg_id,
        expires_at_ms,
        observed_at_ms,
    }
}

/// A message on its way to those who listen.
pub struct Publication {
    topic: String,
    header: Header,
    now_ms: u64,
    waiting: Vec<u64>,
    failed: Vec<u64>,
    primary: Option<(FailureSeverity, BusError)>,
}

pub ghost struct PublicationModel {
    pub topic: Seq<char>,
    pub header: Header,
    pub now_ms: u64,
    pub waiting: Seq<u64>,
    pub failed: Seq<u64>,
    pub primary: Option<(FailureSeverity, BusFault)>,
}

/// What is to be done next with a message.
#[derive(Clone, Copy, Debug, PartialEq, Eq, Structural)]
pub enum Delivery {
    /// Push it to the subscriber of this number, and tell what became of it.
    Push(u64),
    /// Tell of a duplicate.
    Duplicate,
    /// The subscriber has left.
    Gone(u64),
    /// Everyone has had a turn.
    Done,
}

/// The next step of a publication.
pub open spec fn delivery(p: PublicationModel, m: ServerModel) -> (PublicationModel, ServerModel, Delivery) {
    if p.waiting.len() == 0 {
        (p, m, Delivery::Done)
    } else {
        let id = p.waiting[0];
        let rest = PublicationModel { waiting: p.waiting.skip(1), ..p };
        let (n, turn) = turn_of(
            m,
            p.topic,
            id,
            (p.header.trace_id, p.header.msg_id),
            p.now_ms,
        );
        match turn {
            Turn::Gone => (failed_with(rest, id, FailureSeverity::ChannelClosed), n, Delivery::Gone(id)),
            Turn::Duplicate => (rest, n, Delivery::Duplicate),
            Turn::Push => (rest, n, Delivery::Push(id)),
        }
    }
}

/// A publication that failed to reach a subscriber.
pub open spec fn failed_with(p: PublicationModel, id: u64, severity: FailureSeverity) -> PublicationModel {
    PublicationModel {
        failed: p.failed.push(id),
        primary: Some(worse(p.primary, (severity, failure_error(severity, p.topic)))),
        ..p
    }
}

/// A publication once a push has ended.
pub open spec fn after_push(p: PublicationModel, id: u64, outcome: PushOutcome) -> PublicationModel {
    match outcome {
        PushOutcome::Sent => p,
        PushOutcome::ChannelClosed => failed_with(p, id, FailureSeverity::ChannelClosed),
        PushOutcome::TimedOut => failed_with(p, id, FailureSeverity::BackpressureTimeout),
    }
}

/// The first `n` of those who were not reached forget the message.
pub open spec fn all_taken_back(m: ServerModel, p: PublicationModel, n: nat) -> ServerModel
    decreases n,
{
    if n == 0 {
        m
    } else {
        taken_back(
            all_taken_back(m, p, (n - 1) as nat),
            p.topic,
            p.failed[n - 1],
            (p.header.trace_id, p.header.msg_id),
        )
    }
}

/// What a publication comes to.
pub open spec fn verdict(p: PublicationModel) -> Result<(), BusFault> {
    match p.primary {
        None => Ok(()),
        Some((_, f)) => Err(f),
    }
}

impl Publication {
    pub closed spec fn view(self) -> PublicationModel {
        PublicationModel {
            topic: self.topic@,
            header: self.header,
            now_ms: self.now_ms,
            waiting: self.waiting@,
            failed: self.failed@,
            primary: primary_model(self.primary),
        }
    }

    /// A message that goes to the subscribers of these numbers.
    pub fn new(topic: &str, header: Header, now_ms: u64, waiting: Vec<u64>) -> (r: Self)
        ensures
            r@ == (PublicationModel {
                topic: topic@,
                header,
                now_ms,
                waiting: waiting@,
                failed: seq![],
                primary: None,
            }),
    {
        let r = Publication {
            topic: topic.to_owned(),
            header,
            now_ms,
            waiting,
            failed: Vec::new(),
            primary: None,
        };
        assert(r@.failed =~= seq![]);
        r
    }

    /// Takes the next subscriber's turn.
    pub fn deliver(&mut self, server: &mut Server) -> (r: Delivery)
        ensures
            final(server).settings() == old(server).settings(),
            (final(self)@, final(server)@, r) == delivery(old(self)@, old(server)@),
    {
        if self.waiting.len() == 0 {
            return Delivery::Done;
        }
        let ghost w0 = self.waiting@;
        let id = self.waiting.remove(0);
        assert(self.waiting@ =~= w0.skip(1));
        match server.reserve(self.topic.as_str(), id, self.header.dedupe_key(), self.now_ms) {
            Turn::Gone => {
                self.failed.push(id);
                update_primary_error(
                    &mut self.primary,
                    FailureSeverity::ChannelClosed,
                    BusError::Closed,
                );
                Delivery::Gone(id)
            },
            Turn::Duplicate => Delivery::Duplicate,
            Turn::Push => Delivery::Push(id),
        }
    }

    /// Takes the outcome of a push.
    pub fn pushed(&mut self, server: &mut Server, id: u64, outcome: PushOutcome)
        ensures
            final(server).settings() == old(server).settings(),
            final(server)@ == self::pushed(old(server)@, old(self)@.topic, id, outcome),
            final(self)@ == after_push(old(self)@, id, outcome),
    {
        server.push_ended(self.topic.as_str(), id, outcome);
        match outcome {
            PushOutcome::Sent => {},
            PushOutcome::ChannelClosed => {
                self.failed.push(id);
                update_primary_error(
                    &mut self.primary,
                    FailureSeverity::ChannelClosed,
                    BusError::Closed,
                );
            },
            PushOutcome::TimedOut => {
                self.failed.push(id);
                let topic = self.topic.clone();
                update_primary_error(
                    &mut self.primary,
                    FailureSeverity::BackpressureTimeout,
                    BusError::BackpressureTimeout { topic },
                );
            },
        }
    }

    /// Lets those who were not reached forget the message, and says how the publication ended.
    pub fn finish(self, server: &mut Server) -> (r: Result<(), BusError>)
        ensures
            final(server).settings() == old(server).settings(),
            final(server)@ == all_taken_back(old(server)@, self@, self@.failed.len()),
            match (r, verdict(self@)) {
                (Ok(_), Ok(_)) => true,
                (Err(e), Err(f)) => e@ == f,
                _ => false,
            },
    {
        let ghost m0 = server@;
        let key = self.header.dedupe_key();
        let mut i: usize = 0;
        while i < self.failed.len()
            invariant
                i <= self.failed.len(),
                key == (self.header.trace_id, self.header.msg_id),
                server.settings() == old(server).settings(),
                server@ == all_taken_back(m0, self@, i as nat),
            decreases self.failed.len() - i,
        {
            server.rollback(self.topic.as_str(), self.failed[i], key);
            i += 1;
        }
        match self.primary {
            None => Ok(()),
            Some((_, e)) => Err(e),
        }
    }
}

/// The topic on which an agent is spoken to.
pub open spec fn direct_topic_text(id: u128) -> Seq<char> {
    "agent/"@ + uuid_text(id)
}

pub fn direct_topic(id: &AgentId) -> (r: String)
    ensures
        r@ == direct_topic_text(id.0),
{
    let t = write_uuid(id.0);
    concat("agent/", t.as_str())
}

/// Those who are told of lost messages.
pub open spec fn told(m: ServerModel) -> Seq<u64> {
    sub_ids(listeners(m.topics, drop_topic_text()))
}

/// The state once a notice has been pushed: a timeout is not counted as a loss.
pub open spec fn after_notice(m: ServerModel, id: u64, outcome: PushOutcome) -> ServerModel {
    match outcome {
        PushOutcome::TimedOut => m,
        _ => pushed(m, drop_topic_text(), id, outcome),
    }
}

/// Whether a loss opens a new window.
pub open spec fn opens_window(m: ServerModel, now: u64) -> bool {
    age(now, m.window_start) >= NOTICE_WINDOW_MS
}

/// Whether a loss is told of: so many in a window are, and no more.
pub open spec fn notice_due(m: ServerModel, now: u64) -> bool {
    opens_window(m, now) || m.window_notices < NOTICES_PER_WINDOW
}

/// The state once a loss has been told of, or passed over.
pub open spec fn noticed(m: ServerModel, now: u64) -> ServerModel {
    if opens_window(m, now) {
        ServerModel { window_start: now, window_notices: 1, ..m }
    } else if m.window_notices < NOTICES_PER_WINDOW {
        ServerModel { window_notices: (m.window_notices + 1) as u64, ..m }
    } else {
        m
    }
}

/// How many of the losses at these times are told of.
pub open spec fn notices_given(m: ServerModel, times: Seq<u64>) -> nat
    decreases times.len(),
{
    if times.len() == 0 {
        0
    } else {
        (if notice_due(m, times[0]) {
            1nat
        } else {
            0nat
        }) + notices_given(noticed(m, times[0]), times.skip(1))
    }
}

proof fn lemma_one_window(m: ServerModel, times: Seq<u64>)
    requires
        m.window_notices <= NOTICES_PER_WINDOW,
        forall|i: int| 0 <= i < times.len() ==> !opens_window(m, #[trigger] times[i]),
    ensures
        notices_given(m, times) <= NOTICES_PER_WINDOW - m.window_notices,
    decreases times.len(),
{
    if times.len() > 0 {
        let rest = times.skip(1);
        let n = noticed(m, times[0]);
        assert forall|i: int| 0 <= i < rest.len() implies !opens_window(n, #[trigger] rest[i]) by {
            assert(rest[i] == times[i + 1]);
        }
        lemma_one_window(n, rest);
    }
}

/// However many messages are lost within the length of a window, no more than two windows' notices
/// go out. The counters of the losses do not depend on it.
pub proof fn notices_are_limited(m: ServerModel, times: Seq<u64>, from: u64)
    requires
        m.window_notices <= NOTICES_PER_WINDOW,
        forall|i: int| 0 <= i < times.len() ==> from <= #[trigger] times[i] < from + NOTICE_WINDOW_MS,
    ensures
        notices_given(m, times) <= 2 * NOTICES_PER_WINDOW - m.window_notices,
        forall|now: u64|
            (#[trigger] noticed(m, now)).stats == m.stats && noticed(m, now).window_notices
                <= NOTICES_PER_WINDOW,
    decreases times.len(),
{
    if times.len() > 0 {
        let rest = times.skip(1);
        let n = noticed(m, times[0]);
        assert forall|i: int| 0 <= i < rest.len() implies from <= #[trigger] rest[i] < from
            + NOTICE_WINDOW_MS by {
            assert(rest[i] == times[i + 1]);
        }
        if opens_window(m, times[0]) {
            assert forall|i: int| 0 <= i < rest.len() implies !opens_window(
                n,
                #[trigger] rest[i],
            ) by {
                assert(from <= times[0] < from + NOTICE_WINDOW_MS);
            }
            lemma_one_window(n, rest);
        } else {
            notices_are_limited(n, rest, from);
        }
    }
}

impl Server {
    /// Those who are told of a loss; nobody where enough has been told in this window.
    pub fn notice_targets(&mut self, observed_at_ms: u64) -> (r: Vec<u64>)
        ensures
            final(self).settings() == old(self).settings(),
            final(self)@ == noticed(old(self)@, observed_at_ms),
            r@ == if notice_due(old(self)@, observed_at_ms) {
                told(old(self)@)
            } else {
                seq![]
            },
    {
        let opens = observed_at_ms > self.window_start && observed_at_ms - self.window_start
            >= NOTICE_WINDOW_MS;
        if opens {
            self.window_start = observed_at_ms;
            self.window_notices = 1;
        } else if self.window_notices < NOTICES_PER_WINDOW {
            self.window_notices = self.window_notices + 1;
        } else {
            let none: Vec<u64> = Vec::new();
            assert(none@ =~= seq![]);
            return none;
        }
        self.ids_on(drop_topic())
    }

    pub fn notice_ended(&mut self, id: u64, outcome: PushOutcome)
        ensures
            final(self).settings() == old(self).settings(),
            final(self)@ == after_notice(old(self)@, id, outcome),
    {
        match outcome {
            PushOutcome::TimedOut => {},
            _ => self.push_ended(drop_topic(), id, outcome),
        }
    }
}

/// Where a client finds the bus.
#[derive(Clone, Copy, Debug, PartialEq, Eq, Structural)]
pub enum Backend {
    Local,
    Remote,
}

/// A bus of this process is used as it is; a remote one takes agents only.
pub open spec fn backend_of(closed: Option<bool>, kind: PublisherKind) -> Result<Backend, BusFault> {
    match closed {
        Some(true) => Err(BusFault::Closed),
        Some(false) => Ok(Backend::Local),
        None => if kind == PublisherKind::Agent {
            Ok(Backend::Remote)
        } else {
            Err(BusFault::Forbidden("remote publishers limited to agent kind"@))
        },
    }
}

/// Says how to connect: `local_closed` tells of the bus of this process, if there is one, whether
/// it has been closed.
pub fn choose_backend(local_closed: Option<bool>, kind: PublisherKind) -> (r: Result<
    Backend,
    BusError,
>)
    ensures
        match (r, backend_of(local_closed, kind)) {
            (Ok(b), Ok(c)) => b == c,
            (Err(e), Err(f)) => e@ == f,
            _ => false,
        },
{
    match local_closed {
        Some(closed) => {
            if closed {
                Err(BusError::Closed)
            } else {
                Ok(Backend::Local)
            }
        },
        None => {
            if kind == PublisherKind::Agent {
                Ok(Backend::Remote)
            } else {
                Err(BusError::Forbidden("remote publishers limited to agent kind".to_owned()))
            }
        },
    }
}

/// An agent's decision on an action is always refused, whatever the bus allows.
pub proof fn agents_decide_nothing(
    c: BusConfig,
    m: ServerModel,
    topic: Seq<char>,
    h: Header,
    now: u64,
)
    requires
        h.schema_id == CT_ACTION_DECISION,
        !m.closed,
    ensures
        admission(c, m, topic, h, PublisherKind::Agent, now).0 == m,
        admission(c, m, topic, h, PublisherKind::Agent, now).1 matches Err(f) && f is Forbidden,
{
}

/// A message that has reached its end is given to nobody.
pub proof fn expired_messages_go_nowhere(
    c: BusConfig,
    m: ServerModel,
    topic: Seq<char>,
    h: Header,
    publisher: PublisherKind,
    now: u64,
)
    requires
        expiry(h) matches Ok(end) && now >= end,
    ensures
        admission(c, m, topic, h, publisher, now).1 is Err,
        admission(c, m, topic, h, publisher, now).0.topics == m.topics,
{
}

/// On a closed bus nothing is published.
pub proof fn closed_buses_refuse(
    c: BusConfig,
    m: ServerModel,
    topic: Seq<char>,
    h: Header,
    publisher: PublisherKind,
    now: u64,
)
    requires
        m.closed,
    ensures
        admission(c, m, topic, h, publisher, now) == (m, Err::<Seq<u64>, _>(BusFault::Closed)),
{
}

/// What a publication would report after these pushes.
pub open spec fn gravest(outcomes: Seq<PushOutcome>) -> Option<FailureSeverity>
    decreases outcomes.len(),
{
    if outcomes.len() == 0 {
        None
    } else {
        match outcomes.last() {
            PushOutcome::Sent => gravest(outcomes.drop_last()),
            PushOutcome::ChannelClosed => Some(
                graver(gravest(outcomes.drop_last()), FailureSeverity::ChannelClosed),
            ),
            PushOutcome::TimedOut => Some(
                graver(gravest(outcomes.drop_last()), FailureSeverity::BackpressureTimeout),
            ),
        }
    }
}

/// A publication reports a timeout if any push timed out, a closed channel if one was closed and
/// none timed out, and nothing if all were sent, whatever the order.
pub proof fn the_gravest_failure_is_reported(outcomes: Seq<PushOutcome>)
    ensures
        gravest(outcomes) == Some(FailureSeverity::BackpressureTimeout) <==> outcomes.contains(
            PushOutcome::TimedOut,
        ),
        gravest(outcomes) is None <==> (forall|i: int|
            0 <= i < outcomes.len() ==> outcomes[i] == PushOutcome::Sent),
    decreases outcomes.len(),
{
    if outcomes.len() > 0 {
        let rest = outcomes.drop_last();
        the_gravest_failure_is_reported(rest);
        assert(outcomes =~= rest.push(outcomes.last()));
        if rest.contains(PushOutcome::TimedOut) {
            let k = choose|k: int| 0 <= k < rest.len() && rest[k] == PushOutcome::TimedOut;
            assert(outcomes[k] == PushOutcome::TimedOut);
        }
        if outcomes.contains(PushOutcome::TimedOut) && outcomes.last() != PushOutcome::TimedOut {
            let k = choose|k: int| 0 <= k < outcomes.len() && outcomes[k] == PushOutcome::TimedOut;
            assert(rest[k] == PushOutcome::TimedOut);
        }
        if outcomes.last() == PushOutcome::Sent {
            assert((forall|i: int| 0 <= i < outcomes.len() ==> outcomes[i] == PushOutcome::Sent)
                ==> (forall|i: int| 0 <= i < rest.len() ==> rest[i] == PushOutcome::Sent));
            if gravest(rest) is None {
                assert forall|i: int| 0 <= i < outcomes.len() implies outcomes[i]
                    == PushOutcome::Sent by {
                    if i < rest.len() {
                        assert(rest[i] == PushOutcome::Sent);
                    }
                }
            }
        }
    }
}

/// After the pushes of `outcomes` to as many subscribers, a
/// publication that had not failed before reports the gravest of them, with its error.
pub proof fn pushes_are_summed_up(p: PublicationModel, ids: Seq<u64>, outcomes: Seq<PushOutcome>)
    requires
        ids.len() == outcomes.len(),
        p.primary is None,
    ensures
        after_pushes(p, ids, outcomes).topic == p.topic,
        after_pushes(p, ids, outcomes).primary == match gravest(outcomes) {
            Some(severity) => Some((severity, failure_error(severity, p.topic))),
            None => None,
        },
    decreases outcomes.len(),
{
    if outcomes.len() > 0 {
        pushes_are_summed_up(p, ids.drop_last(), outcomes.drop_last());
    }
}

pub open spec fn after_pushes(
    p: PublicationModel,
    ids: Seq<u64>,
    outcomes: Seq<PushOutcome>,
) -> PublicationModel
    decreases outcomes.len(),
{
    if outcomes.len() == 0 {
        p
    } else {
        after_push(
            after_pushes(p, ids.drop_last(), outcomes.drop_last()),
            ids.last(),
            outcomes.last(),
        )
    }
}

/// A whole publication: everyone in turn, each push ending as `outcomes` says. Gives what is left
/// of the publication, the server, and the numbers of those to whom the message was pushed.
pub open spec fn carried_out(
    p: PublicationModel,
    m: ServerModel,
    outcomes: spec_fn(u64) -> PushOutcome,
) -> (PublicationModel, ServerModel, Seq<u64>)
    decreases p.waiting.len(),
{
    if p.waiting.len() == 0 {
        (p, m, seq![])
    } else {
        let (q, n, step) = delivery(p, m);
        match step {
            Delivery::Push(id) => {
                let o = outcomes(id);
                let (a, b, c) = carried_out(after_push(q, id, o), pushed(n, p.topic, id, o), outcomes);
                (a, b, seq![id] + c)
            },
            _ => carried_out(q, n, outcomes),
        }
    }
}

/// Whether a subscriber has seen a message of late.
pub open spec fn has_seen(s: SubModel, key: (u128, u64), now: u64) -> bool {
    holds_key(pruned(s.seen, now, s.max_age), key)
}

/// A subscriber that a message has asked for its turn.
pub open spec fn asked(s: SubModel, key: (u128, u64), now: u64) -> SubModel {
    SubModel { seen: reserved(s.seen, s.capacity, s.max_age, key, now), ..s }
}

pub open spec fn distinct_ids(s: Seq<SubModel>) -> bool {
    forall|i: int, j: int| 0 <= i < j < s.len() ==> (#[trigger] s[i]).id != (#[trigger] s[j]).id
}

/// The key by which a message is known.
pub open spec fn key_of(h: Header) -> (u128, u64) {
    (h.trace_id, h.msg_id)
}

/// The counters after so many losses for one reason.
pub open spec fn with_drops(s: BusStats, reason: DropReason, n: nat) -> BusStats
    decreases n,
{
    if n == 0 {
        s
    } else {
        with_drops(with_drop(s, reason), reason, (n - 1) as nat)
    }
}

pub proof fn lemma_relisted(t: TopicsModel, name: Seq<char>, s: Seq<SubModel>, other: Seq<char>)
    requires
        topic_at(t, name) < t.len(),
        s.len() > 0,
    ensures
        listeners(with_listeners(t, name, s), name) == s,
        topic_at(with_listeners(t, name, s), name) < t.len(),
        with_listeners(t, name, s).len() == t.len(),
        other != name ==> listeners(with_listeners(t, name, s), other) == listeners(t, other),
{
    let u = with_listeners(t, name, s);
    lemma_topic_at(t, name);
    lemma_topic_at(u, name);
    lemma_topic_at(t, other);
    lemma_topic_at(u, other);
    let i = topic_at(t, name);
    let j = topic_at(u, name);
    assert(u[i].0 == name);
    if j < i {
        assert(u[j] == t[j]);
    }
    if other != name {
        let a = topic_at(t, other);
        let b = topic_at(u, other);
        if a < b {
            if a < t.len() {
                assert(u[a] == t[a]);
            }
        } else if b < a {
            assert(u[b] == t[b]);
        }
    }
}

proof fn lemma_sub_place(s: Seq<SubModel>, i: int)
    requires
        distinct_ids(s),
        0 <= i < s.len(),
    ensures
        sub_at(s, s[i].id) == i,
{
    lemma_sub_at(s, s[i].id);
    let j = sub_at(s, s[i].id);
    if j < i {
        assert(s[j].id != s[i].id);
    }
}

/// What a publication leaves, from the subscriber at `i` on, where no channel is closed.
proof fn lemma_carried_out(
    p: PublicationModel,
    m: ServerModel,
    outcomes: spec_fn(u64) -> PushOutcome,
    i: int,
    other: Seq<char>,
)
    requires
        ({
            let subs = listeners(m.topics, p.topic);
            &&& 0 <= i <= subs.len()
            &&& distinct_ids(subs)
            &&& p.waiting == sub_ids(subs).skip(i)
        }),
        forall|id: u64| #[trigger] outcomes(id) !is ChannelClosed,
        other != p.topic,
    ensures
        ({
            let subs = listeners(m.topics, p.topic);
            let key = key_of(p.header);
            let (q, n, sent) = carried_out(p, m, outcomes);
            let left = listeners(n.topics, p.topic);
            &&& q.topic == p.topic
            &&& q.header == p.header
            &&& listeners(n.topics, other) == listeners(m.topics, other)
            &&& left.len() == subs.len()
            &&& forall|k: int|
                0 <= k < subs.len() ==> #[trigger] left[k] == if k < i {
                    subs[k]
                } else {
                    asked(subs[k], key, p.now_ms)
                }
            &&& forall|k: int|
                0 <= k < subs.len() ==> (sent.contains((#[trigger] subs[k]).id) <==> k >= i
                    && !has_seen(subs[k], key, p.now_ms))
            &&& forall|k: int|
                0 <= k < subs.len() ==> (q.failed.contains((#[trigger] subs[k]).id)
                    <==> p.failed.contains(subs[k].id) || (k >= i && !has_seen(
                    subs[k],
                    key,
                    p.now_ms,
                ) && outcomes(subs[k].id) is TimedOut))
            &&& (forall|k: int| i <= k < subs.len() ==> has_seen(#[trigger] subs[k], key, p.now_ms))
                ==> {
                &&& sent.len() == 0
                &&& n.stats == with_drops(
                    m.stats,
                    DropReason::Duplicate,
                    (subs.len() - i) as nat,
                )
                &&& q.primary == p.primary
                &&& q.failed == p.failed
            }
        }),
    decreases p.waiting.len(),
{
    let subs = listeners(m.topics, p.topic);
    let key = key_of(p.header);
    if i < subs.len() {
        let id = subs[i].id;
        assert(p.waiting[0] == id);
        lemma_sub_place(subs, i);
        let told = asked(subs[i], key, p.now_ms);
        let next = subs.update(i, told);
        lemma_relisted(m.topics, p.topic, next, other);
        let (q, n, step) = delivery(p, m);
        assert(listeners(n.topics, p.topic) == next);
        assert(distinct_ids(next)) by {
            assert forall|a: int, b: int| 0 <= a < b < next.len() implies (#[trigger] next[a]).id != (
            #[trigger] next[b]).id by {
                assert(subs[a].id != subs[b].id);
            }
        }
        assert(p.waiting.skip(1) =~= sub_ids(next).skip(i + 1));
        let o = outcomes(id);
        let seen = has_seen(subs[i], key, p.now_ms);
        let q2 = if seen {
            q
        } else {
            after_push(q, id, o)
        };
        let n2 = if seen {
            n
        } else {
            pushed(n, p.topic, id, o)
        };
        lemma_carried_out(q2, n2, outcomes, i + 1, other);
        let (a, b, c) = carried_out(q2, n2, outcomes);
        let (_, _, sent) = carried_out(p, m, outcomes);
        assert forall|k: int| 0 <= k < subs.len() implies (sent.contains((#[trigger] subs[k]).id)
            <==> k >= i && !has_seen(subs[k], key, p.now_ms)) by {
            assert(next[k].id == subs[k].id);
            if !seen {
                assert(sent == seq![id] + c);
                if k == i {
                    assert(sent[0] == id);
                } else {
                    assert(subs[k].id != id) by {
                        if k < i {
                            assert(subs[k].id != subs[i].id);
                        } else {
                            assert(subs[i].id != subs[k].id);
                        }
                    }
                    if c.contains(subs[k].id) {
                        let w = choose|w: int| 0 <= w < c.len() && c[w] == subs[k].id;
                        assert(sent[w + 1] == subs[k].id);
                    }
                    if sent.contains(subs[k].id) {
                        let w = choose|w: int| 0 <= w < sent.len() && sent[w] == subs[k].id;
                        assert(c[w - 1] == subs[k].id);
                    }
                }
            }
        }
        assert forall|k: int| 0 <= k < subs.len() implies (a.failed.contains((#[trigger] subs[k]).id)
            <==> p.failed.contains(subs[k].id) || (k >= i && !has_seen(subs[k], key, p.now_ms)
            && outcomes(subs[k].id) is TimedOut)) by {
            assert(next[k].id == subs[k].id);
            if k < i {
                assert(subs[k].id != subs[i].id);
            } else if k > i {
                assert(subs[i].id != subs[k].id);
            }
            if !seen && o is TimedOut {
                crate::openings::graph::lemma_contains_push(p.failed, id, subs[k].id);
            }
        }
        if forall|k: int| i <= k < subs.len() ==> has_seen(#[trigger] subs[k], key, p.now_ms) {
            assert(has_seen(subs[i], key, p.now_ms));
            assert forall|k: int| i + 1 <= k < next.len() implies has_seen(
                #[trigger] next[k],
                key,
                p.now_ms,
            ) by {
                assert(has_seen(subs[k], key, p.now_ms));
            }
        }
    } else {
        assert(p.waiting.len() == 0);
    }
}

/// The server once a publication has been carried out and ended.
pub open spec fn published(
    p: PublicationModel,
    m: ServerModel,
    outcomes: spec_fn(u64) -> PushOutcome,
) -> (ServerModel, Seq<u64>, Result<(), BusFault>) {
    let (q, n, sent) = carried_out(p, m, outcomes);
    (all_taken_back(n, q, q.failed.len()), sent, verdict(q))
}

proof fn lemma_taken_back(p: PublicationModel, m: ServerModel, n: nat)
    requires
        n <= p.failed.len(),
        distinct_ids(listeners(m.topics, p.topic)),
        forall|k: int|
            0 <= k < listeners(m.topics, p.topic).len() ==> keys_once(
                (#[trigger] listeners(m.topics, p.topic)[k]).seen,
            ),
    ensures
        ({
            let key = key_of(p.header);
            let subs = listeners(m.topics, p.topic);
            let left = listeners(all_taken_back(m, p, n).topics, p.topic);
            &&& left.len() == subs.len()
            &&& all_taken_back(m, p, n).stats == m.stats
            &&& forall|k: int|
                0 <= k < subs.len() ==> #[trigger] left[k] == if p.failed.take(n as int).contains(
                    subs[k].id,
                ) {
                    SubModel { seen: without(subs[k].seen, key), ..subs[k] }
                } else {
                    subs[k]
                }
        }),
    decreases n,
{
    let key = key_of(p.header);
    let subs = listeners(m.topics, p.topic);
    if n == 0 {
        assert(p.failed.take(0) =~= Seq::empty());
    } else {
        let before = all_taken_back(m, p, (n - 1) as nat);
        let id = p.failed[n - 1];
        lemma_taken_back(p, m, (n - 1) as nat);
        let mid = listeners(before.topics, p.topic);
        let all = all_taken_back(m, p, n);
        let left = listeners(all.topics, p.topic);
        let some = p.failed.take(n as int);
        let less = p.failed.take(n - 1);
        assert(some =~= less.push(id));
        assert(distinct_ids(mid)) by {
            assert forall|a: int, b: int| 0 <= a < b < mid.len() implies (#[trigger] mid[a]).id != (
            #[trigger] mid[b]).id by {
                assert(subs[a].id != subs[b].id);
            }
        }
        lemma_sub_at(mid, id);
        let j = sub_at(mid, id);
        if j < mid.len() {
            let freed = SubModel { seen: without(mid[j].seen, key), ..mid[j] };
            lemma_topic_at(before.topics, p.topic);
            lemma_relisted(before.topics, p.topic, mid.update(j, freed), p.topic);
            assert(left == mid.update(j, freed));
        }
        assert forall|k: int| 0 <= k < subs.len() implies #[trigger] left[k] == if some.contains(
            subs[k].id,
        ) {
            SubModel { seen: without(subs[k].seen, key), ..subs[k] }
        } else {
            subs[k]
        } by {
            crate::openings::graph::lemma_contains_push(less, id, subs[k].id);
            taking_back_frees_the_key(subs[k].seen, key);
            assert(mid[k].id == subs[k].id);
            if j < mid.len() && k != j {
                assert(mid[k].id != id) by {
                    if k < j {
                        assert(mid[k].id != mid[j].id);
                    } else {
                        assert(mid[j].id != mid[k].id);
                    }
                }
            }
        }
    }
}

/// Whether the subscribers of a topic are in order: no two have the same number, each is older than
/// the next number, and each has room for something and holds no key twice.
pub open spec fn listed_well(subs: Seq<SubModel>, next_id: u64) -> bool {
    &&& distinct_ids(subs)
    &&& forall|k: int|
        0 <= k < subs.len() ==> (#[trigger] subs[k]).id < next_id && subs[k].capacity > 0
            && keys_once(subs[k].seen)
}

/// Whether the subscribers of all topics are in order.
pub open spec fn in_order(m: ServerModel) -> bool {
    forall|i: int| 0 <= i < m.topics.len() ==> listed_well((#[trigger] m.topics[i]).1, m.next_id)
}

proof fn lemma_listeners_well(m: ServerModel, topic: Seq<char>)
    requires
        in_order(m),
    ensures
        listed_well(listeners(m.topics, topic), m.next_id),
{
    lemma_topic_at(m.topics, topic);
}

proof fn lemma_relisted_well(m: ServerModel, topic: Seq<char>, s: Seq<SubModel>)
    requires
        in_order(m),
        listed_well(s, m.next_id),
    ensures
        in_order(ServerModel { topics: with_listeners(m.topics, topic, s), ..m }),
{
    let t = with_listeners(m.topics, topic, s);
    let at = topic_at(m.topics, topic);
    lemma_topic_at(m.topics, topic);
    assert forall|i: int| 0 <= i < t.len() implies listed_well((#[trigger] t[i]).1, m.next_id) by {
        if at < m.topics.len() && s.len() == 0 {
            let from = if i < at {
                i
            } else {
                i + 1
            };
            assert(t[i] == m.topics[from]);
        } else if i != at {
            assert(t[i] == m.topics[i]);
        }
    }
}

proof fn lemma_others(s: Seq<SubModel>, id: u64)
    ensures
        others(s, id).len() <= s.len(),
        forall|i: int|
            0 <= i < others(s, id).len() ==> exists|k: int|
                i <= k < s.len() && #[trigger] s[k] == #[trigger] others(s, id)[i],
        distinct_ids(s) ==> distinct_ids(others(s, id)),
    decreases s.len(),
{
    if s.len() > 0 {
        let t = s.drop_last();
        lemma_others(t, id);
        let o = others(t, id);
        let r = others(s, id);
        assert forall|i: int| 0 <= i < r.len() implies exists|k: int|
            i <= k < s.len() && #[trigger] s[k] == #[trigger] r[i] by {
            if i < o.len() {
                let k = choose|k: int| i <= k < t.len() && #[trigger] t[k] == o[i];
                assert(s[k] == r[i]);
            } else {
                assert(s[s.len() - 1] == r[i]);
            }
        }
        if distinct_ids(s) {
            assert(distinct_ids(t)) by {
                assert forall|a: int, b: int| 0 <= a < b < t.len() implies (#[trigger] t[a]).id != (
                #[trigger] t[b]).id by {
                    assert(s[a].id != s[b].id);
                }
            }
            assert forall|a: int, b: int| 0 <= a < b < r.len() implies (#[trigger] r[a]).id != (
            #[trigger] r[b]).id by {
                if b < o.len() {
                    assert(o[a].id != o[b].id);
                } else {
                    let k = choose|k: int| a <= k < t.len() && #[trigger] t[k] == o[a];
                    assert(s[k].id != s[s.len() - 1].id);
                }
            }
        }
    }
}

/// Whatever happens on a server leaves its subscribers in order.
pub proof fn servers_stay_in_order(
    c: BusConfig,
    m: ServerModel,
    topic: Seq<char>,
    id: u64,
    h: Header,
    publisher: PublisherKind,
    outcome: PushOutcome,
    now: u64,
)
    requires
        in_order(m),
    ensures
        in_order(admission(c, m, topic, h, publisher, now).0),
        in_order(turn_of(m, topic, id, key_of(h), now).0),
        in_order(departed(m, topic, id)),
        in_order(pushed(m, topic, id, outcome)),
        in_order(taken_back(m, topic, id, key_of(h))),
        in_order(noticed(m, now)),
        in_order(after_notice(m, id, outcome)),
{
    lemma_departed_well(m, topic, id);
    lemma_departed_well(m, drop_topic_text(), id);
    let key = key_of(h);
    let subs = listeners(m.topics, topic);
    lemma_listeners_well(m, topic);
    lemma_sub_at(subs, id);
    let j = sub_at(subs, id);
    if j < subs.len() {
        let s = subs[j];
        lemma_reserved_once(s.seen, s.capacity, s.max_age, key, now);
        taking_back_frees_the_key(s.seen, key);
        lemma_changed_well(m, topic, j, reserved(s.seen, s.capacity, s.max_age, key, now));
        lemma_changed_well(m, topic, j, without(s.seen, key));
        let n = turn_of(m, topic, id, key, now).0;
        let changed = ServerModel { stats: m.stats, ..n };
        assert(in_order(changed));
        assert forall|i: int| 0 <= i < n.topics.len() implies listed_well(
            (#[trigger] n.topics[i]).1,
            n.next_id,
        ) by {
            assert(listed_well(changed.topics[i].1, changed.next_id));
        }
    }
}

proof fn lemma_departed_well(m: ServerModel, topic: Seq<char>, id: u64)
    requires
        in_order(m),
    ensures
        in_order(departed(m, topic, id)),
{
    let subs = listeners(m.topics, topic);
    let left = others(subs, id);
    lemma_listeners_well(m, topic);
    lemma_others(subs, id);
    assert(listed_well(left, m.next_id)) by {
        assert forall|k: int| 0 <= k < left.len() implies (#[trigger] left[k]).id < m.next_id
            && left[k].capacity > 0 && keys_once(left[k].seen) by {
            let w = choose|w: int| k <= w < subs.len() && #[trigger] subs[w] == left[k];
            assert(subs[w].id < m.next_id);
        }
    }
    lemma_relisted_well(m, topic, left);
}

proof fn lemma_changed_well(m: ServerModel, topic: Seq<char>, j: int, seen: Entries)
    requires
        in_order(m),
        0 <= j < listeners(m.topics, topic).len(),
        keys_once(seen),
    ensures
        ({
            let subs = listeners(m.topics, topic);
            in_order(
                ServerModel {
                    topics: with_listeners(
                        m.topics,
                        topic,
                        subs.update(j, SubModel { seen, ..subs[j] }),
                    ),
                    ..m
                },
            )
        }),
{
    let subs = listeners(m.topics, topic);
    let next = subs.update(j, SubModel { seen, ..subs[j] });
    lemma_listeners_well(m, topic);
    assert(listed_well(next, m.next_id)) by {
        assert forall|a: int, b: int| 0 <= a < b < next.len() implies (#[trigger] next[a]).id != (
        #[trigger] next[b]).id by {
            assert(subs[a].id != subs[b].id);
        }
        assert forall|k: int| 0 <= k < next.len() implies (#[trigger] next[k]).id < m.next_id
            && next[k].capacity > 0 && keys_once(next[k].seen) by {
            assert(subs[k].id < m.next_id);
        }
    }
    lemma_relisted_well(m, topic, next);
}

/// Whoever comes to a server is put in order, as long as there are numbers left.
pub proof fn newcomers_are_in_order(c: BusConfig, m: ServerModel, topic: Seq<char>)
    requires
        in_order(m),
        m.next_id < u64::MAX,
    ensures
        in_order(
            ServerModel {
                topics: with_listeners(
                    m.topics,
                    topic,
                    listeners(m.topics, topic).push(newcomer(c, m.next_id)),
                ),
                next_id: counted(m.next_id),
                ..m
            },
        ),
{
    let subs = listeners(m.topics, topic);
    let all = subs.push(newcomer(c, m.next_id));
    let later = ServerModel { next_id: counted(m.next_id), ..m };
    lemma_listeners_well(m, topic);
    assert(in_order(later)) by {
        assert forall|i: int| 0 <= i < later.topics.len() implies listed_well(
            (#[trigger] later.topics[i]).1,
            later.next_id,
        ) by {
            assert(listed_well(m.topics[i].1, m.next_id));
        }
    }
    assert(listed_well(all, later.next_id)) by {
        assert forall|a: int, b: int| 0 <= a < b < all.len() implies (#[trigger] all[a]).id != (
        #[trigger] all[b]).id by {
            assert(all[a] == subs[a]);
            if b < subs.len() {
                assert(subs[a].id != subs[b].id);
            }
        }
    }
    lemma_relisted_well(later, topic, all);
}

/// A message whose subscribers have all seen it is pushed to nobody: the publication ends well, and
/// one duplicate is counted for each of them.
pub proof fn seen_messages_are_not_pushed(
    p: PublicationModel,
    m: ServerModel,
    outcomes: spec_fn(u64) -> PushOutcome,
)
    requires
        p.waiting == sub_ids(listeners(m.topics, p.topic)),
        p.failed.len() == 0,
        p.primary is None,
        in_order(m),
        forall|id: u64| #[trigger] outcomes(id) !is ChannelClosed,
        forall|k: int|
            0 <= k < listeners(m.topics, p.topic).len() ==> has_seen(
                #[trigger] listeners(m.topics, p.topic)[k],
                key_of(p.header),
                p.now_ms,
            ),
    ensures
        published(p, m, outcomes).1.len() == 0,
        published(p, m, outcomes).2 is Ok,
        published(p, m, outcomes).0.stats == with_drops(
            m.stats,
            DropReason::Duplicate,
            listeners(m.topics, p.topic).len(),
        ),
{
    let subs = listeners(m.topics, p.topic);
    lemma_listeners_well(m, p.topic);
    assert(sub_ids(subs).skip(0) =~= sub_ids(subs));
    lemma_carried_out(p, m, outcomes, 0, p.topic + seq!['x']);
}

/// A message that comes again before its time is over reaches just those who missed it: whoever got
/// it the first time gets no second copy, and whoever timed out gets it. This holds of each topic
/// and each subscriber by itself.
pub proof fn repeats_reach_those_who_missed(
    p: PublicationModel,
    m: ServerModel,
    first: spec_fn(u64) -> PushOutcome,
    again: PublicationModel,
    second: spec_fn(u64) -> PushOutcome,
    k: int,
)
    requires
        p.waiting == sub_ids(listeners(m.topics, p.topic)),
        p.failed.len() == 0,
        in_order(m),
        forall|id: u64| #[trigger] first(id) !is ChannelClosed,
        forall|id: u64| #[trigger] second(id) !is ChannelClosed,
        forall|j: int|
            0 <= j < listeners(m.topics, p.topic).len() ==> {
                let s = #[trigger] listeners(m.topics, p.topic)[j];
                !has_seen(s, key_of(p.header), p.now_ms) && age(again.now_ms, p.now_ms) <= s.max_age
            },
        again.topic == p.topic,
        again.header == p.header,
        again.waiting == p.waiting,
        0 <= k < listeners(m.topics, p.topic).len(),
    ensures
        published(p, m, first).1.contains(listeners(m.topics, p.topic)[k].id),
        published(again, published(p, m, first).0, second).1.contains(
            listeners(m.topics, p.topic)[k].id,
        ) <==> first(listeners(m.topics, p.topic)[k].id) is TimedOut,
{
    let topic = p.topic;
    let key = key_of(p.header);
    let subs = listeners(m.topics, topic);
    lemma_listeners_well(m, topic);
    assert(sub_ids(subs).skip(0) =~= sub_ids(subs));
    lemma_carried_out(p, m, first, 0, topic + seq!['x']);
    let (q, n, sent) = carried_out(p, m, first);
    let mid = listeners(n.topics, topic);
    assert forall|j: int| 0 <= j < mid.len() implies keys_once((#[trigger] mid[j]).seen) by {
        let s = subs[j];
        assert(mid[j] == asked(s, key, p.now_ms));
        lemma_reserved_once(s.seen, s.capacity, s.max_age, key, p.now_ms);
    }
    assert(distinct_ids(mid)) by {
        assert forall|a: int, b: int| 0 <= a < b < mid.len() implies (#[trigger] mid[a]).id != (
        #[trigger] mid[b]).id by {
            assert(subs[a].id != subs[b].id);
        }
    }
    lemma_taken_back(q, n, q.failed.len());
    assert(q.failed.take(q.failed.len() as int) =~= q.failed);
    let m2 = published(p, m, first).0;
    let left = listeners(m2.topics, topic);
    assert(distinct_ids(left)) by {
        assert forall|a: int, b: int| 0 <= a < b < left.len() implies (#[trigger] left[a]).id != (
        #[trigger] left[b]).id by {
            assert(mid[a].id != mid[b].id);
        }
    }
    assert(sub_ids(left).skip(0) =~= again.waiting) by {
        assert forall|j: int| 0 <= j < left.len() implies (#[trigger] left[j]).id == subs[j].id by {
            assert(mid[j].id == subs[j].id);
        }
    }
    lemma_carried_out(again, m2, second, 0, topic + seq!['x']);
    let s = subs[k];
    assert(left[k].id == s.id);
    assert(mid[k] == asked(s, key, p.now_ms));
    if first(s.id) is TimedOut {
        assert(q.failed.contains(subs[k].id));
        lemma_reserved_once(s.seen, s.capacity, s.max_age, key, p.now_ms);
        retries_are_no_duplicates(s.seen, s.capacity, s.max_age, key, p.now_ms, again.now_ms);
    } else {
        assert(!q.failed.contains(subs[k].id));
        repeats_are_duplicates(s.seen, s.capacity, s.max_age, key, p.now_ms, again.now_ms);
    }
}

/// Whoever has just come has seen nothing: every message gets its turn there.
pub proof fn newcomers_have_seen_nothing(c: BusConfig, id: u64, key: (u128, u64), now: u64)
    ensures
        !has_seen(newcomer(c, id), key, now),
{
    lemma_not_held(newcomer(c, id).seen, key);
}

} // verus!
