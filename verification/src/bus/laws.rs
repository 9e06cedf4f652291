//! What the bus promises: who gets a message, who does not, what is counted.

use crate::bus::dedupe::{age, pruned, Entries};
use crate::bus::message::{expiry, mapped, message_header, BusFault, Header, RmpError};
use crate::bus::server::{
    admission, after_push, all_taken_back, backend_of, delivery, departed, failure_error,
    has_seen, key_of, lemma_relisted, lemma_sub_at, lemma_topic_at, listeners, may_decide, newcomer,
    notice_due, opens_window, others, pushed, sub_at, taken_back, topic_at, turn_of, with_drop,
    with_listeners, worse, Backend, BusConfig, BusStats, Delivery, DropReason, FailureSeverity,
    NOTICES_PER_WINDOW, PublicationModel, PublisherKind, PushOutcome, ServerModel, SubModel, TopicsModel,
    Turn,
};
use crate::content::CT_ACTION_DECISION;
use vstd::prelude::*;

verus! {

/// A message lives for its time from its making on; it must live for some time, and its end must be
/// a time.
pub proof fn messages_live_for_their_time(h: Header)
    ensures
        expiry(h) is Ok <==> h.ttl_ms > 0 && h.created_at_ms + h.ttl_ms <= u64::MAX,
        expiry(h) matches Ok(end) ==> end == h.created_at_ms + h.ttl_ms,
        h.ttl_ms == 0 ==> expiry(h) == Err::<u64, BusFault>(BusFault::InvalidTtl(0)),
        h.ttl_ms > 0 && h.created_at_ms + h.ttl_ms > u64::MAX ==> expiry(h) == Err::<u64, BusFault>(
            BusFault::InvalidExpiry(h.created_at_ms, h.ttl_ms),
        ),
{
}

/// A message has the length of its body in its header, and keeps all else; a header that tells
/// another length is refused.
pub proof fn headers_tell_the_length(h: Header, len: usize)
    requires
        len <= u32::MAX,
    ensures
        message_header(h, len) matches Ok(full) ==> full == (Header { body_len: len as u32, ..h }),
        h.body_len != 0 && h.body_len != len ==> message_header(h, len) == Err::<Header, BusFault>(
            BusFault::BodyLengthMismatch(h.body_len, len),
        ),
        (h.body_len == 0 || h.body_len == len) && expiry(h) is Ok ==> message_header(h, len) is Ok,
{
}

/// A message that is alive, from someone who may publish it, goes to everyone who listens to its
/// topic, and is counted once.
pub proof fn living_messages_go_to_all_listeners(
    c: BusConfig,
    m: ServerModel,
    topic: Seq<char>,
    h: Header,
    publisher: PublisherKind,
    now: u64,
)
    requires
        !m.closed,
        h.schema_id != CT_ACTION_DECISION || (publisher is Ui && c.allow_action_decision_ui) || (
        publisher is Tui && c.allow_action_decision_tui),
        h.ttl_ms > 0,
        now < h.created_at_ms + h.ttl_ms <= u64::MAX,
    ensures
        ({
            let (n, r) = admission(c, m, topic, h, publisher, now);
            let subs = listeners(m.topics, topic);
            &&& r matches Ok(ids) && ids.len() == subs.len() && forall|i: int|
                0 <= i < ids.len() ==> #[trigger] ids[i] == subs[i].id
            &&& n.topics == m.topics
            &&& m.stats.published < u64::MAX ==> n.stats.published == m.stats.published + 1
            &&& n.stats.drops_ttl == m.stats.drops_ttl && n.stats.delivered == m.stats.delivered
                && n.stats.drops_duplicate == m.stats.drops_duplicate && n.stats.drops_backpressure
                == m.stats.drops_backpressure
        }),
{
}

/// A message that has reached its end is counted as lost for that.
pub proof fn late_messages_are_counted(
    c: BusConfig,
    m: ServerModel,
    topic: Seq<char>,
    h: Header,
    publisher: PublisherKind,
    now: u64,
)
    requires
        !m.closed,
        h.schema_id != CT_ACTION_DECISION,
        h.ttl_ms > 0,
        h.created_at_ms + h.ttl_ms <= u64::MAX,
        now >= h.created_at_ms + h.ttl_ms,
        m.stats.drops_ttl < u64::MAX,
    ensures
        admission(c, m, topic, h, publisher, now).1 == Err::<Seq<u64>, BusFault>(
            BusFault::MessageExpired,
        ),
        admission(c, m, topic, h, publisher, now).0.stats.drops_ttl == m.stats.drops_ttl + 1,
        admission(c, m, topic, h, publisher, now).0.stats.published == m.stats.published,
{
}

/// A screen that may not decide is refused as an agent is, and nothing is counted.
pub proof fn unallowed_screens_decide_nothing(
    c: BusConfig,
    m: ServerModel,
    topic: Seq<char>,
    h: Header,
    publisher: PublisherKind,
    now: u64,
)
    requires
        !m.closed,
        h.schema_id == CT_ACTION_DECISION,
        publisher is Ui ==> !c.allow_action_decision_ui,
        publisher is Tui ==> !c.allow_action_decision_tui,
    ensures
        admission(c, m, topic, h, publisher, now).0 == m,
        admission(c, m, topic, h, publisher, now).1 matches Err(f) && f is Forbidden,
{
}

/// Whether no two topics have one name.
pub open spec fn topics_once(t: TopicsModel) -> bool {
    forall|i: int, j: int| 0 <= i < j < t.len() ==> (#[trigger] t[i]).0 != (#[trigger] t[j]).0
}

/// A new subscriber listens to its topic from then on, behind those who listen already; the other
/// topics keep their listeners.
pub proof fn newcomers_listen_to_their_topic(
    c: BusConfig,
    m: ServerModel,
    topic: Seq<char>,
    other: Seq<char>,
)
    requires
        topics_once(m.topics),
    ensures
        ({
            let subs = listeners(m.topics, topic);
            let t = with_listeners(m.topics, topic, subs.push(newcomer(c, m.next_id)));
            &&& listeners(t, topic).len() == subs.len() + 1
            &&& listeners(t, topic).last().id == m.next_id
            &&& listeners(t, topic).drop_last() == subs
            &&& other != topic ==> listeners(t, other) == listeners(m.topics, other)
            &&& topics_once(t)
        }),
{
    let subs = listeners(m.topics, topic);
    let all = subs.push(newcomer(c, m.next_id));
    let t = with_listeners(m.topics, topic, all);
    let at = topic_at(m.topics, topic);
    lemma_topic_at(m.topics, topic);
    assert(all.drop_last() =~= subs);
    if at < m.topics.len() {
        lemma_relisted(m.topics, topic, all, other);
        assert(topics_once(t)) by {
            assert forall|i: int, j: int| 0 <= i < j < t.len() implies (#[trigger] t[i]).0 != (
            #[trigger] t[j]).0 by {
                assert(m.topics[i].0 == t[i].0 && m.topics[j].0 == t[j].0);
            }
        }
    } else {
        lemma_topic_at(t, topic);
        let k = topic_at(t, topic);
        if k < m.topics.len() {
            assert(t[k] == m.topics[k]);
        }
        assert(t[m.topics.len() as int].0 == topic);
        assert(k == m.topics.len());
        if other != topic {
            lemma_topic_at(m.topics, other);
            lemma_topic_at(t, other);
            let a = topic_at(m.topics, other);
            let b = topic_at(t, other);
            if a < m.topics.len() {
                assert(t[a].0 == other);
                if b < a {
                    assert(m.topics[b].0 == other);
                }
            } else if b < t.len() {
                if b < m.topics.len() {
                    assert(m.topics[b].0 == other);
                }
            }
        }
        assert(topics_once(t)) by {
            assert forall|i: int, j: int| 0 <= i < j < t.len() implies (#[trigger] t[i]).0 != (
            #[trigger] t[j]).0 by {
                assert(m.topics[i].0 == t[i].0);
                if j < m.topics.len() {
                    assert(m.topics[j].0 == t[j].0);
                }
            }
        }
    }
}

proof fn lemma_others(s: Seq<SubModel>, id: u64, i: int)
    ensures
        forall|k: int| 0 <= k < others(s, id).len() ==> (#[trigger] others(s, id)[k]).id != id,
        0 <= i < s.len() && s[i].id != id ==> others(s, id).contains(s[i]),
        forall|k: int| 0 <= k < others(s, id).len() ==> s.contains(#[trigger] others(s, id)[k]),
    decreases s.len(),
{
    if s.len() > 0 {
        let rest = s.drop_last();
        lemma_others(rest, id, i);
        let kept = others(rest, id);
        let all = others(s, id);
        if 0 <= i < s.len() && s[i].id != id {
            if i < rest.len() {
                assert(rest[i] == s[i]);
                let k = choose|k: int| 0 <= k < kept.len() && kept[k] == s[i];
                assert(all[k] == s[i]);
            } else {
                assert(all[kept.len() as int] == s[i]);
            }
        }
        assert forall|k: int| 0 <= k < all.len() implies s.contains(#[trigger] all[k]) && all[k].id != id by {
            if k < kept.len() {
                assert(all[k] == kept[k]);
                let j = choose|j: int| 0 <= j < rest.len() && rest[j] == kept[k];
                assert(s[j] == all[k]);
            } else {
                assert(s[s.len() - 1] == all[k]);
            }
        }
    }
}

/// A subscriber that has left is given nothing more; all others on the topic stay, and so do the
/// other topics.
pub proof fn leavers_are_given_nothing(
    m: ServerModel,
    topic: Seq<char>,
    id: u64,
    i: int,
    other: Seq<char>,
)
    requires
        topics_once(m.topics),
    ensures
        ({
            let before = listeners(m.topics, topic);
            let now = listeners(departed(m, topic, id).topics, topic);
            &&& forall|k: int| 0 <= k < now.len() ==> (#[trigger] now[k]).id != id && before.contains(now[k])
            &&& 0 <= i < before.len() && before[i].id != id ==> now.contains(before[i])
            &&& other != topic ==> listeners(departed(m, topic, id).topics, other) == listeners(
                m.topics,
                other,
            )
            &&& departed(m, topic, id).stats == m.stats
            &&& topics_once(departed(m, topic, id).topics)
        }),
{
    let before = listeners(m.topics, topic);
    let at = topic_at(m.topics, topic);
    lemma_topic_at(m.topics, topic);
    lemma_others(before, id, i);
    if at < m.topics.len() {
        let left = others(before, id);
        let t = departed(m, topic, id).topics;
        if left.len() > 0 {
            lemma_relisted(m.topics, topic, left, other);
            assert forall|a: int, b: int| 0 <= a < b < t.len() implies (#[trigger] t[a]).0 != (
            #[trigger] t[b]).0 by {
                assert(m.topics[a].0 == t[a].0 && m.topics[b].0 == t[b].0);
            }
        } else {
            lemma_topic_at(t, topic);
            let k = topic_at(t, topic);
            if k < t.len() {
                let from = if k < at {
                    k
                } else {
                    k + 1
                };
                assert(t[k] == m.topics[from]);
                assert(m.topics[from].0 == m.topics[at].0);
            }
            assert forall|a: int, b: int| 0 <= a < b < t.len() implies (#[trigger] t[a]).0 != (
            #[trigger] t[b]).0 by {
                let x = if a < at {
                    a
                } else {
                    a + 1
                };
                let y = if b < at {
                    b
                } else {
                    b + 1
                };
                assert(t[a] == m.topics[x] && t[b] == m.topics[y]);
            }
            if other != topic {
                lemma_topic_at(m.topics, other);
                lemma_topic_at(t, other);
                let a = topic_at(m.topics, other);
                let b = topic_at(t, other);
                if a < m.topics.len() {
                    let to = if a < at {
                        a
                    } else {
                        a - 1
                    };
                    assert(t[to] == m.topics[a]);
                    if b < to {
                        assert(t[b].0 == t[to].0);
                    }
                } else if b < t.len() {
                    let from = if b < at {
                        b
                    } else {
                        b + 1
                    };
                    assert(t[b] == m.topics[from]);
                }
            }
        }
    }
}

/// A message is pushed to a subscriber that has not seen it of late, and told of as a duplicate to
/// one that has; one that is not there has left.
pub proof fn messages_are_pushed_once(
    m: ServerModel,
    topic: Seq<char>,
    id: u64,
    key: (u128, u64),
    now: u64,
    i: int,
)
    requires
        0 <= i < listeners(m.topics, topic).len(),
        listeners(m.topics, topic)[i].id == id,
        forall|j: int| 0 <= j < i ==> (#[trigger] listeners(m.topics, topic)[j]).id != id,
    ensures
        ({
            let s = listeners(m.topics, topic)[i];
            let (n, turn) = turn_of(m, topic, id, key, now);
            &&& has_seen(s, key, now) ==> turn == Turn::Duplicate && (m.stats.drops_duplicate < u64::MAX
                ==> n.stats.drops_duplicate == m.stats.drops_duplicate + 1)
            &&& !has_seen(s, key, now) ==> turn == Turn::Push && n.stats == m.stats
        }),
{
    let subs = listeners(m.topics, topic);
    lemma_sub_at(subs, id);
    let j = sub_at(subs, id);
    if j < i {
        assert(subs[j].id != id);
    }
}

/// A subscriber that is not on a topic has no turn there, and nothing changes.
pub proof fn strangers_have_no_turn(
    m: ServerModel,
    topic: Seq<char>,
    id: u64,
    key: (u128, u64),
    now: u64,
)
    requires
        forall|j: int|
            0 <= j < listeners(m.topics, topic).len() ==> (#[trigger] listeners(m.topics, topic)[j]).id != id,
    ensures
        turn_of(m, topic, id, key, now) == (m, Turn::Gone),
{
    lemma_sub_at(listeners(m.topics, topic), id);
}

/// What a push came to is counted: what was sent as delivered, and what took too long as lost. A
/// closed channel counts as nothing, and its subscriber leaves.
pub proof fn pushes_are_counted(m: ServerModel, topic: Seq<char>, id: u64)
    ensures
        ({
            let sent = pushed(m, topic, id, PushOutcome::Sent);
            let late = pushed(m, topic, id, PushOutcome::TimedOut);
            let closed = pushed(m, topic, id, PushOutcome::ChannelClosed);
            &&& m.stats.delivered < u64::MAX ==> sent.stats.delivered == m.stats.delivered + 1
            &&& sent.topics == m.topics && sent.stats.drops_backpressure == m.stats.drops_backpressure
                && sent.stats.published == m.stats.published
            &&& m.stats.drops_backpressure < u64::MAX ==> late.stats.drops_backpressure
                == m.stats.drops_backpressure + 1
            &&& late.topics == m.topics && late.stats.delivered == m.stats.delivered
            &&& closed.stats == m.stats && closed == departed(m, topic, id)
        }),
{
}

/// A publication takes its subscribers in the order in which they wait, and is done when nobody is
/// left.
pub proof fn subscribers_are_taken_in_order(p: PublicationModel, m: ServerModel)
    ensures
        p.waiting.len() == 0 ==> delivery(p, m) == (p, m, Delivery::Done),
        p.waiting.len() > 0 ==> {
            let (q, n, step) = delivery(p, m);
            let turn = turn_of(m, p.topic, p.waiting.first(), key_of(p.header), p.now_ms);
            &&& q.waiting == p.waiting.drop_first()
            &&& n == turn.0
            &&& turn.1 is Push ==> step == Delivery::Push(p.waiting.first()) && q.failed == p.failed
            &&& turn.1 is Duplicate ==> step == Delivery::Duplicate && q.failed == p.failed && q.primary
                == p.primary
            &&& turn.1 is Gone ==> step == Delivery::Gone(p.waiting.first()) && q.failed == p.failed.push(
                p.waiting.first(),
            ) && q.primary is Some
        },
{
    if p.waiting.len() > 0 {
        assert(p.waiting.skip(1) =~= p.waiting.drop_first());
    }
}

/// A timeout is reported with its topic, and a closed channel as a closed bus.
pub proof fn failures_tell_their_topic(topic: Seq<char>)
    ensures
        failure_error(FailureSeverity::BackpressureTimeout, topic) == BusFault::BackpressureTimeout(topic),
        failure_error(FailureSeverity::ChannelClosed, topic) == BusFault::Closed,
{
}

/// What was seen stays known for as long as it may, and is forgotten after that: an entry is dropped
/// only when it is too old.
pub proof fn only_old_entries_are_forgotten(s: Entries, now: u64, max_age: u64)
    ensures
        pruned(s, now, max_age).len() <= s.len(),
        pruned(s, now, max_age) == s.skip(s.len() - pruned(s, now, max_age).len()),
        forall|i: int|
            0 <= i < s.len() - pruned(s, now, max_age).len() ==> now - (#[trigger] s[i]).1 > max_age,
        pruned(s, now, max_age).len() > 0 ==> now - pruned(s, now, max_age)[0].1 <= max_age,
    decreases s.len(),
{
    assert(s.skip(0) =~= s);
    if s.len() > 0 && age(now, s[0].1) > max_age {
        only_old_entries_are_forgotten(s.skip(1), now, max_age);
        let r = pruned(s, now, max_age);
        assert(r =~= s.skip(s.len() - r.len()));
        assert forall|i: int| 0 <= i < s.len() - r.len() implies now - (#[trigger] s[i]).1 > max_age by {
            if i > 0 {
                assert(s.skip(1)[i - 1] == s[i]);
            }
        }
    }
}

/// A bus of this process is used as it is, by anyone; a remote one by agents only.
pub proof fn backends_are_chosen(kind: PublisherKind)
    ensures
        backend_of(Some(false), kind) == Ok::<Backend, BusFault>(Backend::Local),
        backend_of(Some(true), kind) == Err::<Backend, BusFault>(BusFault::Closed),
        kind is Agent ==> backend_of(None, kind) == Ok::<Backend, BusFault>(Backend::Remote),
        !(kind is Agent) ==> (backend_of(None, kind) matches Err(f) && f is Forbidden),
{
}

/// Taking a message back leaves the subscriber without it, and all other subscribers as they were.
pub proof fn messages_are_taken_back_from_one(
    m: ServerModel,
    topic: Seq<char>,
    id: u64,
    key: (u128, u64),
    other: Seq<char>,
)
    requires
        topics_once(m.topics),
        listeners(m.topics, topic).len() > 0,
    ensures
        ({
            let before = listeners(m.topics, topic);
            let now = listeners(taken_back(m, topic, id, key).topics, topic);
            &&& now.len() == before.len()
            &&& forall|k: int|
                0 <= k < before.len() && (#[trigger] before[k]).id != id ==> now[k] == before[k]
            &&& other != topic ==> listeners(taken_back(m, topic, id, key).topics, other) == listeners(
                m.topics,
                other,
            )
            &&& taken_back(m, topic, id, key).stats == m.stats
        }),
{
    let subs = listeners(m.topics, topic);
    let j = sub_at(subs, id);
    lemma_sub_at(subs, id);
    lemma_topic_at(m.topics, topic);
    if j < subs.len() {
        let s = subs[j];
        let after = subs.update(
            j,
            SubModel { seen: crate::bus::dedupe::without(s.seen, key), ..s },
        );
        lemma_relisted(m.topics, topic, after, other);
    }
}

/// Screens decide where they are allowed to, and agents never.
pub proof fn agents_never_decide(c: BusConfig)
    ensures
        may_decide(c, PublisherKind::Ui) == c.allow_action_decision_ui,
        may_decide(c, PublisherKind::Tui) == c.allow_action_decision_tui,
        !may_decide(c, PublisherKind::Agent),
{
}

/// A message that is dropped is counted under its reason, and under no other.
pub proof fn drops_are_counted_by_reason(s: BusStats)
    requires
        s.drops_ttl < u64::MAX,
        s.drops_duplicate < u64::MAX,
        s.drops_backpressure < u64::MAX,
    ensures
        with_drop(s, DropReason::TtlExpired) == (BusStats { drops_ttl: (s.drops_ttl + 1) as u64, ..s }),
        with_drop(s, DropReason::Duplicate) == (BusStats {
            drops_duplicate: (s.drops_duplicate + 1) as u64,
            ..s
        }),
        with_drop(s, DropReason::BackpressureTimeout) == (BusStats {
            drops_backpressure: (s.drops_backpressure + 1) as u64,
            ..s
        }),
{
}

/// Of several failures the worst is told, and the first of those that are equally bad.
pub proof fn the_worst_failure_is_told(a: (FailureSeverity, BusFault), b: (FailureSeverity, BusFault))
    ensures
        worse(None, b) == b,
        a.0 == FailureSeverity::ChannelClosed && b.0 == FailureSeverity::BackpressureTimeout ==> worse(Some(a), b)
            == b && worse(Some(b), a) == b,
        a.0 == b.0 ==> worse(Some(a), b) == a,
{
}

/// A push that went through leaves no failure; a closed channel and a timeout are told as such.
pub proof fn only_failed_pushes_are_failures(p: PublicationModel, id: u64)
    ensures
        after_push(p, id, PushOutcome::Sent) == p,
        after_push(p, id, PushOutcome::ChannelClosed).failed == p.failed.push(id),
        after_push(p, id, PushOutcome::TimedOut).failed == p.failed.push(id),
        p.primary is None ==> (after_push(p, id, PushOutcome::ChannelClosed).primary matches Some((s, _)) && s
            == FailureSeverity::ChannelClosed),
        after_push(p, id, PushOutcome::TimedOut).primary matches Some((s, _)) && s
            == FailureSeverity::BackpressureTimeout,
{
}

/// A message is taken back from each subscriber that it could not be pushed to, one after the other.
pub proof fn failed_pushes_are_taken_back(m: ServerModel, p: PublicationModel, n: nat)
    requires
        n < p.failed.len(),
    ensures
        all_taken_back(m, p, 0) == m,
        all_taken_back(m, p, n + 1) == taken_back(
            all_taken_back(m, p, n),
            p.topic,
            p.failed[n as int],
            (p.header.trace_id, p.header.msg_id),
        ),
{
}

/// Notices go out until there were enough of them in the window; a new window begins anew.
pub proof fn notices_are_limited(m: ServerModel, now: u64)
    ensures
        opens_window(m, now) ==> notice_due(m, now),
        !opens_window(m, now) ==> notice_due(m, now) == (m.window_notices < NOTICES_PER_WINDOW),
{
}

/// What is wrong with a message is told as what it is.
pub proof fn faults_of_messages_are_told(t: u64, a: u64, n: u16)
    ensures
        mapped(RmpError::InvalidTtl(t)) == BusFault::InvalidTtl(t),
        mapped(RmpError::InvalidExpiry { created_at_ms: a, ttl_ms: t }) == BusFault::InvalidExpiry(a, t),
        mapped(RmpError::UnknownSchema(n)) == BusFault::UnknownSchema(n),
{
}

} // verus!
