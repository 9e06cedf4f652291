use runloop::bus::dedupe::DedupeCache;
use runloop::bus::ipc::{frame, payload_len, Client, IpcCommand, Session, SessionStep, MAX_FRAME_LEN};
use runloop::bus::message::{map_rmp_error, BusError, Header, Message, RmpError, HEADER_LEN, MAX_BODY_LEN};
use runloop::bus::server::{
    choose_backend, direct_topic, drop_notice, drop_topic, update_primary_error, Backend, BusConfig, Delivery,
    DropReason, FailureSeverity, Publication, PublisherKind, PushOutcome, Server,
};
use runloop::content::{CT_ACTION_DECISION, CT_BUS_DROP_NOTICE, CT_TRACE_LINE};
use runloop::ids::AgentId;
use std::collections::{HashMap, VecDeque};

const NOW: u64 = 1_000_000;

fn test_message(seq: u64) -> Message {
    let header = Header {
        schema_id: CT_TRACE_LINE,
        created_at_ms: NOW,
        ttl_ms: 1_000,
        trace_id: 1,
        msg_id: seq,
        ..Header::default()
    };
    Message::new(header, b"{}".to_vec()).expect("message")
}

struct Hub {
    server: Server,
    queues: HashMap<u64, VecDeque<Header>>,
}

impl Hub {
    fn new() -> Self {
        Hub { server: Server::new(BusConfig::default()), queues: HashMap::new() }
    }

    fn subscribe(&mut self, topic: &str) -> u64 {
        let id = self.server.subscribe(topic).expect("subscribe");
        self.queues.insert(id, VecDeque::new());
        id
    }

    fn push(&mut self, id: u64, header: Header) -> PushOutcome {
        let room = self.server.config().queue_capacity;
        match self.queues.get_mut(&id) {
            None => PushOutcome::ChannelClosed,
            Some(q) if q.len() < room => {
                q.push_back(header);
                PushOutcome::Sent
            }
            Some(_) => PushOutcome::TimedOut,
        }
    }

    fn notify(&mut self, lost: &Header) {
        let targets = self.server.notice_targets(NOW);
        if targets.is_empty() {
            return;
        }
        let header = self.server.drop_header(lost, NOW);
        for id in targets {
            let outcome = self.push(id, header);
            self.server.notice_ended(id, outcome);
        }
    }

    fn publish(&mut self, kind: PublisherKind, topic: &str, message: &Message) -> Result<(), BusError> {
        let waiting = match self.server.accept(topic, &message.header, kind, NOW) {
            Ok(w) => w,
            Err(e) => {
                if matches!(e, BusError::MessageExpired) {
                    self.notify(&message.header);
                }
                return Err(e);
            }
        };
        let mut p = Publication::new(topic, message.header, NOW, waiting);
        loop {
            match p.deliver(&mut self.server) {
                Delivery::Push(id) => {
                    let outcome = self.push(id, message.header);
                    p.pushed(&mut self.server, id, outcome);
                    if matches!(outcome, PushOutcome::TimedOut) {
                        self.notify(&message.header);
                    }
                }
                Delivery::Duplicate | Delivery::Gone(_) => {}
                Delivery::Done => break,
            }
        }
        p.finish(&mut self.server)
    }

    fn next(&mut self, id: u64) -> Option<Header> {
        self.queues.get_mut(&id).and_then(|q| q.pop_front())
    }
}

#[test]
fn messages_arrive_in_order() {
    let mut hub = Hub::new();
    let sub = hub.subscribe("test/topic");
    for seq in 0..1_200u64 {
        hub.publish(PublisherKind::Agent, "test/topic", &test_message(seq)).unwrap();
        assert_eq!(hub.next(sub).expect("message").msg_id, seq);
    }
    assert_eq!(hub.server.stats().delivered, 1_200);
    assert_eq!(hub.server.stats().published, 1_200);
}

#[test]
fn ttl_enforced_and_notified() {
    let mut hub = Hub::new();
    let drops = hub.subscribe(drop_topic());
    let header = Header {
        schema_id: CT_TRACE_LINE,
        created_at_ms: NOW - 2_000,
        ttl_ms: 1,
        trace_id: 9,
        msg_id: 1,
        ..Header::default()
    };
    let msg = Message::new(header, b"{}".to_vec()).unwrap();
    let res = hub.publish(PublisherKind::Agent, "ttl/topic", &msg);
    assert!(matches!(res, Err(BusError::MessageExpired)));
    let notice = hub.next(drops).expect("drop notice");
    assert_eq!(notice.schema_id, CT_BUS_DROP_NOTICE);
    let payload = drop_notice("ttl/topic", &header, DropReason::TtlExpired, NOW);
    assert_eq!(payload.v, 1);
    assert!(matches!(payload.reason, DropReason::TtlExpired));
    assert_eq!(payload.expires_at_ms, Some(NOW - 1_999));
    assert_eq!(hub.server.stats().drops_ttl, 1);
}

#[test]
fn zero_ttl_is_rejected() {
    let header = Header {
        schema_id: CT_TRACE_LINE,
        created_at_ms: NOW,
        ttl_ms: 0,
        trace_id: 42,
        msg_id: 123,
        ..Header::default()
    };
    let message = Message::new(header, b"{}".to_vec()).unwrap_err();
    assert!(matches!(message, BusError::InvalidTtl(0)));
}

#[test]
fn duplicates_dropped() {
    let mut hub = Hub::new();
    let sub = hub.subscribe("dup/topic");
    let msg = test_message(10);
    hub.publish(PublisherKind::Agent, "dup/topic", &msg).unwrap();
    hub.publish(PublisherKind::Agent, "dup/topic", &msg).unwrap();
    assert!(hub.next(sub).is_some());
    assert!(hub.next(sub).is_none());
    assert_eq!(hub.server.stats().drops_duplicate, 1);
}

#[test]
fn backpressure_times_out_and_notifies() {
    let mut hub = Hub::new();
    let drops = hub.subscribe(drop_topic());
    let _slow = hub.subscribe("bp/topic");
    let mut timed_out = false;
    for seq in 0..2_048u64 {
        match hub.publish(PublisherKind::Agent, "bp/topic", &test_message(seq)) {
            Ok(()) => continue,
            Err(BusError::BackpressureTimeout { .. }) => {
                timed_out = true;
                break;
            }
            Err(err) => panic!("unexpected error: {err:?}"),
        }
    }
    assert!(timed_out, "expected a backpressure timeout");
    assert_eq!(hub.next(drops).expect("drop message").schema_id, CT_BUS_DROP_NOTICE);
    assert!(hub.server.stats().drops_backpressure >= 1);
}

#[test]
fn direct_send_delivers() {
    let mut hub = Hub::new();
    let agent = AgentId::new();
    let topic = direct_topic(&agent);
    let inbox = hub.subscribe(&topic);
    hub.publish(PublisherKind::Agent, &topic, &test_message(99)).unwrap();
    let msg = hub.next(inbox).expect("direct message");
    assert_eq!(msg.msg_id, 99);
    assert_eq!(msg.trace_id, 1);
}

#[test]
fn retry_after_backpressure_succeeds() {
    let mut hub = Hub::new();
    let drops = hub.subscribe(drop_topic());
    let slow = hub.subscribe("bp/retry");
    let mut failed_message = None;
    for seq in 0..5_000u64 {
        let msg = test_message(seq + 10_000);
        match hub.publish(PublisherKind::Agent, "bp/retry", &msg) {
            Ok(()) => continue,
            Err(BusError::BackpressureTimeout { .. }) => {
                failed_message = Some(msg);
                break;
            }
            Err(err) => panic!("unexpected error: {err:?}"),
        }
    }
    let retry_msg = failed_message.expect("expected a publish timeout");
    hub.server.remove_subscriber("bp/retry", slow);
    hub.queues.remove(&slow);
    let inbox = hub.subscribe("bp/retry");
    hub.publish(PublisherKind::Agent, "bp/retry", &retry_msg).unwrap();
    assert_eq!(hub.next(inbox).expect("message delivered").msg_id, retry_msg.header.msg_id);
    assert_eq!(hub.next(drops).expect("drop notice").schema_id, CT_BUS_DROP_NOTICE);
}

#[test]
fn close_shuts_down_subscribers() {
    let mut hub = Hub::new();
    let _sub = hub.subscribe("close/topic");
    assert!(hub.server.shutdown());
    assert!(hub.server.is_closed());
    assert!(!hub.server.shutdown());
    assert!(matches!(hub.server.subscribe("close/topic"), Err(BusError::Closed)));
    let res = hub.publish(PublisherKind::Agent, "close/topic", &test_message(1));
    assert!(matches!(res, Err(BusError::Closed)));
}

fn decision(msg_id: u64) -> Message {
    let header = Header {
        schema_id: CT_ACTION_DECISION,
        created_at_ms: NOW,
        ttl_ms: 5_000,
        trace_id: 0xabc,
        msg_id,
        ..Header::default()
    };
    Message::new(header, b"{}".to_vec()).expect("message")
}

#[test]
fn action_decision_acl_rejects_agent_and_allows_ui() {
    let mut hub = Hub::new();
    let res = hub.publish(PublisherKind::Agent, "actions/decision", &decision(1));
    assert!(matches!(res, Err(BusError::Forbidden(_))));
    let inbox = hub.subscribe("actions/decision");
    hub.publish(PublisherKind::Ui, "actions/decision", &decision(2)).unwrap();
    assert_eq!(hub.next(inbox).expect("delivered").msg_id, 2);
}

#[test]
fn ipc_publish_propagates_errors() {
    let mut hub = Hub::new();
    let mut session = Session::new();
    assert!(matches!(session.command(IpcCommand::Hello { kind: PublisherKind::Agent }), SessionStep::AckHello));
    let mut client = Client::new();
    let id = client.publishing();
    let message = decision(7);
    let step = session.command(IpcCommand::Publish {
        id,
        topic: "action.decision".to_string(),
        header: message.header,
        body: message.body,
    });
    match step {
        SessionStep::Publish { id: answered, topic, message } => {
            let err = hub.publish(session.kind(), &topic, &message).expect_err("publish should fail");
            assert!(matches!(err, BusError::Forbidden(_)));
            assert!(client.publish_answered(answered));
            assert!(!client.publish_answered(answered));
        }
        other => panic!("unexpected step {other:?}"),
    }
}

#[test]
fn ipc_subscribe_error_surfaces() {
    let mut hub = Hub::new();
    let mut session = Session::new();
    let mut client = Client::new();
    hub.server.shutdown();
    let (sub_id, id) = client.subscribing();
    match session.command(IpcCommand::Subscribe { id, topic: "offline/topic".to_string(), sub_id }) {
        SessionStep::Subscribe { topic, .. } => {
            assert!(matches!(hub.server.subscribe(&topic), Err(BusError::Closed)));
        }
        other => panic!("unexpected step {other:?}"),
    }
    assert!(client.subscribe_answered(id, false));
    assert!(!client.listens(sub_id));
}

#[test]
fn clients_listen_until_they_leave() {
    let mut client = Client::new();
    let (sub, id) = client.subscribing();
    assert!(client.subscribe_answered(id, true));
    assert!(client.listens(sub));
    assert!(client.unsubscribe(sub));
    assert!(!client.listens(sub));
    assert!(!client.unsubscribe(sub));
    let (lost, failed) = client.subscribing();
    client.subscribe_failed(failed, lost);
    assert!(!client.listens(lost));
    let p = client.publishing();
    client.publish_failed(p);
    assert!(!client.publish_answered(p));
    client.teardown();
}

#[test]
fn sessions_stop_what_they_started() {
    let mut session = Session::new();
    assert!(!session.subscribed(4));
    assert!(session.subscribed(4));
    assert!(matches!(session.command(IpcCommand::Unsubscribe { sub_id: 4 }), SessionStep::Stop { sub_id: 4 }));
    assert!(matches!(session.command(IpcCommand::Unsubscribe { sub_id: 4 }), SessionStep::Ignore));
    let bad = Header { ttl_ms: 0, ..Header::default() };
    let step = session.command(IpcCommand::Publish { id: 1, topic: "t".to_string(), header: bad, body: vec![] });
    assert!(matches!(step, SessionStep::InvalidMessage));
}

#[test]
fn frames_carry_their_length() {
    assert_eq!(frame(&vec![7, 8]), vec![0, 0, 0, 2, 7, 8]);
    assert_eq!(payload_len([0, 0, 1, 2]), Some(258));
    assert_eq!(payload_len([0xff, 0, 0, 0]), None);
    assert_eq!(MAX_FRAME_LEN, HEADER_LEN + MAX_BODY_LEN + 4);
}

#[test]
fn reserved_keys_are_seen_until_they_age() {
    let mut cache = DedupeCache::new(2, 100);
    assert!(cache.reserve((1, 1), 0));
    assert!(!cache.reserve((1, 1), 50));
    assert!(cache.contains((1, 1), 50));
    cache.remove((1, 1));
    assert!(!cache.contains((1, 1), 50));
    cache.insert((1, 1), 0);
    assert!(!cache.contains((1, 1), 1_000));
    cache.insert((1, 1), 0);
    cache.insert((1, 2), 0);
    cache.insert((1, 3), 0);
    assert!(!cache.contains((1, 1), 1));
    assert!(cache.contains((1, 3), 1));
}

#[test]
fn bodies_have_their_length() {
    let header = Header { body_len: 5, ..Header::default() };
    match Message::new(header, vec![1]) {
        Err(BusError::BodyLengthMismatch { expected, actual }) => assert_eq!((expected, actual), (5, 1)),
        other => panic!("unexpected {other:?}"),
    }
    assert_eq!(test_message(1).header.body_len, 2);
    let far = Header { created_at_ms: u64::MAX, ttl_ms: 2, ..Header::default() };
    assert!(matches!(far.expires_at_ms(), Err(BusError::InvalidExpiry { .. })));
    assert_eq!(test_message(3).header.dedupe_key(), (1, 3));
}

#[test]
fn the_gravest_failure_stays() {
    let mut primary = None;
    let full = |topic: &str| BusError::BackpressureTimeout { topic: topic.to_string() };
    update_primary_error(&mut primary, FailureSeverity::ChannelClosed, BusError::Closed);
    update_primary_error(&mut primary, FailureSeverity::BackpressureTimeout, full("a"));
    update_primary_error(&mut primary, FailureSeverity::BackpressureTimeout, full("b"));
    update_primary_error(&mut primary, FailureSeverity::ChannelClosed, BusError::Closed);
    match primary {
        Some((severity, BusError::BackpressureTimeout { topic })) => {
            assert_eq!(severity.rank(), FailureSeverity::BackpressureTimeout.rank());
            assert_eq!(topic, "a", "the first of the gravest stays");
        }
        other => panic!("unexpected {other:?}"),
    }
}

#[test]
fn notices_of_losses_are_limited() {
    let mut hub = Hub::new();
    let drops = hub.subscribe(drop_topic());
    let expired = Header { created_at_ms: NOW - 500, ttl_ms: 100, ..test_message(1).header };
    for seq in 0..1_000u64 {
        let message = Message::new(Header { msg_id: seq, ..expired }, b"{}".to_vec()).expect("message");
        let res = hub.publish(PublisherKind::Agent, "t", &message);
        assert!(matches!(res, Err(BusError::MessageExpired)));
    }
    assert_eq!(hub.server.stats().drops_ttl, 1_000, "every loss is counted");
    let mut told = 0;
    while hub.next(drops).is_some() {
        told += 1;
    }
    assert_eq!(told, 32);
    assert!(hub.server.notice_targets(NOW + 999).is_empty());
    assert_eq!(hub.server.notice_targets(NOW + 1_000), vec![drops], "a new window tells again");
}

#[test]
fn repeats_are_dropped_for_each_subscriber() {
    let mut hub = Hub::new();
    let one = hub.subscribe("t");
    let two = hub.subscribe("t");
    hub.publish(PublisherKind::Agent, "t", &test_message(1)).unwrap();
    hub.publish(PublisherKind::Agent, "t", &test_message(1)).unwrap();
    assert_eq!(hub.server.stats().drops_duplicate, 2);
    for sub in [one, two] {
        assert!(hub.next(sub).is_some());
        assert!(hub.next(sub).is_none(), "no second copy");
    }
    let late = hub.subscribe("t");
    let elsewhere = hub.subscribe("u");
    hub.publish(PublisherKind::Agent, "t", &test_message(1)).unwrap();
    hub.publish(PublisherKind::Agent, "u", &test_message(1)).unwrap();
    assert!(hub.next(late).is_some());
    assert!(hub.next(elsewhere).is_some());
    assert!(hub.next(one).is_none());
    assert_eq!(hub.server.stats().drops_duplicate, 4);
}

#[test]
fn retries_reach_those_who_missed_a_message() {
    let mut hub = Hub { server: Server::new(BusConfig { queue_capacity: 1, ..BusConfig::default() }), queues: HashMap::new() };
    let slow = hub.subscribe("t");
    let quick = hub.subscribe("t");
    hub.publish(PublisherKind::Agent, "t", &test_message(1)).unwrap();
    hub.next(quick).expect("first");
    let res = hub.publish(PublisherKind::Agent, "t", &test_message(2));
    assert!(matches!(res, Err(BusError::BackpressureTimeout { topic }) if topic == "t"));
    assert_eq!(hub.next(quick).expect("second").msg_id, 2);
    assert_eq!(hub.next(slow).expect("first").msg_id, 1);
    hub.publish(PublisherKind::Agent, "t", &test_message(2)).unwrap();
    assert_eq!(hub.next(slow).expect("second").msg_id, 2);
    assert!(hub.next(quick).is_none());
}

#[test]
fn gone_subscribers_close_the_channel() {
    let mut hub = Hub::new();
    let sub = hub.subscribe("t");
    hub.queues.remove(&sub);
    let res = hub.publish(PublisherKind::Agent, "t", &test_message(1));
    assert!(matches!(res, Err(BusError::Closed)));
}

#[test]
fn backends_are_chosen() {
    assert!(matches!(choose_backend(Some(false), PublisherKind::Agent), Ok(Backend::Local)));
    assert!(matches!(choose_backend(None, PublisherKind::Agent), Ok(Backend::Remote)));
}

#[test]
fn bus_errors_are_told() {
    let told = |e: BusError| e.message();
    assert_eq!(told(BusError::AlreadyBound("/p".to_string())), "bus already bound at /p");
    assert_eq!(told(BusError::NotFound("/p".to_string())), "bus not found at /p");
    assert_eq!(told(BusError::Closed), "bus closed");
    assert_eq!(told(BusError::MessageExpired), "message expired prior to publish");
    assert_eq!(told(BusError::InvalidTtl(3)), "invalid ttl 3 ms");
    assert_eq!(
        told(BusError::BodyLengthMismatch { expected: 1, actual: 2 }),
        "body length mismatch (header 1, body 2)"
    );
    assert_eq!(told(BusError::BackpressureTimeout { topic: "t".to_string() }), "backpressure timeout for topic t");
    assert_eq!(told(BusError::Forbidden("x".to_string())), "forbidden: x");
    assert_eq!(
        told(map_rmp_error(RmpError::BodyTypeMismatch { expected: 0x1a, actual: "z".to_string() })),
        "body type mismatch: expected schema 0x001a, got 'z'"
    );
    assert_eq!(told(map_rmp_error(RmpError::UnknownSchema(0xbeef))), "unknown schema id 0xbeef");
    assert_eq!(
        told(map_rmp_error(RmpError::InvalidExpiry { created_at_ms: 1, ttl_ms: 2 })),
        "invalid expiry (created_at_ms=1, ttl_ms=2)"
    );
    assert_eq!(told(map_rmp_error(RmpError::InvalidTtl(9))), "invalid ttl 9 ms");
}
