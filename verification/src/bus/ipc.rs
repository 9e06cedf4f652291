//! The bus between processes: frames, the server's side of a session, the client's side.

use crate::bus::message::{message_header, Header, Message, HEADER_LEN, MAX_BODY_LEN};
use crate::bus::server::PublisherKind;
use std::collections::{HashMap, HashSet};
use vstd::prelude::*;

verus! {

broadcast use vstd::std_specs::hash::group_hash_axioms;

/// The longest frame that is read.
pub const MAX_FRAME_LEN: u64 = HEADER_LEN + MAX_BODY_LEN + 4;

/// The number that four bytes hold, the greatest first.
pub open spec fn big_endian(b: Seq<u8>) -> nat {
    (b[0] * 0x100_0000 + b[1] * 0x1_0000 + b[2] * 0x100 + b[3]) as nat
}

/// Four bytes for a number, the greatest first; of a number beyond 32 bits, the rest.
pub open spec fn length_bytes(n: nat) -> Seq<u8> {
    let m = n % 0x1_0000_0000;
    seq![
        (m / 0x100_0000) as u8,
        (m / 0x1_0000 % 0x100) as u8,
        (m / 0x100 % 0x100) as u8,
        (m % 0x100) as u8,
    ]
}

/// A payload as it is sent: its length, then its bytes.
pub open spec fn framed(payload: Seq<u8>) -> Seq<u8> {
    length_bytes(payload.len()) + payload
}

pub fn frame(payload: &Vec<u8>) -> (r: Vec<u8>)
    ensures
        r@ == framed(payload@),
{
    let m: u64 = payload.len() as u64 % 0x1_0000_0000;
    let mut r: Vec<u8> = Vec::new();
    r.push((m / 0x100_0000) as u8);
    r.push((m / 0x1_0000 % 0x100) as u8);
    r.push((m / 0x100 % 0x100) as u8);
    r.push((m % 0x100) as u8);
    assert(r@ =~= length_bytes(payload@.len()));
    let mut i: usize = 0;
    while i < payload.len()
        invariant
            i <= payload.len(),
            r@ =~= length_bytes(payload@.len()) + payload@.take(i as int),
        decreases payload.len() - i,
    {
        r.push(payload[i]);
        i += 1;
    }
    assert(payload@.take(i as int) =~= payload@);
    r
}

/// The length of the payload behind the four bytes that start a frame; none if it is too long.
pub fn payload_len(head: [u8; 4]) -> (r: Option<usize>)
    ensures
        match r {
            Some(n) => n == big_endian(head@) && n <= MAX_FRAME_LEN,
            None => big_endian(head@) > MAX_FRAME_LEN,
        },
{
    let n: u64 = head[0] as u64 * 0x100_0000 + head[1] as u64 * 0x1_0000 + head[2] as u64 * 0x100
        + head[3] as u64;
    if n > MAX_FRAME_LEN {
        None
    } else {
        Some(n as usize)
    }
}

/// What is read of a stream: the length that a frame starts with is that of its payload, and the
/// payload stands behind it.
pub proof fn frames_read_back(payload: Seq<u8>, rest: Seq<u8>)
    requires
        payload.len() <= MAX_FRAME_LEN,
    ensures
        big_endian((framed(payload) + rest).take(4)) == payload.len(),
        (framed(payload) + rest).skip(4).take(payload.len() as int) == payload,
        (framed(payload) + rest).skip(4 + payload.len() as int) == rest,
{
    let all = framed(payload) + rest;
    let n = payload.len();
    assert(all.take(4) =~= length_bytes(n));
    assert(n == n / 0x100_0000 * 0x100_0000 + n / 0x1_0000 % 0x100 * 0x1_0000 + n / 0x100 % 0x100
        * 0x100 + n % 0x100);
    assert(all.skip(4).take(n as int) =~= payload);
    assert(all.skip(4 + n as int) =~= rest);
}

/// What a client asks of the bus.
#[derive(Debug)]
pub enum IpcCommand {
    Hello { kind: PublisherKind },
    Publish { id: u64, topic: String, header: Header, body: Vec<u8> },
    Subscribe { id: u64, topic: String, sub_id: u64 },
    Unsubscribe { sub_id: u64 },
}

/// What the server does about a command.
#[derive(Debug)]
pub enum SessionStep {
    /// Answer the greeting.
    AckHello,
    /// Publish for an agent, and answer with the outcome.
    Publish { id: u64, topic: String, message: Message },
    /// The message does not hold together: end the session.
    InvalidMessage,
    /// Subscribe, tell the session if that worked, and answer.
    Subscribe { id: u64, topic: String, sub_id: u64 },
    /// Stop forwarding.
    Stop { sub_id: u64 },
    /// There is nothing to do.
    Ignore,
}

/// The server's side of a session: what it forwards.
pub struct Session {
    forwarding: HashSet<u64>,
}

impl Session {
    pub closed spec fn view(self) -> Set<u64> {
        self.forwarding@
    }

    pub fn new() -> (r: Self)
        ensures
            r@ == Set::<u64>::empty(),
    {
        Session { forwarding: HashSet::new() }
    }

    /// The kind under which the client's messages are published, whatever it called itself.
    pub fn kind(&self) -> (r: PublisherKind)
        ensures
            r == PublisherKind::Agent,
    {
        PublisherKind::Agent
    }

    pub fn command(&mut self, command: IpcCommand) -> (r: SessionStep)
        ensures
            match command {
                IpcCommand::Hello { .. } => r is AckHello && final(self)@ == old(self)@,
                IpcCommand::Publish { id, topic, header, body } => final(self)@ == old(self)@
                    && match message_header(header, body@.len() as usize) {
                    Ok(h) => r matches SessionStep::Publish { id: i, topic: t, message } && i == id
                        && t == topic && message.header == h && message.body == body,
                    Err(_) => r is InvalidMessage,
                },
                IpcCommand::Subscribe { id, topic, sub_id } => final(self)@ == old(self)@ && r == (
                SessionStep::Subscribe { id, topic, sub_id }),
                IpcCommand::Unsubscribe { sub_id } => final(self)@ == old(self)@.remove(sub_id)
                    && r == if old(self)@.contains(sub_id) {
                    SessionStep::Stop { sub_id }
                } else {
                    SessionStep::Ignore
                },
            },
    {
        match command {
            IpcCommand::Hello { kind: _ } => SessionStep::AckHello,
            IpcCommand::Publish { id, topic, header, body } => match Message::new(header, body) {
                Ok(message) => SessionStep::Publish { id, topic, message },
                Err(_) => SessionStep::InvalidMessage,
            },
            IpcCommand::Subscribe { id, topic, sub_id } => SessionStep::Subscribe {
                id,
                topic,
                sub_id,
            },
            IpcCommand::Unsubscribe { sub_id } => {
                if self.forwarding.remove(&sub_id) {
                    SessionStep::Stop { sub_id }
                } else {
                    SessionStep::Ignore
                }
            },
        }
    }

    /// Takes note of a subscription that is forwarded. Tells whether an earlier one of the same
    /// number gives way.
    pub fn subscribed(&mut self, sub_id: u64) -> (r: bool)
        ensures
            final(self)@ == old(self)@.insert(sub_id),
            r == old(self)@.contains(sub_id),
    {
        !self.forwarding.insert(sub_id)
    }
}

pub ghost struct ClientModel {
    pub subscriptions: Set<u64>,
    /// What awaits an answer: a publication, or the subscription of a number.
    pub pending: Map<u64, Option<u64>>,
    pub next_sub: u64,
    pub next_command: u64,
}

/// The client's side: what it listens to, and what it waits for.
pub struct Client {
    subscriptions: HashSet<u64>,
    pending: HashMap<u64, Option<u64>>,
    next_sub: u64,
    next_command: u64,
}

pub open spec fn following(n: u64) -> u64 {
    if n == u64::MAX {
        0
    } else {
        (n + 1) as u64
    }
}

fn follow(n: u64) -> (r: u64)
    ensures
        r == following(n),
{
    if n == u64::MAX {
        0
    } else {
        n + 1
    }
}

impl Client {
    pub closed spec fn view(self) -> ClientModel {
        ClientModel {
            subscriptions: self.subscriptions@,
            pending: self.pending@,
            next_sub: self.next_sub,
            next_command: self.next_command,
        }
    }

    pub fn new() -> (r: Self)
        ensures
            r@ == (ClientModel {
                subscriptions: Set::empty(),
                pending: Map::empty(),
                next_sub: 1,
                next_command: 1,
            }),
    {
        Client {
            subscriptions: HashSet::new(),
            pending: HashMap::new(),
            next_sub: 1,
            next_command: 1,
        }
    }

    /// Starts to wait for the answer to a publication. Gives the command's number.
    pub fn publishing(&mut self) -> (id: u64)
        ensures
            id == old(self)@.next_command,
            final(self)@ == (ClientModel {
                pending: old(self)@.pending.insert(id, None),
                next_command: following(id),
                ..old(self)@
            }),
    {
        let id = self.next_command;
        self.next_command = follow(id);
        self.pending.insert(id, None);
        id
    }

    /// Starts to listen, and to wait for the answer. Gives the subscription's number and the
    /// command's.
    pub fn subscribing(&mut self) -> (r: (u64, u64))
        ensures
            r == (old(self)@.next_sub, old(self)@.next_command),
            final(self)@ == (ClientModel {
                subscriptions: old(self)@.subscriptions.insert(r.0),
                pending: old(self)@.pending.insert(r.1, Some(r.0)),
                next_sub: following(r.0),
                next_command: following(r.1),
            }),
    {
        let sub_id = self.next_sub;
        self.next_sub = follow(sub_id);
        self.subscriptions.insert(sub_id);
        let id = self.next_command;
        self.next_command = follow(id);
        self.pending.insert(id, Some(sub_id));
        (sub_id, id)
    }

    /// Stops waiting for a publication: it was not sent, or no answer came in time.
    pub fn publish_failed(&mut self, id: u64)
        ensures
            final(self)@ == (ClientModel { pending: old(self)@.pending.remove(id), ..old(self)@ }),
    {
        self.pending.remove(&id);
    }

    /// Gives a subscription up: it was not sent, it was refused, or no answer came in time.
    pub fn subscribe_failed(&mut self, id: u64, sub_id: u64)
        ensures
            final(self)@ == (ClientModel {
                pending: old(self)@.pending.remove(id),
                subscriptions: old(self)@.subscriptions.remove(sub_id),
                ..old(self)@
            }),
    {
        self.pending.remove(&id);
        self.subscriptions.remove(&sub_id);
    }

    /// An answer to a publication came. Tells whether someone waits for it.
    pub fn publish_answered(&mut self, id: u64) -> (r: bool)
        ensures
            r == (old(self)@.pending.contains_key(id) && old(self)@.pending[id] is None),
            final(self)@ == (ClientModel { pending: old(self)@.pending.remove(id), ..old(self)@ }),
    {
        match self.pending.remove(&id) {
            Some(None) => true,
            _ => false,
        }
    }

    /// An answer to a subscription came. Tells whether someone waits for it; one that was refused
    /// is not listened to.
    pub fn subscribe_answered(&mut self, id: u64, granted: bool) -> (r: bool)
        ensures
            r == (old(self)@.pending.contains_key(id) && old(self)@.pending[id] is Some),
            final(self)@ == (ClientModel {
                pending: old(self)@.pending.remove(id),
                subscriptions: if r && !granted {
                    old(self)@.subscriptions.remove(old(self)@.pending[id]->0)
                } else {
                    old(self)@.subscriptions
                },
                ..old(self)@
            }),
    {
        match self.pending.remove(&id) {
            Some(Some(sub_id)) => {
                if !granted {
                    self.subscriptions.remove(&sub_id);
                }
                true
            },
            _ => false,
        }
    }

    /// Whether messages of a subscription are taken.
    pub fn listens(&self, sub_id: u64) -> (r: bool)
        ensures
            r == self@.subscriptions.contains(sub_id),
    {
        self.subscriptions.contains(&sub_id)
    }

    /// Lets a subscription go. Tells whether the server is to hear of it.
    pub fn unsubscribe(&mut self, sub_id: u64) -> (r: bool)
        ensures
            r == old(self)@.subscriptions.contains(sub_id),
            final(self)@ == (ClientModel {
                subscriptions: old(self)@.subscriptions.remove(sub_id),
                ..old(self)@
            }),
    {
        self.subscriptions.remove(&sub_id)
    }

    /// The connection is gone: nothing is waited for any more.
    pub fn teardown(&mut self)
        ensures
            final(self)@ == (ClientModel {
                subscriptions: Set::empty(),
                pending: Map::empty(),
                ..old(self)@
            }),
    {
        self.pending.clear();
        self.subscriptions.clear();
    }
}

} // verus!
