//! The values that nodes take and give at their ports.

use crate::digest::{blake3_digest, blake3_hex, blake3_hex_of, blake3_of, push_text, utf8};
use crate::json::{compact, copy_list, json_text, list_model, Json, JsonModel};
use crate::text::{before, lemma_text_lt_irreflexive, lemma_text_lt_total};
use crate::text::{lemma_text_lt_transitive, same, text_lt};
use vstd::prelude::*;

verus! {

/// Lists of values under port names, the names in order.
#[derive(Debug)]
pub struct Ports {
    entries: Vec<(String, Vec<Json>)>,
}

pub type PortsModel = Seq<(Seq<char>, Seq<JsonModel>)>;

/// The values at a port.
pub open spec fn port_get(m: PortsModel, port: Seq<char>) -> Option<Seq<JsonModel>>
    decreases m.len(),
{
    if m.len() == 0 {
        None
    } else if m[0].0 == port {
        Some(m[0].1)
    } else {
        port_get(m.skip(1), port)
    }
}

/// One more value at a port; a new port is put in its place in the order.
pub open spec fn port_push(m: PortsModel, port: Seq<char>, value: JsonModel) -> PortsModel
    decreases m.len(),
{
    if m.len() == 0 {
        seq![(port, seq![value])]
    } else if m[0].0 == port {
        seq![(port, m[0].1.push(value))] + m.skip(1)
    } else if text_lt(port, m[0].0) {
        seq![(port, seq![value])] + m
    } else {
        seq![m[0]] + port_push(m.skip(1), port, value)
    }
}

/// All of `values`, one after the other, at a port.
pub open spec fn port_push_all(m: PortsModel, port: Seq<char>, values: Seq<JsonModel>) -> PortsModel
    decreases values.len(),
{
    if values.len() == 0 {
        m
    } else {
        port_push(port_push_all(m, port, values.drop_last()), port, values.last())
    }
}

/// Whether the ports are in order, each once.
pub open spec fn ports_ordered(m: PortsModel) -> bool {
    forall|i: int, j: int| 0 <= i < j < m.len() ==> text_lt(#[trigger] m[i].0, #[trigger] m[j].0)
}

/// The bytes of a list of values: the JSON text of one behind the other.
pub open spec fn values_bytes(values: Seq<JsonModel>) -> Seq<u8>
    decreases values.len(),
{
    if values.len() == 0 {
        seq![]
    } else {
        values_bytes(values.drop_last()) + utf8(json_text(values.last()))
    }
}

/// The bytes that a digest of ports is made of: each port's name and then its values.
pub open spec fn ports_bytes(m: PortsModel) -> Seq<u8>
    decreases m.len(),
{
    if m.len() == 0 {
        seq![]
    } else {
        ports_bytes(m.drop_last()) + utf8(m.last().0) + values_bytes(m.last().1)
    }
}

impl Ports {
    pub closed spec fn view(self) -> PortsModel {
        self.entries@.map_values(|e: (String, Vec<Json>)| (e.0@, list_model(e.1@)))
    }

    pub fn new() -> (r: Self)
        ensures
            r@ == PortsModel::empty(),
    {
        let r = Ports { entries: Vec::new() };
        assert(r@ =~= PortsModel::empty());
        r
    }

    pub fn is_empty(&self) -> (r: bool)
        ensures
            r == (self@.len() == 0),
    {
        self.entries.len() == 0
    }

    pub fn get(&self, port: &str) -> (r: Option<&Vec<Json>>)
        ensures
            match r {
                Some(v) => port_get(self@, port@) == Some(list_model(v@)),
                None => port_get(self@, port@) is None,
            },
    {
        let ghost all = self@;
        let mut i: usize = 0;
        assert(all.skip(0) =~= all);
        while i < self.entries.len()
            invariant
                i <= self.entries.len(),
                all == self@,
                port_get(all, port@) == port_get(all.skip(i as int), port@),
            decreases self.entries.len() - i,
        {
            assert(all.skip(i as int)[0] == all[i as int]);
            assert(all.skip(i as int).skip(1) =~= all.skip(i + 1));
            if same(self.entries[i].0.as_str(), port) {
                return Some(&self.entries[i].1);
            }
            i += 1;
        }
        None
    }

    pub fn push(&mut self, port: &str, value: Json)
        ensures
            final(self)@ == port_push(old(self)@, port@, value@),
    {
        let ghost all = self@;
        let ghost v = value@;
        let mut i: usize = 0;
        assert(all.skip(0) =~= all);
        assert(all.take(0) + port_push(all, port@, v) =~= port_push(all, port@, v));
        while i < self.entries.len()
            invariant
                i <= self.entries.len(),
                all == self@,
                *self == *old(self),
                v == value@,
                port_push(all, port@, v) == all.take(i as int) + port_push(
                    all.skip(i as int),
                    port@,
                    v,
                ),
            decreases self.entries.len() - i,
        {
            assert(all.skip(i as int)[0] == all[i as int]);
            assert(all.skip(i as int).skip(1) =~= all.skip(i + 1));
            if same(self.entries[i].0.as_str(), port) {
                let mut values = copy_list(&self.entries[i].1);
                let ghost o = values@;
                values.push(value);
                assert(list_model(values@) =~= list_model(o).push(v));
                let ghost kv = (port@, list_model(values@));
                self.entries.set(i, (port.to_owned(), values));
                assert(self@ =~= all.take(i as int) + (seq![kv] + all.skip(i + 1)));
                return ;
            }
            if before(port, self.entries[i].0.as_str()) {
                let mut values: Vec<Json> = Vec::new();
                values.push(value);
                assert(list_model(values@) =~= seq![v]);
                let ghost kv = (port@, list_model(values@));
                self.entries.insert(i, (port.to_owned(), values));
                assert(self@ =~= all.take(i as int) + (seq![kv] + all.skip(i as int)));
                return ;
            }
            assert(all.take(i as int) + (seq![all[i as int]] + port_push(all.skip(i + 1), port@, v))
                =~= all.take(i + 1) + port_push(all.skip(i + 1), port@, v));
            i += 1;
        }
        let mut values: Vec<Json> = Vec::new();
        values.push(value);
        assert(list_model(values@) =~= seq![v]);
        let ghost kv = (port@, list_model(values@));
        self.entries.push((port.to_owned(), values));
        assert(self@ =~= all.take(all.len() as int) + seq![kv]);
    }

    pub fn push_all(&mut self, port: &str, values: &Vec<Json>)
        ensures
            final(self)@ == port_push_all(old(self)@, port@, list_model(values@)),
    {
        let ghost start = self@;
        let ghost all = list_model(values@);
        let mut i: usize = 0;
        while i < values.len()
            invariant
                i <= values.len(),
                all == list_model(values@),
                self@ == port_push_all(start, port@, all.take(i as int)),
            decreases values.len() - i,
        {
            assert(all.take(i + 1).drop_last() =~= all.take(i as int));
            assert(all[i as int] == values@[i as int]@);
            self.push(port, values[i].clone());
            i += 1;
        }
        assert(all.take(all.len() as int) =~= all);
    }

    /// The names of the ports, in order.
    pub fn names(&self) -> (r: Vec<String>)
        ensures
            crate::text::texts(r@) == port_names(self@),
    {
        let mut out: Vec<String> = Vec::new();
        let mut i: usize = 0;
        while i < self.entries.len()
            invariant
                i <= self.entries.len(),
                out@.len() == i,
                forall|k: int| 0 <= k < i ==> (#[trigger] out@[k])@ == self@[k].0,
            decreases self.entries.len() - i,
        {
            out.push(self.entries[i].0.clone());
            i += 1;
        }
        assert(crate::text::texts(out@) =~= port_names(self@));
        out
    }

    fn bytes(&self) -> (r: Vec<u8>)
        ensures
            r@ == ports_bytes(self@),
    {
        let ghost all = self@;
        let mut out: Vec<u8> = Vec::new();
        let mut i: usize = 0;
        while i < self.entries.len()
            invariant
                i <= self.entries.len(),
                all == self@,
                out@ == ports_bytes(all.take(i as int)),
            decreases self.entries.len() - i,
        {
            assert(all.take(i + 1).drop_last() =~= all.take(i as int));
            assert(all.take(i + 1).last() == all[i as int]);
            push_text(&mut out, self.entries[i].0.as_str());
            let values = &self.entries[i].1;
            let ghost vs = list_model(values@);
            let ghost start = out@;
            let mut k: usize = 0;
            assert(start + values_bytes(vs.take(0)) =~= start);
            while k < values.len()
                invariant
                    k <= values.len(),
                    vs == list_model(values@),
                    out@ == start + values_bytes(vs.take(k as int)),
                decreases values.len() - k,
            {
                assert(vs.take(k + 1).drop_last() =~= vs.take(k as int));
                assert(vs[k as int] == values@[k as int]@);
                let t = compact(&values[k]);
                push_text(&mut out, t.as_str());
                assert(out@ =~= start + values_bytes(vs.take(k + 1)));
                k += 1;
            }
            assert(vs.take(vs.len() as int) =~= vs);
            i += 1;
        }
        assert(all.take(all.len() as int) =~= all);
        out
    }
}

pub open spec fn port_names(m: PortsModel) -> Seq<Seq<char>> {
    m.map_values(|e: (Seq<char>, Seq<JsonModel>)| e.0)
}

impl Clone for Ports {
    fn clone(&self) -> (r: Self)
        ensures
            r@ == self@,
    {
        let mut out: Vec<(String, Vec<Json>)> = Vec::new();
        let mut i: usize = 0;
        while i < self.entries.len()
            invariant
                i <= self.entries.len(),
                out@.len() == i,
                forall|k: int|
                    0 <= k < i ==> (#[trigger] out@[k]).0@ == self.entries@[k].0@ && list_model(
                        out@[k].1@,
                    ) == list_model(self.entries@[k].1@),
            decreases self.entries.len() - i,
        {
            let key = self.entries[i].0.clone();
            let values = copy_list(&self.entries[i].1);
            out.push((key, values));
            i += 1;
        }
        let r = Ports { entries: out };
        assert(r@ =~= self@);
        r
    }
}

/// The values that wait at the ports of a node.
#[derive(Debug)]
pub struct NodeInputs {
    pub ports: Ports,
}

/// The values that a node gave at its ports.
#[derive(Debug)]
pub struct NodeOutputs {
    pub ports: Ports,
}

impl NodeInputs {
    pub open spec fn view(self) -> PortsModel {
        self.ports@
    }

    pub fn new() -> (r: Self)
        ensures
            r@ == PortsModel::empty(),
    {
        NodeInputs { ports: Ports::new() }
    }

    pub fn push(&mut self, port: &str, value: Json)
        ensures
            final(self)@ == port_push(old(self)@, port@, value@),
    {
        self.ports.push(port, value);
    }
}

impl NodeOutputs {
    pub open spec fn view(self) -> PortsModel {
        self.ports@
    }

    pub fn new() -> (r: Self)
        ensures
            r@ == PortsModel::empty(),
    {
        NodeOutputs { ports: Ports::new() }
    }

    pub fn push(&mut self, port: &str, value: Json)
        ensures
            final(self)@ == port_push(old(self)@, port@, value@),
    {
        self.ports.push(port, value);
    }

    /// The digest of the ports and their values.
    pub fn hash(&self) -> (r: Vec<u8>)
        ensures
            r@ == outputs_digest(self@),
            r@.len() == 32,
    {
        let bytes = self.ports.bytes();
        blake3_of(&bytes)
    }

    /// The digest in hexadecimal digits.
    pub fn hash_hex(&self) -> (r: String)
        ensures
            r@ == outputs_hex(self@),
    {
        let bytes = self.ports.bytes();
        blake3_hex_of(&bytes)
    }
}

pub open spec fn outputs_digest(m: PortsModel) -> Seq<u8> {
    blake3_digest(ports_bytes(m))
}

pub open spec fn outputs_hex(m: PortsModel) -> Seq<char> {
    blake3_hex(ports_bytes(m))
}

impl Clone for NodeInputs {
    fn clone(&self) -> (r: Self)
        ensures
            r@ == self@,
    {
        NodeInputs { ports: self.ports.clone() }
    }
}

impl Clone for NodeOutputs {
    fn clone(&self) -> (r: Self)
        ensures
            r@ == self@,
    {
        NodeOutputs { ports: self.ports.clone() }
    }
}

/// Pushing keeps the ports in order.
pub proof fn push_keeps_order(m: PortsModel, port: Seq<char>, value: JsonModel)
    requires
        ports_ordered(m),
    ensures
        ports_ordered(port_push(m, port, value)),
    decreases m.len(),
{
    let r = port_push(m, port, value);
    if m.len() > 0 {
        let t = m.skip(1);
        assert(ports_ordered(t)) by {
            assert forall|i: int, j: int| 0 <= i < j < t.len() implies text_lt(
                #[trigger] t[i].0,
                #[trigger] t[j].0,
            ) by {
                assert(t[i] == m[i + 1] && t[j] == m[j + 1]);
            }
        }
        if m[0].0 == port {
            assert forall|i: int, j: int| 0 <= i < j < r.len() implies text_lt(
                #[trigger] r[i].0,
                #[trigger] r[j].0,
            ) by {
                assert(r[i].0 == m[i].0 && r[j].0 == m[j].0);
            }
        } else if text_lt(port, m[0].0) {
            assert forall|i: int, j: int| 0 <= i < j < r.len() implies text_lt(
                #[trigger] r[i].0,
                #[trigger] r[j].0,
            ) by {
                assert(r[j] == m[j - 1]);
                if i == 0 {
                    if j > 1 {
                        lemma_text_lt_transitive(port, m[0].0, m[j - 1].0);
                    }
                } else {
                    assert(r[i] == m[i - 1]);
                }
            }
        } else {
            push_keeps_order(t, port, value);
            lemma_text_lt_total(port, m[0].0);
            let rest = port_push(t, port, value);
            lemma_push_names(t, port, value);
            assert forall|i: int, j: int| 0 <= i < j < r.len() implies text_lt(
                #[trigger] r[i].0,
                #[trigger] r[j].0,
            ) by {
                assert(r[j] == rest[j - 1]);
                if i == 0 {
                    let k = rest[j - 1].0;
                    if k != port {
                        let w = choose|w: int| 0 <= w < t.len() && (#[trigger] t[w]).0 == k;
                        assert(t[w] == m[w + 1]);
                    }
                } else {
                    assert(r[i] == rest[i - 1]);
                }
            }
        }
    }
}

proof fn lemma_push_names(m: PortsModel, port: Seq<char>, value: JsonModel)
    ensures
        forall|i: int|
            0 <= i < port_push(m, port, value).len() ==> (#[trigger] port_push(m, port, value)[i]).0
                == port || exists|w: int|
                0 <= w < m.len() && (#[trigger] m[w]).0 == port_push(m, port, value)[i].0,
    decreases m.len(),
{
    let r = port_push(m, port, value);
    if m.len() > 0 {
        let t = m.skip(1);
        lemma_push_names(t, port, value);
        assert forall|i: int| 0 <= i < r.len() implies (#[trigger] r[i]).0 == port || exists|w: int|
            0 <= w < m.len() && (#[trigger] m[w]).0 == r[i].0 by {
            if m[0].0 == port {
                if i > 0 {
                    assert(r[i] == m[i]);
                }
            } else if text_lt(port, m[0].0) {
                if i > 0 {
                    assert(r[i] == m[i - 1]);
                }
            } else if i == 0 {
                assert(r[0] == m[0]);
            } else {
                let rest = port_push(t, port, value);
                assert(r[i] == rest[i - 1]);
                if rest[i - 1].0 != port {
                    let w = choose|w: int| 0 <= w < t.len() && (#[trigger] t[w]).0 == rest[i - 1].0;
                    assert(t[w] == m[w + 1]);
                }
            }
        }
    }
}

/// The values at a port, none where it is not there.
pub open spec fn at_port(m: PortsModel, port: Seq<char>) -> Seq<JsonModel> {
    match port_get(m, port) {
        Some(values) => values,
        None => seq![],
    }
}

/// The values under a name are those of the port with that name, and only ports that are there
/// have values.
pub proof fn ports_are_found_by_name(m: PortsModel, port: Seq<char>)
    requires
        ports_ordered(m),
    ensures
        forall|i: int| 0 <= i < m.len() && (#[trigger] m[i]).0 == port ==> port_get(m, port) == Some(
            m[i].1,
        ),
        port_get(m, port) is Some ==> exists|i: int| 0 <= i < m.len() && (#[trigger] m[i]).0 == port,
    decreases m.len(),
{
    if m.len() > 0 {
        let t = m.skip(1);
        lemma_tail_ordered(m);
        ports_are_found_by_name(t, port);
        assert forall|i: int| 0 <= i < m.len() && (#[trigger] m[i]).0 == port implies port_get(m, port)
            == Some(m[i].1) by {
            if i > 0 {
                assert(text_lt(m[0].0, m[i].0));
                lemma_text_lt_irreflexive(port);
                assert(t[i - 1] == m[i]);
            }
        }
        if port_get(m, port) is Some {
            if m[0].0 != port {
                let i = choose|i: int| 0 <= i < t.len() && (#[trigger] t[i]).0 == port;
                assert(m[i + 1].0 == port);
            }
        }
    }
}

proof fn lemma_tail_ordered(m: PortsModel)
    requires
        ports_ordered(m),
        m.len() > 0,
    ensures
        ports_ordered(m.skip(1)),
{
    let t = m.skip(1);
    assert forall|i: int, j: int| 0 <= i < j < t.len() implies text_lt(
        #[trigger] t[i].0,
        #[trigger] t[j].0,
    ) by {
        assert(t[i] == m[i + 1] && t[j] == m[j + 1]);
    }
}

/// A value that is pushed to a port stands there behind those that were there, and the other ports
/// keep theirs.
pub proof fn pushed_values_come_last(
    m: PortsModel,
    port: Seq<char>,
    value: JsonModel,
    other: Seq<char>,
)
    requires
        ports_ordered(m),
    ensures
        port_get(port_push(m, port, value), port) == Some(at_port(m, port).push(value)),
        other != port ==> port_get(port_push(m, port, value), other) == port_get(m, other),
        ports_ordered(port_push(m, port, value)),
    decreases m.len(),
{
    push_keeps_order(m, port, value);
    let r = port_push(m, port, value);
    if m.len() == 0 {
        assert(r.skip(1) =~= m);
        assert(at_port(m, port).push(value) =~= seq![value]);
    } else {
        let t = m.skip(1);
        lemma_tail_ordered(m);
        if m[0].0 == port {
            assert(r.skip(1) =~= t);
        } else if text_lt(port, m[0].0) {
            assert(r.skip(1) =~= m);
            assert(at_port(m, port) =~= seq![]) by {
                ports_are_found_by_name(m, port);
                if port_get(m, port) is Some {
                    let i = choose|i: int| 0 <= i < m.len() && (#[trigger] m[i]).0 == port;
                    lemma_text_lt_irreflexive(port);
                    if i > 0 {
                        lemma_text_lt_transitive(port, m[0].0, m[i].0);
                    }
                }
            }
            assert(at_port(m, port).push(value) =~= seq![value]);
        } else {
            pushed_values_come_last(t, port, value, other);
            assert(r.skip(1) =~= port_push(t, port, value));
        }
    }
}

/// Values that are pushed to a port stand there, in their order, behind those that were there, and
/// the other ports keep theirs.
pub proof fn pushed_lists_come_last(
    m: PortsModel,
    port: Seq<char>,
    values: Seq<JsonModel>,
    other: Seq<char>,
)
    requires
        ports_ordered(m),
    ensures
        at_port(port_push_all(m, port, values), port) == at_port(m, port) + values,
        values.len() > 0 ==> port_get(port_push_all(m, port, values), port) is Some,
        values.len() == 0 ==> port_push_all(m, port, values) == m,
        other != port ==> port_get(port_push_all(m, port, values), other) == port_get(m, other),
        ports_ordered(port_push_all(m, port, values)),
    decreases values.len(),
{
    if values.len() > 0 {
        let before = port_push_all(m, port, values.drop_last());
        pushed_lists_come_last(m, port, values.drop_last(), other);
        pushed_values_come_last(before, port, values.last(), other);
        assert(values.drop_last().push(values.last()) =~= values);
        assert(at_port(m, port) + values =~= (at_port(m, port) + values.drop_last()).push(
            values.last(),
        ));
    } else {
        assert(at_port(m, port) + values =~= at_port(m, port));
    }
}

/// Pushes to different ports can be swapped: the digest depends on the ports' contents, not on
/// the order in which the ports were filled.
pub proof fn pushes_commute(
    m: PortsModel,
    a: Seq<char>,
    x: JsonModel,
    b: Seq<char>,
    y: JsonModel,
)
    requires
        ports_ordered(m),
        a != b,
    ensures
        port_push(port_push(m, a, x), b, y) == port_push(port_push(m, b, y), a, x),
    decreases m.len(),
{
    lemma_text_lt_total(a, b);
    lemma_text_lt_irreflexive(a);
    lemma_text_lt_irreflexive(b);
    if text_lt(b, a) {
        lemma_commute_ordered(m, b, y, a, x);
    } else {
        lemma_commute_ordered(m, a, x, b, y);
    }
}

proof fn lemma_commute_ordered(
    m: PortsModel,
    a: Seq<char>,
    x: JsonModel,
    b: Seq<char>,
    y: JsonModel,
)
    requires
        ports_ordered(m),
        text_lt(a, b),
    ensures
        port_push(port_push(m, a, x), b, y) == port_push(port_push(m, b, y), a, x),
    decreases m.len(),
{
    lemma_text_lt_irreflexive(a);
    if text_lt(b, a) {
        lemma_text_lt_transitive(a, b, a);
    }
    let l = port_push(port_push(m, a, x), b, y);
    let r = port_push(port_push(m, b, y), a, x);
    if m.len() == 0 {
        let one = port_push(m, a, x);
        assert(one.skip(1) =~= m);
        assert(l =~= seq![(a, seq![x]), (b, seq![y])]);
        assert(r =~= seq![(a, seq![x]), (b, seq![y])]);
    } else {
        let k = m[0].0;
        let t = m.skip(1);
        assert(ports_ordered(t)) by {
            assert forall|i: int, j: int| 0 <= i < j < t.len() implies text_lt(
                #[trigger] t[i].0,
                #[trigger] t[j].0,
            ) by {
                assert(t[i] == m[i + 1] && t[j] == m[j + 1]);
            }
        }
        if k == a {
            let left = port_push(m, a, x);
            assert(left.skip(1) =~= t);
            let right = port_push(m, b, y);
            assert(right.skip(1) =~= port_push(t, b, y));
            assert(l =~= r);
        } else if text_lt(a, k) {
            let left = port_push(m, a, x);
            assert(left.skip(1) =~= m);
            let right = port_push(m, b, y);
            lemma_text_lt_irreflexive(k);
            if k == b {
                assert(right[0].0 == b);
            } else if text_lt(b, k) {
                assert(right[0].0 == b);
            } else {
                assert(right[0] == m[0]);
            }
            assert(l =~= r);
        } else {
            lemma_text_lt_total(a, k);
            lemma_text_lt_transitive(k, a, b);
            lemma_text_lt_irreflexive(k);
            if text_lt(b, k) {
                lemma_text_lt_transitive(k, b, k);
            }
            lemma_commute_ordered(t, a, x, b, y);
            let left = port_push(m, a, x);
            assert(left.skip(1) =~= port_push(t, a, x));
            let right = port_push(m, b, y);
            assert(right.skip(1) =~= port_push(t, b, y));
            assert(l =~= r);
        }
    }
}

} // verus!
