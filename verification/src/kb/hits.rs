//! What queries of the knowledge base give.

use crate::digest::{hex_encode, hex_text};
use crate::ids::EventId;
use crate::json::{
    int_json, int_model, json_document, map_insert, read_json, text_json, Json, JsonMap, JsonModel,
    MapModel, Numeral, NumeralModel,
};
use crate::kb::ledger::put_text;
use crate::text::{concat, concat3, opt_text, signed_decimal, signed_text, texts};
use vstd::prelude::*;

verus! {

#[derive(Clone, Copy, Debug, PartialEq, Eq, Structural)]
pub enum SearchDomain {
    Contacts,
    Artifacts,
    Events,
    Runs,
}

#[derive(Debug)]
pub struct SearchHit {
    pub domain: SearchDomain,
    pub key: String,
    pub label: String,
    pub source_event: EventId,
    pub extra: Option<Json>,
}

pub ghost struct HitModel {
    pub domain: SearchDomain,
    pub key: Seq<char>,
    pub label: Seq<char>,
    pub source_event: i64,
    pub extra: Option<JsonModel>,
}

impl SearchHit {
    pub open spec fn view(self) -> HitModel {
        HitModel {
            domain: self.domain,
            key: self.key@,
            label: self.label@,
            source_event: self.source_event.0,
            extra: match self.extra {
                Some(j) => Some(j@),
                None => None,
            },
        }
    }
}

/// What a keyword is searched with: it may stand anywhere.
pub fn like_pattern(keyword: &str) -> (r: String)
    ensures
        r@ == "%"@ + keyword@ + "%"@,
{
    concat3("%", keyword, "%")
}

fn put(m: &mut JsonMap, key: &str, t: &Option<String>)
    ensures
        final(m)@ == put_text(old(m)@, key@, opt_text(*t)),
{
    match t {
        Some(s) => m.insert(key.to_owned(), text_json(s.as_str())),
        None => {},
    }
}

/// A contact that was found. A trust that is no finite number is left out.
pub open spec fn contact_hit(
    key: Seq<char>,
    name: Option<Seq<char>>,
    email: Option<Seq<char>>,
    org: Option<Seq<char>>,
    trust: Option<Seq<char>>,
    source_event: i64,
) -> HitModel {
    let base = put_text(put_text(MapModel::empty(), "email"@, email), "org"@, org);
    HitModel {
        domain: SearchDomain::Contacts,
        key,
        label: match name {
            Some(n) => n,
            None => "contact"@,
        },
        source_event,
        extra: Some(
            JsonModel::Object(
                match trust {
                    Some(t) => map_insert(
                        base,
                        "trust"@,
                        JsonModel::Number(NumeralModel::Float(t)),
                    ),
                    None => base,
                },
            ),
        ),
    }
}

pub open spec fn artifact_hit(
    key: Seq<char>,
    kind: Seq<char>,
    path: Seq<char>,
    summary: Option<Seq<char>>,
    source_event: i64,
) -> HitModel {
    HitModel {
        domain: SearchDomain::Artifacts,
        key,
        label: "artifact"@,
        source_event,
        extra: Some(
            JsonModel::Object(
                put_text(
                    map_insert(
                        map_insert(MapModel::empty(), "kind"@, JsonModel::Text(kind)),
                        "path"@,
                        JsonModel::Text(path),
                    ),
                    "summary"@,
                    summary,
                ),
            ),
        ),
    }
}

pub open spec fn event_hit(id: i64, kind: Seq<char>, ts_ms: i64) -> HitModel {
    HitModel {
        domain: SearchDomain::Events,
        key: "event:"@ + signed_decimal(id as int),
        label: kind,
        source_event: id,
        extra: Some(
            JsonModel::Object(map_insert(MapModel::empty(), "ts_ms"@, int_model(ts_ms as int))),
        ),
    }
}

pub open spec fn run_hit(
    trace_id: Seq<char>,
    status: Seq<char>,
    opening_id: Seq<char>,
    source_event: i64,
) -> HitModel {
    HitModel {
        domain: SearchDomain::Runs,
        key: "run:"@ + trace_id,
        label: status,
        source_event,
        extra: Some(
            JsonModel::Object(
                map_insert(
                    map_insert(MapModel::empty(), "trace_id"@, JsonModel::Text(trace_id)),
                    "opening_id"@,
                    JsonModel::Text(opening_id),
                ),
            ),
        ),
    }
}

impl SearchHit {
    pub fn contact(
        key: String,
        name: Option<String>,
        email: &Option<String>,
        org: &Option<String>,
        trust: Option<String>,
        source_event: i64,
    ) -> (r: Self)
        ensures
            r@ == contact_hit(
                key@,
                opt_text(name),
                opt_text(*email),
                opt_text(*org),
                opt_text(trust),
                source_event,
            ),
    {
        let mut extra = JsonMap::new();
        put(&mut extra, "email", email);
        put(&mut extra, "org", org);
        match trust {
            Some(t) => extra.insert("trust".to_owned(), Json::Number(Numeral::Float(t))),
            None => {},
        }
        SearchHit {
            domain: SearchDomain::Contacts,
            key,
            label: match name {
                Some(n) => n,
                None => "contact".to_owned(),
            },
            source_event: EventId(source_event),
            extra: Some(Json::Object(extra)),
        }
    }

    pub fn artifact(
        key: String,
        kind: String,
        path: String,
        summary: &Option<String>,
        source_event: i64,
    ) -> (r: Self)
        ensures
            r@ == artifact_hit(key@, kind@, path@, opt_text(*summary), source_event),
    {
        let mut extra = JsonMap::new();
        extra.insert("kind".to_owned(), Json::Text(kind));
        extra.insert("path".to_owned(), Json::Text(path));
        put(&mut extra, "summary", summary);
        SearchHit {
            domain: SearchDomain::Artifacts,
            key,
            label: "artifact".to_owned(),
            source_event: EventId(source_event),
            extra: Some(Json::Object(extra)),
        }
    }

    pub fn event(id: i64, kind: String, ts_ms: i64) -> (r: Self)
        ensures
            r@ == event_hit(id, kind@, ts_ms),
    {
        let mut extra = JsonMap::new();
        extra.insert("ts_ms".to_owned(), int_json(ts_ms));
        SearchHit {
            domain: SearchDomain::Events,
            key: concat("event:", signed_text(id).as_str()),
            label: kind,
            source_event: EventId(id),
            extra: Some(Json::Object(extra)),
        }
    }

    pub fn run(trace_id: String, status: String, opening_id: String, source_event: i64) -> (r: Self)
        ensures
            r@ == run_hit(trace_id@, status@, opening_id@, source_event),
    {
        let key = concat("run:", trace_id.as_str());
        let mut extra = JsonMap::new();
        extra.insert("trace_id".to_owned(), Json::Text(trace_id));
        extra.insert("opening_id".to_owned(), Json::Text(opening_id));
        SearchHit {
            domain: SearchDomain::Runs,
            key,
            label: status,
            source_event: EventId(source_event),
            extra: Some(Json::Object(extra)),
        }
    }
}

/// What the four searches found: rows of contacts, artifacts, runs and events.
#[derive(Debug)]
pub struct SearchRows {
    pub contacts: Vec<SearchHit>,
    pub artifacts: Vec<SearchHit>,
    pub runs: Vec<SearchHit>,
    pub events: Vec<SearchHit>,
}

/// All hits: contacts first, then artifacts, runs and events.
pub fn gather_hits(rows: SearchRows) -> (r: Vec<SearchHit>)
    ensures
        r@ == rows.contacts@ + rows.artifacts@ + rows.runs@ + rows.events@,
{
    let mut out = rows.contacts;
    let mut artifacts = rows.artifacts;
    let mut runs = rows.runs;
    let mut events = rows.events;
    out.append(&mut artifacts);
    out.append(&mut runs);
    out.append(&mut events);
    out
}

/// A value of a row. A number that is no integer is given by its numeral, if it is finite.
#[derive(Debug)]
pub enum Cell {
    Null,
    Integer(i64),
    Real(Option<String>),
    Text(String),
    Blob(Vec<u8>),
}

pub open spec fn cell_tree(c: Cell) -> JsonModel {
    match c {
        Cell::Null => JsonModel::Null,
        Cell::Integer(n) => int_model(n as int),
        Cell::Real(Some(t)) => JsonModel::Number(NumeralModel::Float(t@)),
        Cell::Real(None) => JsonModel::Null,
        Cell::Text(t) => JsonModel::Text(t@),
        Cell::Blob(b) => JsonModel::Text(hex_text(b@)),
    }
}

fn cell_json(c: &Cell) -> (r: Json)
    ensures
        r@ == cell_tree(*c),
{
    match c {
        Cell::Null => Json::Null,
        Cell::Integer(n) => int_json(*n),
        Cell::Real(Some(t)) => Json::Number(Numeral::Float(t.clone())),
        Cell::Real(None) => Json::Null,
        Cell::Text(t) => Json::Text(t.clone()),
        Cell::Blob(b) => Json::Text(hex_encode(b)),
    }
}

/// The first `n` values of a row under the names of their columns.
pub open spec fn row_tree(columns: Seq<Seq<char>>, cells: Seq<Cell>, n: nat) -> MapModel
    decreases n,
{
    if n == 0 {
        MapModel::empty()
    } else {
        map_insert(
            row_tree(columns, cells, (n - 1) as nat),
            columns[n - 1],
            cell_tree(cells[n - 1]),
        )
    }
}

pub fn row_to_object(columns: &Vec<String>, cells: &Vec<Cell>) -> (r: Json)
    requires
        columns@.len() == cells@.len(),
    ensures
        r@ == JsonModel::Object(row_tree(texts(columns@), cells@, cells@.len())),
{
    let mut m = JsonMap::new();
    let mut i: usize = 0;
    while i < cells.len()
        invariant
            i <= cells.len(),
            columns@.len() == cells@.len(),
            m@ == row_tree(texts(columns@), cells@, i as nat),
        decreases cells.len() - i,
    {
        assert(texts(columns@)[i as int] == columns@[i as int]@);
        m.insert(columns[i].clone(), cell_json(&cells[i]));
        i += 1;
    }
    Json::Object(m)
}

#[derive(Debug)]
pub struct EventRecord {
    pub id: EventId,
    pub ts_ms: u64,
    pub kind: String,
    pub payload: Json,
    pub provenance: Json,
}

/// The tree in a text; a text that is no JSON stands for itself.
pub open spec fn tree_or_text(text: Seq<char>) -> JsonModel {
    match json_document(text) {
        Some(j) => j,
        None => JsonModel::Text(text),
    }
}

fn read_or_keep(text: String) -> (r: Json)
    ensures
        r@ == tree_or_text(text@),
{
    match read_json(text.as_str()) {
        Some(j) => j,
        None => Json::Text(text),
    }
}

impl EventRecord {
    pub fn from_row(id: i64, ts_ms: u64, kind: String, payload: String, provenance: String) -> (r:
        Self)
        ensures
            r.id.0 == id,
            r.ts_ms == ts_ms,
            r.kind == kind,
            r.payload@ == tree_or_text(payload@),
            r.provenance@ == tree_or_text(provenance@),
    {
        EventRecord {
            id: EventId(id),
            ts_ms,
            kind,
            payload: read_or_keep(payload),
            provenance: read_or_keep(provenance),
        }
    }
}

/// A number put into its place among increasing ones, unless it is there.
pub open spec fn placed_once(s: Seq<i64>, n: i64) -> Seq<i64>
    decreases s.len(),
{
    if s.len() > 0 && s.last() == n {
        s
    } else if s.len() > 0 && s.last() > n {
        placed_once(s.drop_last(), n).push(s.last())
    } else {
        s.push(n)
    }
}

/// Numbers in increasing order, each once.
pub open spec fn in_order(s: Seq<i64>) -> Seq<i64>
    decreases s.len(),
{
    if s.len() == 0 {
        s
    } else {
        placed_once(in_order(s.drop_last()), s.last())
    }
}

pub open spec fn increasing(s: Seq<i64>) -> bool {
    forall|i: int, j: int| 0 <= i < j < s.len() ==> s[i] < s[j]
}

fn place_once(v: &mut Vec<i64>, n: i64)
    ensures
        final(v)@ == placed_once(old(v)@, n),
{
    let ghost s = v@;
    let mut k: usize = v.len();
    assert(s.take(k as int) =~= s);
    assert(placed_once(s.take(k as int), n) + s.skip(k as int) =~= placed_once(s, n));
    while k > 0 && v[k - 1] > n
        invariant
            k <= v.len(),
            v@ == s,
            placed_once(s, n) == placed_once(s.take(k as int), n) + s.skip(k as int),
        decreases k,
    {
        assert(s.take(k as int).drop_last() =~= s.take(k - 1));
        assert(s.take(k as int).last() == s[k - 1]);
        assert(placed_once(s.take(k - 1), n).push(s[k - 1]) + s.skip(k as int) =~= placed_once(
            s.take(k - 1),
            n,
        ) + s.skip(k - 1));
        k -= 1;
    }
    proof {
        if k > 0 {
            assert(s.take(k as int).last() == s[k - 1]);
        }
    }
    if k > 0 && v[k - 1] == n {
        assert(s.take(k as int) + s.skip(k as int) =~= s);
        return ;
    }
    v.insert(k, n);
    assert(v@ =~= s.take(k as int).push(n) + s.skip(k as int));
}

/// The numbers of events in their order, each once.
pub fn ordered_ids(ids: &Vec<i64>) -> (r: Vec<i64>)
    ensures
        r@ == in_order(ids@),
{
    let mut out: Vec<i64> = Vec::new();
    let mut i: usize = 0;
    assert(out@ =~= in_order(ids@.take(0)));
    while i < ids.len()
        invariant
            i <= ids.len(),
            out@ == in_order(ids@.take(i as int)),
        decreases ids.len() - i,
    {
        assert(ids@.take(i + 1).drop_last() =~= ids@.take(i as int));
        place_once(&mut out, ids[i]);
        i += 1;
    }
    assert(ids@.take(ids@.len() as int) =~= ids@);
    out
}

proof fn lemma_placed_once(s: Seq<i64>, n: i64)
    requires
        increasing(s),
    ensures
        increasing(placed_once(s, n)),
        forall|x: i64| placed_once(s, n).contains(x) <==> (s.contains(x) || x == n),
    decreases s.len(),
{
    let r = placed_once(s, n);
    if s.len() > 0 && s.last() == n {
        assert(s[s.len() - 1] == n);
    } else if s.len() > 0 && s.last() > n {
        let t = s.drop_last();
        assert forall|i: int, j: int| 0 <= i < j < t.len() implies t[i] < t[j] by {
            assert(t[i] == s[i] && t[j] == s[j]);
        }
        lemma_placed_once(t, n);
        let q = placed_once(t, n);
        assert(r =~= q.push(s.last()));
        assert forall|i: int, j: int| 0 <= i < j < r.len() implies r[i] < r[j] by {
            assert(r[i] == q[i]);
            if j == q.len() {
                assert(q.contains(q[i]));
                assert(t.contains(q[i]) || q[i] == n);
                if q[i] != n {
                    let w = choose|w: int| 0 <= w < t.len() && t[w] == q[i];
                    assert(s[w] < s[s.len() - 1]);
                }
            } else {
                assert(r[j] == q[j]);
            }
        }
        assert forall|x: i64| r.contains(x) <==> (s.contains(x) || x == n) by {
            if r.contains(x) {
                let w = choose|w: int| 0 <= w < r.len() && r[w] == x;
                if w < q.len() {
                    assert(q[w] == x);
                    assert(q.contains(x));
                    assert(t.contains(x) || x == n);
                    if x != n {
                        let v = choose|v: int| 0 <= v < t.len() && t[v] == x;
                        assert(s[v] == x);
                    }
                } else {
                    assert(s[s.len() - 1] == x);
                }
            }
            if s.contains(x) {
                let w = choose|w: int| 0 <= w < s.len() && s[w] == x;
                if w < t.len() {
                    assert(t[w] == x);
                    assert(t.contains(x));
                    assert(q.contains(x));
                    let v = choose|v: int| 0 <= v < q.len() && q[v] == x;
                    assert(r[v] == x);
                } else {
                    assert(r[r.len() - 1] == x);
                }
            }
            if x == n {
                assert(q.contains(n));
                let v = choose|v: int| 0 <= v < q.len() && q[v] == n;
                assert(r[v] == n);
            }
        }
    } else {
        assert(r =~= s.push(n));
        assert forall|i: int, j: int| 0 <= i < j < r.len() implies r[i] < r[j] by {
            assert(r[i] == s[i]);
            if j == s.len() && i < s.len() - 1 {
                assert(s[i] < s[s.len() - 1]);
            }
        }
        assert forall|x: i64| r.contains(x) <==> (s.contains(x) || x == n) by {
            if s.contains(x) {
                let w = choose|w: int| 0 <= w < s.len() && s[w] == x;
                assert(r[w] == x);
            }
            assert(r[s.len() as int] == n);
            if r.contains(x) {
                let w = choose|w: int| 0 <= w < r.len() && r[w] == x;
                if w < s.len() {
                    assert(s[w] == x);
                }
            }
        }
    }
}

/// A history is told in the order of its events, each once, and leaves none out.
pub proof fn histories_are_in_order(s: Seq<i64>)
    ensures
        increasing(in_order(s)),
        forall|x: i64| in_order(s).contains(x) <==> s.contains(x),
    decreases s.len(),
{
    if s.len() > 0 {
        let t = s.drop_last();
        histories_are_in_order(t);
        lemma_placed_once(in_order(t), s.last());
        assert(s =~= t.push(s.last()));
        assert forall|x: i64| in_order(s).contains(x) <==> s.contains(x) by {
            if s.contains(x) && x != s.last() {
                let w = choose|w: int| 0 <= w < s.len() && s[w] == x;
                assert(t[w] == x);
            }
            if t.contains(x) {
                let w = choose|w: int| 0 <= w < t.len() && t[w] == x;
                assert(s[w] == x);
            }
            assert(s[s.len() - 1] == s.last());
        }
    }
}

} // verus!
