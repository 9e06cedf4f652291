//! What reading an opening promises: what is written is what is read.

use crate::json::{map_get, JsonModel, MapModel};
use crate::openings::document::{edge_of, edges_upto, expressions_upto, opening_of};
use crate::openings::locate::{first_at, lemma_first_at};
use crate::openings::model::{ComparisonOp, EdgeModel, ExpressionModel, Fault, KindModel, LiteralModel};
use crate::openings::model::{NodeModel, OpeningModel, PortModel, PredicateModel, SuccessModel};
use crate::openings::nodes::{ids, node_of, nodes_upto};
use crate::openings::parser::{object_field, use_of};
use crate::openings::ports::{condition_of, expression_of, literal_of, operator, port_of};
use crate::openings::templates::{filled, filled_fields, filled_map, filled_text};
use crate::openings::templates::{has_braces, stray, template_param};
use crate::text::{all_name_chars, has_char, is_white_space, lemma_index_of_unique, occurs_at, trim};
use crate::yaml::{yaml_bool, yaml_entries, yaml_get, yaml_items, yaml_small, yaml_text, yaml_unsigned};
use crate::yaml::{EntryModels, YamlModel};
use vstd::prelude::*;

verus! {

proof fn lemma_trim_stays(s: Seq<char>)
    requires
        s.len() > 0,
        !is_white_space(s[0]),
        !is_white_space(s.last()),
    ensures
        trim(s) == s,
{
}

/// A node and a port with a dot between them are that port of that node.
pub proof fn ports_read_back(node: Seq<char>, port: Seq<char>)
    requires
        node.len() > 0,
        port.len() > 0,
        forall|i: int| 0 <= i < node.len() ==> #[trigger] node[i] != '.',
        !is_white_space(node[0]),
        !is_white_space(port.last()),
    ensures
        port_of(node.push('.') + port) == Ok::<PortModel, Seq<char>>(PortModel { node, port }),
{
    let raw = node.push('.') + port;
    assert(raw[0] == node[0]);
    assert(raw.last() == port.last());
    lemma_trim_stays(raw);
    assert(raw[node.len() as int] == '.');
    assert forall|j: int| 0 <= j < node.len() implies raw[j] != '.' by {
        assert(raw[j] == node[j]);
    }
    lemma_index_of_unique(raw, '.', node.len() as int);
    assert(raw.take(node.len() as int) =~= node);
    assert(raw.skip((node.len() + 1) as int) =~= port);
}

/// Whether a character can stand in a sign of comparison.
pub open spec fn is_sign(c: char) -> bool {
    c == '<' || c == '>' || c == '=' || c == '!'
}

/// Whether no character of a text can stand in a sign of comparison.
pub open spec fn signless(s: Seq<char>) -> bool {
    forall|i: int| 0 <= i < s.len() ==> !is_sign(#[trigger] s[i])
}

proof fn lemma_sign_at(left: Seq<char>, sign: Seq<char>, right: Seq<char>, needle: Seq<char>, i: int)
    requires
        signless(left),
        signless(right),
        1 <= needle.len() <= 2,
        1 <= sign.len() <= 2,
        forall|k: int| 0 <= k < needle.len() ==> is_sign(#[trigger] needle[k]),
        occurs_at(left + sign + right, needle, i),
    ensures
        left.len() <= i,
        i + needle.len() <= left.len() + sign.len(),
        forall|k: int| 0 <= k < needle.len() ==> #[trigger] needle[k] == sign[i - left.len() + k],
{
    let raw = left + sign + right;
    let part = raw.subrange(i, i + needle.len());
    assert forall|k: int| 0 <= k < needle.len() implies is_sign(#[trigger] raw[i + k]) by {
        assert(part[k] == needle[k]);
        assert(part[k] == raw[i + k]);
    }
    assert(is_sign(raw[i + 0]));
    assert(is_sign(raw[i + (needle.len() - 1)]));
    if i < left.len() {
        assert(raw[i] == left[i]);
    }
    let e = i + needle.len() - 1;
    if e >= left.len() + sign.len() {
        assert(raw[e] == right[e - left.len() - sign.len()]);
    }
    assert forall|k: int| 0 <= k < needle.len() implies #[trigger] needle[k] == sign[i - left.len() + k] by {
        assert(part[k] == raw[i + k]);
        assert(raw[i + k] == sign[i + k - left.len()]);
    }
}

proof fn lemma_signs()
    ensures
        operator(0).symbol_text() == seq!['>', '='],
        operator(1).symbol_text() == seq!['<', '='],
        operator(2).symbol_text() == seq!['=', '='],
        operator(3).symbol_text() == seq!['!', '='],
        operator(4).symbol_text() == seq!['>'],
        operator(5).symbol_text() == seq!['<'],
{
    reveal_strlit(">=");
    reveal_strlit("<=");
    reveal_strlit("==");
    reveal_strlit("!=");
    reveal_strlit(">");
    reveal_strlit("<");
    assert(">="@ =~= seq!['>', '=']);
    assert("<="@ =~= seq!['<', '=']);
    assert("=="@ =~= seq!['=', '=']);
    assert("!="@ =~= seq!['!', '=']);
    assert(">"@ =~= seq!['>']);
    assert("<"@ =~= seq!['<']);
}

proof fn lemma_other_signs(left: Seq<char>, right: Seq<char>, k: int, j: int)
    requires
        signless(left),
        signless(right),
        0 <= j < k < 6,
    ensures
        first_at(left + operator(k).symbol_text() + right, operator(j).symbol_text(), 0) is None,
{
    lemma_signs();
    let sign = operator(k).symbol_text();
    let needle = operator(j).symbol_text();
    let raw = left + sign + right;
    assert forall|i: int| 0 <= i implies !occurs_at(raw, needle, i) by {
        if occurs_at(raw, needle, i) {
            lemma_sign_at(left, sign, right, needle, i);
            assert(needle[0] == sign[i - left.len() + 0]);
            if needle.len() == 2 {
                assert(needle[1] == sign[i - left.len() + 1]);
            }
        }
    }
    lemma_first_at(raw, needle, 0, None);
}

proof fn lemma_own_sign(left: Seq<char>, right: Seq<char>, k: int)
    requires
        signless(left),
        signless(right),
        0 <= k < 6,
    ensures
        first_at(left + operator(k).symbol_text() + right, operator(k).symbol_text(), 0) == Some(
            left.len() as int,
        ),
{
    lemma_signs();
    let sign = operator(k).symbol_text();
    let raw = left + sign + right;
    let at = left.len() as int;
    assert(raw.subrange(at, at + sign.len()) =~= sign);
    assert forall|i: int| 0 <= i < at implies !occurs_at(raw, sign, i) by {
        if occurs_at(raw, sign, i) {
            lemma_sign_at(left, sign, right, sign, i);
        }
    }
    lemma_first_at(raw, sign, 0, Some(at));
}

/// A port, a sign of comparison and a literal are read as such, with the operator that the sign
/// stands for; white space around them does not count.
pub proof fn comparisons_read_back(left: Seq<char>, op: ComparisonOp, right: Seq<char>)
    requires
        signless(left),
        signless(right),
        port_of(trim(left)) is Ok,
        literal_of(trim(right)) is Some,
    ensures
        condition_of(left + op.symbol_text() + right, 0) == Ok::<_, Seq<char>>(
            (
                port_of(trim(left))->Ok_0,
                Some(PredicateModel { op, value: literal_of(trim(right))->0 }),
            ),
        ),
{
    let k: int = match op {
        ComparisonOp::Gte => 0,
        ComparisonOp::Lte => 1,
        ComparisonOp::Eq => 2,
        ComparisonOp::NotEq => 3,
        ComparisonOp::Gt => 4,
        ComparisonOp::Lt => 5,
    };
    assert(operator(k) == op);
    let raw = left + op.symbol_text() + right;
    lemma_own_sign(left, right, k);
    assert(raw.take(left.len() as int) =~= left);
    assert(raw.skip((left.len() + op.symbol_text().len()) as int) =~= right);
    lemma_read_from(left, right, k, k);
}

proof fn lemma_read_from(left: Seq<char>, right: Seq<char>, k: int, j: int)
    requires
        signless(left),
        signless(right),
        0 <= j <= k < 6,
    ensures
        condition_of(left + operator(k).symbol_text() + right, 0) == condition_of(
            left + operator(k).symbol_text() + right,
            j,
        ),
    decreases j,
{
    if j > 0 {
        lemma_read_from(left, right, k, j - 1);
        lemma_other_signs(left, right, k, j - 1);
    }
}

/// A text without signs of comparison is a port without a condition.
pub proof fn plain_ports_have_no_condition(raw: Seq<char>)
    requires
        signless(raw),
    ensures
        condition_of(raw, 0) == match port_of(trim(raw)) {
            Ok(p) => Ok::<(PortModel, Option<PredicateModel>), Seq<char>>((p, None)),
            Err(c) => Err(c),
        },
{
    lemma_signs();
    assert forall|j: int| 0 <= j < 6 implies first_at(raw, #[trigger] operator(j).symbol_text(), 0) is None by {
        let needle = operator(j).symbol_text();
        assert forall|i: int| 0 <= i implies !occurs_at(raw, needle, i) by {
            if occurs_at(raw, needle, i) {
                assert(raw.subrange(i, i + needle.len())[0] == needle[0]);
                assert(is_sign(raw[i]));
            }
        }
        lemma_first_at(raw, needle, 0, None);
    }
    reveal_with_fuel(condition_of, 7);
    assert(first_at(raw, operator(0).symbol_text(), 0) is None);
    assert(first_at(raw, operator(1).symbol_text(), 0) is None);
    assert(first_at(raw, operator(2).symbol_text(), 0) is None);
    assert(first_at(raw, operator(3).symbol_text(), 0) is None);
    assert(first_at(raw, operator(4).symbol_text(), 0) is None);
    assert(first_at(raw, operator(5).symbol_text(), 0) is None);
}

/// The word `exists` with a port in brackets asks whether the port has a value.
pub proof fn existence_reads_back(port: Seq<char>)
    requires
        port_of(trim(port)) is Ok,
    ensures
        expression_of("exists("@ + port + ")"@) == Ok::<ExpressionModel, Seq<char>>(
            ExpressionModel::Exists(port_of(trim(port))->Ok_0),
        ),
{
    reveal_strlit("exists(");
    reveal_strlit(")");
    let raw = "exists("@ + port + ")"@;
    let u = raw.skip("exists("@.len() as int);
    assert(raw.take("exists("@.len() as int) =~= "exists("@);
    assert(u =~= port + ")"@);
    assert(u.skip(u.len() - 1) =~= ")"@);
    assert(u.take(u.len() - 1) =~= port);
}

/// The words for truth values, and what stands between quotes, are read as such.
pub proof fn literals_read_back(t: Seq<char>)
    ensures
        literal_of("true"@) == Some(LiteralModel::Bool(true)),
        literal_of("false"@) == Some(LiteralModel::Bool(false)),
        (literal_of(seq!['"'] + t + seq!['"']) matches Some(LiteralModel::String(s)) ==> s == t),
{
    reveal_strlit("true");
    reveal_strlit("false");
    reveal_strlit("\"");
    assert("true"@ != "false"@) by {
        assert("true"@.len() == 4 && "false"@.len() == 5);
    }
    let raw = seq!['"'] + t + seq!['"'];
    let u = raw.skip("\""@.len() as int);
    assert(u =~= t + seq!['"']);
    assert(u.take(u.len() - "\""@.len()) =~= t);
}

/// Whether an edge is what its entry writes.
pub open spec fn edge_fits(y: YamlModel, e: EdgeModel) -> bool {
    yaml_entries(y) matches Some(m) && {
        let from = yaml_get(m, "from"@);
        let to = yaml_get(m, "to"@);
        &&& from is Some && yaml_text(from->0) is Some
        &&& to is Some && yaml_text(to->0) is Some
        &&& condition_of(yaml_text(from->0)->0, 0) == Ok::<_, Seq<char>>((e.from, e.predicate))
        &&& port_of(yaml_text(to->0)->0) == Ok::<PortModel, Seq<char>>(e.to)
    }
}

proof fn lemma_edges_fit(items: Seq<YamlModel>, n: int, source: Seq<char>)
    requires
        0 <= n <= items.len(),
        edges_upto(items, n, source) is Ok,
    ensures
        edges_upto(items, n, source)->Ok_0.len() == n,
        forall|i: int| 0 <= i < n ==> edge_fits(items[i], #[trigger] edges_upto(items, n, source)->Ok_0[i]),
    decreases n,
{
    if n > 0 {
        lemma_edges_fit(items, n - 1, source);
        let before = edges_upto(items, n - 1, source)->Ok_0;
        let all = edges_upto(items, n, source)->Ok_0;
        assert forall|i: int| 0 <= i < n implies edge_fits(items[i], #[trigger] all[i]) by {
            if i < n - 1 {
                assert(all[i] == before[i]);
            } else {
                assert(edge_of(items[n - 1], source)->Ok_0 == all[i]);
            }
        }
    }
}

/// Whether the retries of a node are what its rule writes.
pub open spec fn retry_fits(rule: EntryModels, n: NodeModel) -> bool {
    &&& match yaml_get(rule, "max_attempts"@) {
        None => n.retry.max_attempts == 0,
        Some(x) => yaml_small(x) == Some(n.retry.max_attempts),
    }
    &&& match (yaml_get(rule, "initial_ms"@), yaml_get(rule, "backoff_ms"@)) {
        (Some(x), _) => yaml_unsigned(x) == Some(n.retry.initial_backoff_ms),
        (None, Some(x)) => yaml_unsigned(x) == Some(n.retry.initial_backoff_ms),
        (None, None) => n.retry.initial_backoff_ms == 100,
    }
    &&& match yaml_get(rule, "max_ms"@) {
        None => n.retry.max_backoff_ms is None,
        Some(x) => n.retry.max_backoff_ms is Some && n.retry.max_backoff_ms == yaml_unsigned(x),
    }
}

/// Whether a node is what its entry writes.
pub open spec fn node_fits(y: YamlModel, source: Seq<char>, params: MapModel, n: NodeModel) -> bool {
    yaml_entries(y) matches Some(m) && {
        let id = yaml_get(m, "id"@);
        let work = yaml_get(m, "use"@);
        &&& id is Some && yaml_text(id->0) == Some(n.id)
        &&& work is Some && yaml_text(work->0) is Some && use_of(
            yaml_text(work->0)->0,
            source,
            n.location,
        ) == Ok::<KindModel, Fault>(n.kind)
        &&& object_field(m, "with"@, "node.with must be a mapping"@, source) matches Ok(written) && n.with
            == filled_map(written, params).0 && filled_map(written, params).1 is None
        &&& match yaml_get(m, "timeout_ms"@) {
            None => n.timeout_ms is None,
            Some(v) => n.timeout_ms is Some && n.timeout_ms == yaml_unsigned(v),
        }
        &&& match yaml_get(m, "budget_tokens"@) {
            None => n.budget_tokens is None,
            Some(v) => n.budget_tokens is Some && n.budget_tokens == yaml_small(v),
        }
        &&& match yaml_get(m, "retry"@) {
            None => n.retry.max_attempts == 0,
            Some(v) => yaml_entries(v) is Some && retry_fits(yaml_entries(v)->0, n),
        }
    }
}

proof fn lemma_node_fits(
    y: YamlModel,
    seen: Seq<Seq<char>>,
    source: Seq<char>,
    params: MapModel,
    confirm: bool,
)
    requires
        node_of(y, seen, source, params, confirm) is Ok,
    ensures
        node_fits(y, source, params, node_of(y, seen, source, params, confirm)->Ok_0),
        !seen.contains(node_of(y, seen, source, params, confirm)->Ok_0.id),
{
}

proof fn lemma_nodes_fit(
    items: Seq<YamlModel>,
    n: int,
    source: Seq<char>,
    params: MapModel,
    confirm: bool,
)
    requires
        0 <= n <= items.len(),
        nodes_upto(items, n, source, params, confirm) is Ok,
    ensures
        nodes_upto(items, n, source, params, confirm)->Ok_0.len() == n,
        forall|i: int|
            0 <= i < n ==> node_fits(
                items[i],
                source,
                params,
                #[trigger] nodes_upto(items, n, source, params, confirm)->Ok_0[i],
            ),
    decreases n,
{
    if n > 0 {
        lemma_nodes_fit(items, n - 1, source, params, confirm);
        let before = nodes_upto(items, n - 1, source, params, confirm)->Ok_0;
        let all = nodes_upto(items, n, source, params, confirm)->Ok_0;
        assert forall|i: int| 0 <= i < n implies node_fits(items[i], source, params, #[trigger] all[i]) by {
            if i < n - 1 {
                assert(all[i] == before[i]);
            } else {
                lemma_node_fits(items[i], ids(before), source, params, confirm);
            }
        }
    }
}

/// Whether a part of a success condition is what its text writes.
pub open spec fn part_fits(y: YamlModel, part: ExpressionModel) -> bool {
    yaml_text(y) is Some && expression_of(yaml_text(y)->0) is Ok && expression_of(yaml_text(y)->0)->Ok_0 == part
}

proof fn lemma_expressions_fit(items: Seq<YamlModel>, n: int, place: (int, int))
    requires
        0 <= n <= items.len(),
        expressions_upto(items, n, place) is Ok,
    ensures
        expressions_upto(items, n, place)->Ok_0.len() == n,
        forall|i: int|
            0 <= i < n ==> part_fits(items[i], #[trigger] expressions_upto(items, n, place)->Ok_0[i]),
    decreases n,
{
    if n > 0 {
        lemma_expressions_fit(items, n - 1, place);
        let before = expressions_upto(items, n - 1, place)->Ok_0;
        let all = expressions_upto(items, n, place)->Ok_0;
        assert forall|i: int| 0 <= i < n implies part_fits(items[i], #[trigger] all[i]) by {
            if i < n - 1 {
                assert(all[i] == before[i]);
            }
        }
    }
}

/// An opening has the nodes that are written under `nodes`, in their order, each with its name, its
/// work and its limits.
pub proof fn nodes_are_those_written(doc: YamlModel, source: Seq<char>, i: int)
    requires
        opening_of(doc, source) is Ok,
    ensures
        ({
            let o = opening_of(doc, source)->Ok_0;
            let m = yaml_entries(doc)->0;
            let items = yaml_items(yaml_get(m, "nodes"@)->0)->0;
            &&& o.nodes.len() == items.len()
            &&& 0 <= i < items.len() ==> node_fits(items[i], source, o.params, o.nodes[i])
        }),
{
    let o = opening_of(doc, source)->Ok_0;
    let m = yaml_entries(doc)->0;
    let items = yaml_items(yaml_get(m, "nodes"@)->0)->0;
    lemma_nodes_fit(
        items,
        items.len() as int,
        source,
        o.params,
        o.policy.confirm_external == Some(true),
    );
}

/// An opening has the edges that are written under `edges`, in their order: from the port and under
/// the condition behind `from`, to the port behind `to`.
pub proof fn edges_are_those_written(doc: YamlModel, source: Seq<char>, i: int)
    requires
        opening_of(doc, source) is Ok,
    ensures
        ({
            let o = opening_of(doc, source)->Ok_0;
            let m = yaml_entries(doc)->0;
            let items = yaml_items(yaml_get(m, "edges"@)->0)->0;
            &&& o.edges.len() == items.len()
            &&& 0 <= i < items.len() ==> edge_fits(items[i], o.edges[i])
        }),
{
    let m = yaml_entries(doc)->0;
    let items = yaml_items(yaml_get(m, "edges"@)->0)->0;
    lemma_edges_fit(items, items.len() as int, source);
}

/// An opening has the name, the limits and the success condition that are written in it.
pub proof fn heads_are_those_written(doc: YamlModel, source: Seq<char>, i: int)
    requires
        opening_of(doc, source) is Ok,
    ensures
        ({
            let o = opening_of(doc, source)->Ok_0;
            let m = yaml_entries(doc)->0;
            &&& yaml_get(m, "name"@) is Some && yaml_text(yaml_get(m, "name"@)->0) == Some(o.name)
            &&& match yaml_get(m, "success"@) {
                None => o.success is None,
                Some(v) => yaml_entries(v) is Some && success_fits(yaml_entries(v)->0, o.success, i),
            }
            &&& match yaml_get(m, "policy"@) {
                None => o.policy.timeout_ms is None && o.policy.budget_tokens is None
                    && o.policy.confirm_external is None,
                Some(v) => yaml_entries(v) is Some && policy_fits(yaml_entries(v)->0, o),
            }
        }),
{
    let m = yaml_entries(doc)->0;
    if let Some(v) = yaml_get(m, "success"@) {
        let place = crate::openings::locate::place_of_key(source, "success"@);
        let s = yaml_entries(v)->0;
        if let Some(list) = yaml_get(s, "any_of"@) {
            let items = yaml_items(list)->0;
            lemma_expressions_fit(items, items.len() as int, place);
        }
        if let Some(list) = yaml_get(s, "all_of"@) {
            let items = yaml_items(list)->0;
            lemma_expressions_fit(items, items.len() as int, place);
        }
    }
}

/// Whether the policy of an opening is what is written.
pub open spec fn policy_fits(p: EntryModels, o: OpeningModel) -> bool {
    &&& match yaml_get(p, "timeout_ms"@) {
        None => o.policy.timeout_ms is None,
        Some(x) => o.policy.timeout_ms is Some && o.policy.timeout_ms == yaml_unsigned(x),
    }
    &&& match yaml_get(p, "budget_tokens"@) {
        None => o.policy.budget_tokens is None,
        Some(x) => o.policy.budget_tokens is Some && o.policy.budget_tokens == yaml_small(x),
    }
    &&& match yaml_get(p, "confirm_external"@) {
        None => o.policy.confirm_external is None,
        Some(x) => o.policy.confirm_external is Some && o.policy.confirm_external == yaml_bool(x),
    }
}

/// Whether the parts of a success condition are what its list writes.
pub open spec fn parts_fit(list: YamlModel, parts: Seq<ExpressionModel>, i: int) -> bool {
    let items = yaml_items(list)->0;
    &&& yaml_items(list) is Some
    &&& parts.len() == items.len()
    &&& parts.len() > 0
    &&& 0 <= i < items.len() ==> part_fits(items[i], parts[i])
}

/// Whether a success condition is what is written.
pub open spec fn success_fits(s: EntryModels, success: Option<SuccessModel>, i: int) -> bool {
    match (yaml_get(s, "any_of"@), yaml_get(s, "all_of"@)) {
        (Some(list), None) => success matches Some(SuccessModel::AnyOf(parts)) && parts_fit(list, parts, i),
        (None, Some(list)) => success matches Some(SuccessModel::AllOf(parts)) && parts_fit(list, parts, i),
        _ => false,
    }
}

/// A node does the work of the agent, or of the opening, that its `use` names behind the colon.
pub proof fn work_is_what_is_named(rest: Seq<char>, source: Seq<char>, place: (int, int))
    requires
        !has_char(rest, ':'),
    ensures
        use_of("opening:"@ + rest, source, place) == Ok::<KindModel, Fault>(KindModel::Opening(rest)),
        use_of("agent:"@ + rest, source, place) matches Ok(k) ==> k is Agent,
{
    reveal_strlit("opening:");
    reveal_strlit("opening");
    reveal_strlit("agent:");
    reveal_strlit("agent");
    let raw = "opening:"@ + rest;
    assert forall|j: int| 0 <= j < 7 implies raw[j] != ':' by {
        assert(raw[j] == "opening:"@[j]);
    }
    lemma_index_of_unique(raw, ':', 7);
    assert(raw.take(7) =~= "opening"@);
    assert(raw.skip(8) =~= rest);
    assert("opening"@ != "agent"@) by {
        assert("opening"@.len() == 7 && "agent"@.len() == 5);
    }
    let other = "agent:"@ + rest;
    assert forall|j: int| 0 <= j < 5 implies other[j] != ':' by {
        assert(other[j] == "agent:"@[j]);
    }
    lemma_index_of_unique(other, ':', 5);
    assert(other.take(5) =~= "agent"@);
    assert(other.skip(6) =~= rest);
}

/// A template stands for the value of its parameter, and a text without braces for itself.
pub proof fn templates_stand_for_their_parameter(name: Seq<char>, params: MapModel, t: Seq<char>)
    requires
        all_name_chars(name),
    ensures
        map_get(params, name) is Some && stray(map_get(params, name)->0) is None ==> filled_text(
            "{{params."@ + name + "}}"@,
            params,
        ) == (map_get(params, name)->0, None::<Seq<char>>),
        map_get(params, name) is None ==> filled_text("{{params."@ + name + "}}"@, params).1 is Some,
        template_param(t) is None && !has_braces(t) ==> filled_text(t, params) == (
            JsonModel::Text(t),
            None::<Seq<char>>,
        ),
{
    reveal_strlit("{{params.");
    reveal_strlit("{{");
    reveal_strlit("}}");
    reveal_strlit("params.");
    let raw = "{{params."@ + name + "}}"@;
    let u = raw.skip(2);
    let inner = "params."@ + name;
    assert(raw.take(2) =~= "{{"@);
    assert(u.skip(u.len() - 2) =~= "}}"@);
    assert(u.take(u.len() - 2) =~= inner);
    assert(inner[0] == 'p');
    if name.len() > 0 {
        assert(inner.last() == name.last());
        assert(crate::text::is_name_char(name[name.len() - 1]));
    } else {
        assert(inner.last() == '.');
    }
    lemma_trim_stays(inner);
    assert(inner.take(7) =~= "params."@);
    assert(inner.skip(7) =~= name);
}

/// Filling in keeps the names of fields and the number of items, and fills in each value by itself.
pub proof fn filling_goes_value_by_value(m: MapModel, params: MapModel, n: int, i: int)
    requires
        0 <= i < n <= m.len(),
        filled_fields(m, params, n).1 is None,
    ensures
        filled_fields(m, params, n).0.len() == n,
        filled_fields(m, params, n).0[i].0 == m[i].0,
        filled_fields(m, params, n).0[i].1 == filled(m[i].1, params).0,
        filled(m[i].1, params).1 is None,
    decreases n,
{
    lemma_fields_len(m, params, n - 1);
    let before = filled_fields(m, params, n - 1).0;
    if i < n - 1 {
        filling_goes_value_by_value(m, params, n - 1, i);
        assert(filled_fields(m, params, n).0[i] == before[i]);
    }
}

proof fn lemma_fields_len(m: MapModel, params: MapModel, n: int)
    requires
        0 <= n <= m.len(),
    ensures
        filled_fields(m, params, n).0.len() == n,
    decreases n,
{
    if n > 0 {
        lemma_fields_len(m, params, n - 1);
    }
}

} // verus!
