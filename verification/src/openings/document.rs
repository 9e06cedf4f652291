//! Reading a whole opening: edges, graph, success condition, artifacts.

use crate::agents::{reference_text, AgentRefModel};
use crate::json::{JsonMap, MapModel};
use crate::openings::graph::{acyclic, arcs_model, arcs_within, is_acyclic, Arcs};
use crate::openings::locate::{locate_key, locate_pattern, place_of, place_of_key, SourceLocation};
use crate::openings::model::{edge_models, expression_models, fault_at, node_models};
use crate::openings::model::{opt_success, port_models, validation, ArtifactsSpec, Edge, EdgeModel};
use crate::openings::model::{Error, Expression, ExpressionModel, Fault, Node, Opening};
use crate::openings::model::{OpeningModel, PortModel, PortReference, SuccessCondition};
use crate::openings::model::SuccessModel;
use crate::openings::nodes::{ids, lemma_nodes_distinct, nodes_of, parse_nodes};
use crate::openings::parser::{agent_of, complains, expect_string_in, expect_string_list};
use crate::openings::parser::{object_field, parse_policy, policy_of, read_object, string_field};
use crate::openings::parser::string_list;
use crate::openings::ports::{condition_of, expression_of, parse_expression, parse_port_predicate};
use crate::openings::ports::{parse_port_reference, port_of};
use crate::text::{all_name_chars, concat, concat3, decimal, decimal_text, index_of, is_name_char};
use crate::text::{is_white_space, lemma_index_of_unique, position};
use crate::text::{texts, trim};
use crate::yaml::{entries_model, entry, items_model, opt_yaml, read_yaml, yaml_document};
use crate::yaml::{yaml_entries, yaml_get, yaml_items, yaml_small, yaml_text, EntryModels, Yaml};
use crate::yaml::YamlModel;
use vstd::prelude::*;

verus! {

/// The place of an edge: of its source port, or of the list of edges where it has none.
pub open spec fn edge_place(source: Seq<char>, y: YamlModel) -> (int, int) {
    match yaml_entries(y) {
        Some(m) => match yaml_get(m, "from"@) {
            Some(v) => match yaml_text(v) {
                Some(raw) => place_of(source, "from: "@ + raw),
                None => place_of_key(source, "edges"@),
            },
            None => place_of_key(source, "edges"@),
        },
        None => place_of_key(source, "edges"@),
    }
}

fn locate_edge(source: &str, y: &Yaml) -> (r: SourceLocation)
    ensures
        r.at() == edge_place(source@, y@),
{
    if let Some(m) = y.as_entries() {
        if let Some(v) = entry(m, "from") {
            if let Some(raw) = v.as_text() {
                let pattern = concat("from: ", raw.as_str());
                return locate_pattern(source, pattern.as_str());
            }
        }
    }
    locate_key(source, "edges")
}

pub open spec fn edge_of(y: YamlModel, source: Seq<char>) -> Result<EdgeModel, Fault> {
    let place = edge_place(source, y);
    match yaml_entries(y) {
        None => Err(fault_at("edge entries must be mappings with 'from' and 'to'"@, place)),
        Some(m) => match string_field(m, "from"@, source) {
            Err(f) => Err(f),
            Ok(from_raw) => match string_field(m, "to"@, source) {
                Err(f) => Err(f),
                Ok(to_raw) => match condition_of(from_raw, 0) {
                    Err(c) => Err(fault_at(c, place)),
                    Ok((from, predicate)) => match port_of(to_raw) {
                        Err(c) => Err(fault_at(c, place)),
                        Ok(to) => Ok(EdgeModel { from, predicate, to, location: place }),
                    },
                },
            },
        },
    }
}

fn parse_edge(y: &Yaml, source: &str) -> (r: Result<Edge, Error>)
    ensures
        match (r, edge_of(y@, source@)) {
            (Ok(x), Ok(e)) => x@ == e,
            (Err(e), Err(f)) => complains(e, f),
            _ => false,
        },
{
    let location = locate_edge(source, y);
    let m = match y.as_entries() {
        None => {
            return Err(
                validation(
                    "edge entries must be mappings with 'from' and 'to'".to_owned(),
                    location,
                ),
            );
        },
        Some(m) => m,
    };
    let from_raw = match expect_string_in(m, "from", source) {
        Err(e) => {
            return Err(e);
        },
        Ok(x) => x,
    };
    let to_raw = match expect_string_in(m, "to", source) {
        Err(e) => {
            return Err(e);
        },
        Ok(x) => x,
    };
    let (from, predicate) = match parse_port_predicate(from_raw.as_str(), location) {
        Err(e) => {
            return Err(e);
        },
        Ok(x) => x,
    };
    match parse_port_reference(to_raw.as_str(), location) {
        Err(e) => Err(e),
        Ok(to) => Ok(Edge { from, predicate, to, location }),
    }
}

/// The first `n` edges.
pub open spec fn edges_upto(items: Seq<YamlModel>, n: int, source: Seq<char>) -> Result<
    Seq<EdgeModel>,
    Fault,
>
    decreases n,
{
    if n <= 0 {
        Ok(seq![])
    } else {
        match edges_upto(items, n - 1, source) {
            Err(f) => Err(f),
            Ok(done) => match edge_of(items[n - 1], source) {
                Err(f) => Err(f),
                Ok(edge) => Ok(done.push(edge)),
            },
        }
    }
}

proof fn lemma_edges_stops(items: Seq<YamlModel>, n: int, k: int, source: Seq<char>)
    requires
        0 <= n <= k,
        edges_upto(items, n, source) is Err,
    ensures
        edges_upto(items, k, source) == edges_upto(items, n, source),
    decreases k - n,
{
    if n < k {
        lemma_edges_stops(items, n, k - 1, source);
    }
}

pub open spec fn edges_of(v: YamlModel, source: Seq<char>) -> Result<Seq<EdgeModel>, Fault> {
    match yaml_items(v) {
        None => Err(fault_at("edges must be a sequence"@, place_of_key(source, "edges"@))),
        Some(items) => edges_upto(items, items.len() as int, source),
    }
}

fn parse_edges(v: &Yaml, source: &str) -> (r: Result<Vec<Edge>, Error>)
    ensures
        match (r, edges_of(v@, source@)) {
            (Ok(x), Ok(y)) => edge_models(x@) == y,
            (Err(e), Err(f)) => complains(e, f),
            _ => false,
        },
{
    let items = match v.as_items() {
        None => {
            return Err(
                validation("edges must be a sequence".to_owned(), locate_key(source, "edges")),
            );
        },
        Some(items) => items,
    };
    let ghost all = items_model(items@);
    let mut edges: Vec<Edge> = Vec::new();
    let mut i: usize = 0;
    assert(edge_models(edges@) =~= seq![]);
    while i < items.len()
        invariant
            i <= items.len(),
            all == items_model(items@),
            yaml_items(v@) == Some(all),
            edges_upto(all, i as int, source@) == Ok::<_, Fault>(edge_models(edges@)),
        decreases items.len() - i,
    {
        assert(all[i as int] == items@[i as int]@);
        match parse_edge(&items[i], source) {
            Err(e) => {
                proof {
                    lemma_edges_stops(all, i + 1, all.len() as int, source@);
                }
                return Err(e);
            },
            Ok(edge) => {
                let ghost o = edges@;
                edges.push(edge);
                assert(edge_models(edges@) =~= edge_models(o).push(edge@));
            },
        }
        i += 1;
    }
    Ok(edges)
}

/// The first `n` expressions of a success condition.
pub open spec fn expressions_upto(items: Seq<YamlModel>, n: int, place: (int, int)) -> Result<
    Seq<ExpressionModel>,
    Fault,
>
    decreases n,
{
    if n <= 0 {
        Ok(seq![])
    } else {
        match expressions_upto(items, n - 1, place) {
            Err(f) => Err(f),
            Ok(done) => match yaml_text(items[n - 1]) {
                None => Err(fault_at("success expressions must be strings"@, place)),
                Some(raw) => match expression_of(raw) {
                    Err(c) => Err(fault_at(c, place)),
                    Ok(x) => Ok(done.push(x)),
                },
            },
        }
    }
}

proof fn lemma_expressions_stops(items: Seq<YamlModel>, n: int, k: int, place: (int, int))
    requires
        0 <= n <= k,
        expressions_upto(items, n, place) is Err,
    ensures
        expressions_upto(items, k, place) == expressions_upto(items, n, place),
    decreases k - n,
{
    if n < k {
        lemma_expressions_stops(items, n, k - 1, place);
    }
}

/// The expressions of the list `v`, which must not be empty.
pub open spec fn expressions_of(v: YamlModel, complaint: Seq<char>, place: (int, int)) -> Result<
    Seq<ExpressionModel>,
    Fault,
> {
    match yaml_items(v) {
        None => Err(fault_at(complaint, place)),
        Some(items) => if items.len() == 0 {
            Err(fault_at("success expressions must not be empty"@, place))
        } else {
            expressions_upto(items, items.len() as int, place)
        },
    }
}

fn parse_expression_list(v: &Yaml, complaint: &str, loc: SourceLocation) -> (r: Result<
    Vec<Expression>,
    Error,
>)
    ensures
        match (r, expressions_of(v@, complaint@, loc.at())) {
            (Ok(x), Ok(y)) => expression_models(x@) == y,
            (Err(e), Err(f)) => complains(e, f),
            _ => false,
        },
{
    let items = match v.as_items() {
        None => {
            return Err(validation(complaint.to_owned(), loc));
        },
        Some(items) => items,
    };
    if items.len() == 0 {
        return Err(validation("success expressions must not be empty".to_owned(), loc));
    }
    let ghost all = items_model(items@);
    let mut out: Vec<Expression> = Vec::new();
    let mut i: usize = 0;
    assert(expression_models(out@) =~= seq![]);
    while i < items.len()
        invariant
            i <= items.len(),
            items@.len() > 0,
            all == items_model(items@),
            yaml_items(v@) == Some(all),
            expressions_upto(all, i as int, loc.at()) == Ok::<_, Fault>(expression_models(out@)),
        decreases items.len() - i,
    {
        assert(all[i as int] == items@[i as int]@);
        proof {
            if expressions_upto(all, i + 1, loc.at()) is Err {
                lemma_expressions_stops(all, i + 1, all.len() as int, loc.at());
            }
        }
        match items[i].as_text() {
            None => {
                return Err(validation("success expressions must be strings".to_owned(), loc));
            },
            Some(raw) => match parse_expression(raw.as_str(), loc) {
                Err(e) => {
                    return Err(e);
                },
                Ok(x) => {
                    let ghost o = out@;
                    out.push(x);
                    assert(expression_models(out@) =~= expression_models(o).push(x@));
                },
            },
        }
        i += 1;
    }
    Ok(out)
}

pub open spec fn success_of(value: Option<YamlModel>, source: Seq<char>) -> Result<
    Option<SuccessModel>,
    Fault,
> {
    let place = place_of_key(source, "success"@);
    match value {
        None => Ok(None),
        Some(v) => match yaml_entries(v) {
            None => Err(fault_at("success must be a mapping"@, place)),
            Some(m) => match (yaml_get(m, "any_of"@), yaml_get(m, "all_of"@)) {
                (Some(_), Some(_)) => Err(
                    fault_at("success must define either 'any_of' or 'all_of', not both"@, place),
                ),
                (Some(any), None) => match expressions_of(
                    any,
                    "success.any_of must be a sequence"@,
                    place,
                ) {
                    Ok(x) => Ok(Some(SuccessModel::AnyOf(x))),
                    Err(f) => Err(f),
                },
                (None, Some(all)) => match expressions_of(
                    all,
                    "success.all_of must be a sequence"@,
                    place,
                ) {
                    Ok(x) => Ok(Some(SuccessModel::AllOf(x))),
                    Err(f) => Err(f),
                },
                (None, None) => Err(
                    fault_at("success must specify 'any_of' or 'all_of'"@, place),
                ),
            },
        },
    }
}

fn parse_success(value: Option<&Yaml>, source: &str) -> (r: Result<Option<SuccessCondition>, Error>)
    ensures
        match (r, success_of(opt_yaml(value), source@)) {
            (Ok(x), Ok(y)) => opt_success(x) == y,
            (Err(e), Err(f)) => complains(e, f),
            _ => false,
        },
{
    let v = match value {
        None => {
            return Ok(None);
        },
        Some(v) => v,
    };
    let loc = locate_key(source, "success");
    let m = match v.as_entries() {
        None => {
            return Err(validation("success must be a mapping".to_owned(), loc));
        },
        Some(m) => m,
    };
    match (entry(m, "any_of"), entry(m, "all_of")) {
        (Some(_), Some(_)) => Err(
            validation("success must define either 'any_of' or 'all_of', not both".to_owned(), loc),
        ),
        (Some(any), None) => match parse_expression_list(
            any,
            "success.any_of must be a sequence",
            loc,
        ) {
            Ok(x) => Ok(Some(SuccessCondition::AnyOf(x))),
            Err(e) => Err(e),
        },
        (None, Some(all)) => match parse_expression_list(
            all,
            "success.all_of must be a sequence",
            loc,
        ) {
            Ok(x) => Ok(Some(SuccessCondition::AllOf(x))),
            Err(e) => Err(e),
        },
        (None, None) => Err(
            validation("success must specify 'any_of' or 'all_of'".to_owned(), loc),
        ),
    }
}

/// The first `n` ports to save.
pub open spec fn saves_upto(items: Seq<YamlModel>, n: int, place: (int, int)) -> Result<
    Seq<PortModel>,
    Fault,
>
    decreases n,
{
    if n <= 0 {
        Ok(seq![])
    } else {
        match saves_upto(items, n - 1, place) {
            Err(f) => Err(f),
            Ok(done) => match yaml_text(items[n - 1]) {
                None => Err(
                    fault_at(
                        "artifacts.save entry "@ + decimal((n - 1) as nat) + " must be a string"@,
                        place,
                    ),
                ),
                Some(raw) => match port_of(raw) {
                    Err(c) => Err(fault_at(c, place)),
                    Ok(p) => Ok(done.push(p)),
                },
            },
        }
    }
}

proof fn lemma_saves_stops(items: Seq<YamlModel>, n: int, k: int, place: (int, int))
    requires
        0 <= n <= k,
        saves_upto(items, n, place) is Err,
    ensures
        saves_upto(items, k, place) == saves_upto(items, n, place),
    decreases k - n,
{
    if n < k {
        lemma_saves_stops(items, n, k - 1, place);
    }
}

pub open spec fn artifacts_of(value: Option<YamlModel>, source: Seq<char>) -> Result<
    Seq<PortModel>,
    Fault,
> {
    match value {
        None => Ok(seq![]),
        Some(v) => match yaml_entries(v) {
            None => Err(
                fault_at("artifacts must be a mapping"@, place_of_key(source, "artifacts"@)),
            ),
            Some(m) => match yaml_get(m, "save"@) {
                None => Ok(seq![]),
                Some(s) => match yaml_items(s) {
                    None => Err(
                        fault_at(
                            "artifacts.save must be a sequence"@,
                            place_of_key(source, "save"@),
                        ),
                    ),
                    Some(items) => saves_upto(
                        items,
                        items.len() as int,
                        place_of_key(source, "save"@),
                    ),
                },
            },
        },
    }
}

fn parse_artifacts(value: Option<&Yaml>, source: &str) -> (r: Result<ArtifactsSpec, Error>)
    ensures
        match (r, artifacts_of(opt_yaml(value), source@)) {
            (Ok(x), Ok(y)) => port_models(x.save@) == y,
            (Err(e), Err(f)) => complains(e, f),
            _ => false,
        },
{
    let mut save: Vec<PortReference> = Vec::new();
    assert(port_models(save@) =~= seq![]);
    let v = match value {
        None => {
            return Ok(ArtifactsSpec { save });
        },
        Some(v) => v,
    };
    let m = match v.as_entries() {
        None => {
            return Err(
                validation("artifacts must be a mapping".to_owned(), locate_key(source, "artifacts")),
            );
        },
        Some(m) => m,
    };
    let s = match entry(m, "save") {
        None => {
            return Ok(ArtifactsSpec { save });
        },
        Some(s) => s,
    };
    let loc = locate_key(source, "save");
    let items = match s.as_items() {
        None => {
            return Err(validation("artifacts.save must be a sequence".to_owned(), loc));
        },
        Some(items) => items,
    };
    let ghost all = items_model(items@);
    let mut i: usize = 0;
    while i < items.len()
        invariant
            i <= items.len(),
            all == items_model(items@),
            artifacts_of(opt_yaml(value), source@) == saves_upto(all, all.len() as int, loc.at()),
            saves_upto(all, i as int, loc.at()) == Ok::<_, Fault>(port_models(save@)),
        decreases items.len() - i,
    {
        assert(all[i as int] == items@[i as int]@);
        proof {
            if saves_upto(all, i + 1, loc.at()) is Err {
                lemma_saves_stops(all, i + 1, all.len() as int, loc.at());
            }
        }
        match items[i].as_text() {
            None => {
                let n = decimal_text(i as u64);
                return Err(
                    validation(
                        concat3("artifacts.save entry ", n.as_str(), " must be a string"),
                        loc,
                    ),
                );
            },
            Some(raw) => match parse_port_reference(raw.as_str(), loc) {
                Err(e) => {
                    return Err(e);
                },
                Ok(p) => {
                    let ghost o = save@;
                    save.push(p);
                    assert(port_models(save@) =~= port_models(o).push(p@));
                },
            },
        }
        i += 1;
    }
    Ok(ArtifactsSpec { save })
}

/// The complaint about the first of the first `n` edges that names an unknown node.
pub open spec fn unknown_node(names: Seq<Seq<char>>, edges: Seq<EdgeModel>, n: int) -> Option<Fault>
    decreases n,
{
    if n <= 0 {
        None
    } else {
        match unknown_node(names, edges, n - 1) {
            Some(f) => Some(f),
            None => {
                let e = edges[n - 1];
                if !names.contains(e.from.node) {
                    Some(
                        fault_at(
                            "edge references unknown node '"@ + e.from.node + "'"@,
                            e.location,
                        ),
                    )
                } else if !names.contains(e.to.node) {
                    Some(
                        fault_at("edge references unknown node '"@ + e.to.node + "'"@, e.location),
                    )
                } else {
                    None
                }
            },
        }
    }
}

proof fn lemma_unknown_stops(names: Seq<Seq<char>>, edges: Seq<EdgeModel>, n: int, k: int)
    requires
        0 <= n <= k,
        unknown_node(names, edges, n) is Some,
    ensures
        unknown_node(names, edges, k) == unknown_node(names, edges, n),
    decreases k - n,
{
    if n < k {
        lemma_unknown_stops(names, edges, n, k - 1);
    }
}

/// The edges as arcs between the positions of their nodes.
pub open spec fn graph_of(names: Seq<Seq<char>>, edges: Seq<EdgeModel>) -> Arcs {
    edges.map_values(
        |e: EdgeModel| (names.index_of(e.from.node), names.index_of(e.to.node)),
    )
}

/// What is wrong with the graph of an opening.
pub open spec fn graph_fault(names: Seq<Seq<char>>, edges: Seq<EdgeModel>, source: Seq<char>) -> Option<
    Fault,
> {
    match unknown_node(names, edges, edges.len() as int) {
        Some(f) => Some(f),
        None => if acyclic(graph_of(names, edges)) {
            None
        } else {
            Some(
                fault_at(
                    "opening graph contains a cycle; ensure edges form a DAG"@,
                    place_of_key(source, "edges"@),
                ),
            )
        },
    }
}

fn node_names(nodes: &Vec<Node>) -> (r: Vec<String>)
    ensures
        texts(r@) == ids(node_models(nodes@)),
{
    let mut out: Vec<String> = Vec::new();
    let mut i: usize = 0;
    while i < nodes.len()
        invariant
            i <= nodes.len(),
            out@.len() == i,
            forall|k: int| 0 <= k < i ==> (#[trigger] out@[k])@ == nodes@[k].id@,
        decreases nodes.len() - i,
    {
        out.push(nodes[i].id.clone());
        i += 1;
    }
    assert(texts(out@) =~= ids(node_models(nodes@)));
    out
}

/// Accepts a graph whose edges join known nodes and can be laid out without going back.
pub fn validate_graph(nodes: &Vec<Node>, edges: &Vec<Edge>, source: &str) -> (r: Result<(), Error>)
    requires
        ids(node_models(nodes@)).no_duplicates(),
    ensures
        match (r, graph_fault(ids(node_models(nodes@)), edge_models(edges@), source@)) {
            (Ok(_), None) => true,
            (Err(e), Some(f)) => complains(e, f),
            _ => false,
        },
{
    let names = node_names(nodes);
    let ghost known = texts(names@);
    let ghost all = edge_models(edges@);
    let mut arcs: Vec<(usize, usize)> = Vec::new();
    let mut i: usize = 0;
    assert(arcs_model(arcs@) =~= graph_of(known, all).take(0));
    while i < edges.len()
        invariant
            i <= edges.len(),
            all == edge_models(edges@),
            known == texts(names@),
            known == ids(node_models(nodes@)),
            known.no_duplicates(),
            unknown_node(known, all, i as int) is None,
            arcs_model(arcs@) == graph_of(known, all).take(i as int),
            arcs_within(known.len() as int, arcs_model(arcs@)),
        decreases edges.len() - i,
    {
        assert(all[i as int] == edges@[i as int]@);
        proof {
            if unknown_node(known, all, i + 1) is Some {
                lemma_unknown_stops(known, all, i + 1, all.len() as int);
            }
        }
        let a = match position(&names, edges[i].from.node.as_str()) {
            Some(a) => {
                assert(known[a as int] == all[i as int].from.node);
                a
            },
            None => {
                return Err(
                    validation(
                        concat3(
                            "edge references unknown node '",
                            edges[i].from.node.as_str(),
                            "'",
                        ),
                        edges[i].location,
                    ),
                );
            },
        };
        let b = match position(&names, edges[i].to.node.as_str()) {
            Some(b) => {
                assert(known[b as int] == all[i as int].to.node);
                b
            },
            None => {
                return Err(
                    validation(
                        concat3("edge references unknown node '", edges[i].to.node.as_str(), "'"),
                        edges[i].location,
                    ),
                );
            },
        };
        let ghost o = arcs@;
        arcs.push((a, b));
        proof {
            assert(known.index_of(all[i as int].from.node) == a);
            assert(known.index_of(all[i as int].to.node) == b);
            assert(arcs_model(arcs@) =~= arcs_model(o).push((a as int, b as int)));
            assert(graph_of(known, all)[i as int] == (a as int, b as int));
            assert(graph_of(known, all).take(i + 1) =~= graph_of(known, all).take(i as int).push(
                (a as int, b as int),
            ));
        }
        i += 1;
    }
    assert(graph_of(known, all).take(all.len() as int) =~= graph_of(known, all));
    if is_acyclic(names.len(), &arcs) {
        Ok(())
    } else {
        Err(
            validation(
                "opening graph contains a cycle; ensure edges form a DAG".to_owned(),
                locate_key(source, "edges"),
            ),
        )
    }
}

pub ghost struct Head {
    pub version: u32,
    pub name: Seq<char>,
    pub goals: Seq<Seq<char>>,
    pub params: MapModel,
}

/// The fields of an opening before its policy.
pub open spec fn head_of(m: EntryModels, source: Seq<char>) -> Result<Head, Fault> {
    let version = match yaml_get(m, "version"@) {
        Some(v) => yaml_small(v),
        None => None,
    };
    match version {
        None => Err(fault_at("missing required field 'version'"@, (1, 1))),
        Some(version) => if version != 0 {
            Err(
                fault_at(
                    "unsupported DSL version "@ + decimal(version as nat) + "; expected 0"@,
                    place_of_key(source, "version"@),
                ),
            )
        } else {
            let name = match yaml_get(m, "name"@) {
                Some(v) => yaml_text(v),
                None => None,
            };
            match name {
                None => Err(fault_at("missing required field 'name'"@, (1, 1))),
                Some(name) => match string_list(m, "goals"@, source) {
                    Err(f) => Err(f),
                    Ok(goals) => match object_field(
                        m,
                        "params"@,
                        "params must be a mapping"@,
                        source,
                    ) {
                        Err(f) => Err(f),
                        Ok(params) => Ok(Head { version, name, goals, params }),
                    },
                },
            }
        },
    }
}

fn parse_head(m: &Vec<(Yaml, Yaml)>, source: &str) -> (r: Result<
    (u32, String, Vec<String>, JsonMap),
    Error,
>)
    ensures
        match (r, head_of(entries_model(m@), source@)) {
            (Ok(x), Ok(h)) => x.0 == h.version && x.1@ == h.name && texts(x.2@) == h.goals && x.3@
                == h.params,
            (Err(e), Err(f)) => complains(e, f),
            _ => false,
        },
{
    let top = SourceLocation::new(1, 1);
    let version = match entry(m, "version") {
        Some(v) => v.as_small(),
        None => None,
    };
    let version: u32 = match version {
        None => {
            return Err(validation("missing required field 'version'".to_owned(), top));
        },
        Some(n) => n,
    };
    if version != 0 {
        let n = decimal_text(version as u64);
        return Err(
            validation(
                concat3("unsupported DSL version ", n.as_str(), "; expected 0"),
                locate_key(source, "version"),
            ),
        );
    }
    let name = match entry(m, "name") {
        Some(v) => v.as_text(),
        None => None,
    };
    let name = match name {
        None => {
            return Err(validation("missing required field 'name'".to_owned(), top));
        },
        Some(t) => t.clone(),
    };
    let goals = match expect_string_list(m, "goals", source) {
        Err(e) => {
            return Err(e);
        },
        Ok(x) => x,
    };
    match read_object(m, "params", "params must be a mapping", source) {
        Err(e) => Err(e),
        Ok(params) => Ok((version, name, goals, params)),
    }
}

/// The opening in a YAML document. The first complaint ends the reading.
pub open spec fn opening_of(doc: YamlModel, source: Seq<char>) -> Result<OpeningModel, Fault> {
    match yaml_entries(doc) {
        None => Err(fault_at("opening must be a YAML mapping"@, (1, 1))),
        Some(m) => match head_of(m, source) {
            Err(f) => Err(f),
            Ok(head) => match policy_of(yaml_get(m, "policy"@), source) {
                Err(f) => Err(f),
                Ok(policy) => match yaml_get(m, "nodes"@) {
                    None => Err(
                        fault_at(
                            "missing required field 'nodes'"@,
                            place_of_key(source, "nodes"@),
                        ),
                    ),
                    Some(n) => match nodes_of(
                        n,
                        source,
                        head.params,
                        policy.confirm_external == Some(true),
                    ) {
                        Err(f) => Err(f),
                        Ok(nodes) => match yaml_get(m, "edges"@) {
                            None => Err(
                                fault_at(
                                    "missing required field 'edges'"@,
                                    place_of_key(source, "edges"@),
                                ),
                            ),
                            Some(e) => match edges_of(e, source) {
                                Err(f) => Err(f),
                                Ok(edges) => match graph_fault(ids(nodes), edges, source) {
                                    Some(f) => Err(f),
                                    None => match success_of(yaml_get(m, "success"@), source) {
                                        Err(f) => Err(f),
                                        Ok(success) => match artifacts_of(
                                            yaml_get(m, "artifacts"@),
                                            source,
                                        ) {
                                            Err(f) => Err(f),
                                            Ok(artifacts) => Ok(
                                                OpeningModel {
                                                    version: head.version,
                                                    name: head.name,
                                                    goals: head.goals,
                                                    params: head.params,
                                                    policy,
                                                    nodes,
                                                    edges,
                                                    success,
                                                    artifacts,
                                                },
                                            ),
                                        },
                                    },
                                },
                            },
                        },
                    },
                },
            },
        },
    }
}

/// Reads the opening in a YAML document; `source` is the text that the document was read from.
pub fn opening_from(doc: &Yaml, source: &str) -> (r: Result<Opening, Error>)
    ensures
        match (r, opening_of(doc@, source@)) {
            (Ok(x), Ok(o)) => x@ == o,
            (Err(e), Err(f)) => complains(e, f),
            _ => false,
        },
{
    let m = match doc.as_entries() {
        None => {
            return Err(
                validation(
                    "opening must be a YAML mapping".to_owned(),
                    SourceLocation::new(1, 1),
                ),
            );
        },
        Some(m) => m,
    };
    let (version, name, goals, params) = match parse_head(m, source) {
        Err(e) => {
            return Err(e);
        },
        Ok(x) => x,
    };
    let policy = match parse_policy(entry(m, "policy"), source) {
        Err(e) => {
            return Err(e);
        },
        Ok(x) => x,
    };
    let n = match entry(m, "nodes") {
        None => {
            return Err(
                validation(
                    "missing required field 'nodes'".to_owned(),
                    locate_key(source, "nodes"),
                ),
            );
        },
        Some(n) => n,
    };
    let confirm = match policy.confirm_external {
        Some(b) => b,
        None => false,
    };
    let nodes = match parse_nodes(n, source, &params, confirm) {
        Err(e) => {
            return Err(e);
        },
        Ok(x) => x,
    };
    let e = match entry(m, "edges") {
        None => {
            return Err(
                validation(
                    "missing required field 'edges'".to_owned(),
                    locate_key(source, "edges"),
                ),
            );
        },
        Some(e) => e,
    };
    let edges = match parse_edges(e, source) {
        Err(e) => {
            return Err(e);
        },
        Ok(x) => x,
    };
    proof {
        let items = yaml_items(n@)->0;
        lemma_nodes_distinct(items, items.len() as int, source@, params@, confirm);
    }
    match validate_graph(&nodes, &edges, source) {
        Err(e) => {
            return Err(e);
        },
        Ok(_) => {},
    }
    let success = match parse_success(entry(m, "success"), source) {
        Err(e) => {
            return Err(e);
        },
        Ok(x) => x,
    };
    match parse_artifacts(entry(m, "artifacts"), source) {
        Err(e) => Err(e),
        Ok(artifacts) => Ok(
            Opening {
                version,
                name,
                goals,
                params,
                policy,
                nodes,
                edges,
                success,
                artifacts,
            },
        ),
    }
}

/// The count after `n`, or `n` where that would not fit.
pub open spec fn next_count(n: usize) -> int {
    if n < usize::MAX {
        n + 1
    } else {
        n as int
    }
}

fn one_more(n: usize) -> (r: usize)
    ensures
        r == next_count(n),
{
    if n < usize::MAX {
        n + 1
    } else {
        n
    }
}

/// The error for a text that is no YAML: the reader's message and place, which counts from zero.
pub open spec fn unreadable(message: Seq<char>, place: Option<(usize, usize)>) -> Fault {
    let (line, column) = match place {
        Some(p) => p,
        None => (0usize, 0usize),
    };
    Fault { message, line: next_count(line), column: next_count(column) }
}

/// Reads an opening from its source.
pub fn parse_opening_str(source: &str) -> (r: Result<Opening, Error>)
    ensures
        match yaml_document(source@) {
            Err((m, p)) => r matches Err(e) && e is Parse && e.fault() == unreadable(m, p),
            Ok(doc) => match (r, opening_of(doc, source@)) {
                (Ok(x), Ok(o)) => x@ == o && well_formed(o),
                (Err(e), Err(f)) => complains(e, f),
                _ => false,
            },
        },
{
    proof {
        if yaml_document(source@) is Ok && opening_of(yaml_document(source@)->Ok_0, source@) is Ok {
            read_openings_are_well_formed(yaml_document(source@)->Ok_0, source@);
        }
    }
    match read_yaml(source) {
        Err((message, place)) => {
            let (line, column) = match place {
                Some(p) => p,
                None => (0usize, 0usize),
            };
            Err(Error::Parse { message, line: one_more(line), column: one_more(column) })
        },
        Ok(doc) => opening_from(&doc, source),
    }
}

/// Whether an opening can be run: its nodes have different names, its edges join them and never
/// lead back.
pub open spec fn well_formed(o: OpeningModel) -> bool {
    &&& o.version == 0
    &&& o.nodes.len() > 0
    &&& ids(o.nodes).no_duplicates()
    &&& forall|k: int|
        0 <= k < o.edges.len() ==> ids(o.nodes).contains((#[trigger] o.edges[k]).from.node)
            && ids(o.nodes).contains(o.edges[k].to.node)
    &&& acyclic(graph_of(ids(o.nodes), o.edges))
}

proof fn lemma_known(names: Seq<Seq<char>>, edges: Seq<EdgeModel>, n: int, k: int)
    requires
        0 <= k < n <= edges.len(),
        unknown_node(names, edges, n) is None,
    ensures
        names.contains(edges[k].from.node),
        names.contains(edges[k].to.node),
    decreases n,
{
    if k < n - 1 {
        lemma_known(names, edges, n - 1, k);
    }
}

/// Every opening that is read is well formed.
pub proof fn read_openings_are_well_formed(doc: YamlModel, source: Seq<char>)
    requires
        opening_of(doc, source) is Ok,
    ensures
        well_formed(opening_of(doc, source)->Ok_0),
{
    let o = opening_of(doc, source)->Ok_0;
    let m = yaml_entries(doc)->0;
    let items = yaml_items(yaml_get(m, "nodes"@)->0)->0;
    lemma_nodes_distinct(
        items,
        items.len() as int,
        source,
        o.params,
        o.policy.confirm_external == Some(true),
    );
    assert forall|k: int| 0 <= k < o.edges.len() implies ids(o.nodes).contains(
        (#[trigger] o.edges[k]).from.node,
    ) && ids(o.nodes).contains(o.edges[k].to.node) by {
        lemma_known(ids(o.nodes), o.edges, o.edges.len() as int, k);
    }
}

proof fn lemma_name_char_visible(c: char)
    requires
        is_name_char(c),
    ensures
        !is_white_space(c),
        c != '@',
{
}

proof fn lemma_trim_name(s: Seq<char>)
    requires
        s.len() > 0,
        !is_white_space(s[0]),
        !is_white_space(s.last()),
    ensures
        trim(s) == s,
{
}

/// A reference to an agent reads back as it was written.
pub proof fn agent_reference_reads_back(r: AgentRefModel, source: Seq<char>, place: (int, int))
    requires
        r.name.len() > 0,
        all_name_chars(r.name),
        r.variant matches Some(v) ==> v.len() > 0 && all_name_chars(v),
    ensures
        agent_of(reference_text(r), source, place) == Ok::<_, Fault>(r),
{
    reveal_strlit("@");
    let t = reference_text(r);
    lemma_name_char_visible(r.name[0]);
    lemma_name_char_visible(r.name.last());
    lemma_trim_name(r.name);
    assert forall|j: int| 0 <= j < r.name.len() implies r.name[j] != '@' by {
        lemma_name_char_visible(r.name[j]);
    }
    match r.variant {
        Some(v) => {
            lemma_name_char_visible(v[0]);
            lemma_name_char_visible(v.last());
            lemma_trim_name(v);
            let n = r.name.len() as int;
            assert(t[n] == '@');
            assert(t[0] == r.name[0]);
            assert(t.last() == v.last());
            lemma_trim_name(t);
            assert forall|j: int| 0 <= j < n implies t[j] != '@' by {
                assert(t[j] == r.name[j]);
            }
            lemma_index_of_unique(t, '@', n);
            assert(t.take(n) =~= r.name);
            assert(t.skip(n + 1) =~= v);
        },
        None => {
            lemma_index_of_unique(t, '@', t.len() as int);
        },
    }
}

} // verus!
