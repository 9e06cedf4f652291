//! Predicates on the values at a node's ports, and the success condition of a run.

use crate::json::{list_model, Json, JsonModel, Numeral, NumeralModel};
use crate::openings::model::{expression_models, opt_success, ComparisonOp, Expression};
use crate::openings::model::{ExpressionModel, Literal, LiteralModel, Predicate, PredicateModel};
use crate::openings::model::{SuccessCondition, SuccessModel};
use crate::openings::values::{port_get, NodeOutputs, PortsModel};
use crate::text::before;
use crate::text::{place_in, same, spot, text_lt, texts};
use vstd::prelude::*;

verus! {

pub open spec fn int_compares(actual: int, expected: int, op: ComparisonOp) -> bool {
    match op {
        ComparisonOp::Eq => actual == expected,
        ComparisonOp::NotEq => actual != expected,
        ComparisonOp::Gt => actual > expected,
        ComparisonOp::Gte => actual >= expected,
        ComparisonOp::Lt => actual < expected,
        ComparisonOp::Lte => actual <= expected,
    }
}

/// Truth values can be the same or not; they have no order.
pub open spec fn bool_compares(actual: bool, expected: bool, op: ComparisonOp) -> bool {
    match op {
        ComparisonOp::Eq => actual == expected,
        ComparisonOp::NotEq => actual != expected,
        _ => false,
    }
}

pub open spec fn text_compares(actual: Seq<char>, expected: Seq<char>, op: ComparisonOp) -> bool {
    match op {
        ComparisonOp::Eq => actual == expected,
        ComparisonOp::NotEq => actual != expected,
        ComparisonOp::Gt => text_lt(expected, actual),
        ComparisonOp::Gte => !text_lt(actual, expected),
        ComparisonOp::Lt => text_lt(actual, expected),
        ComparisonOp::Lte => !text_lt(expected, actual),
    }
}

fn compare_i128(actual: i128, expected: i128, op: ComparisonOp) -> (r: bool)
    ensures
        r == int_compares(actual as int, expected as int, op),
{
    match op {
        ComparisonOp::Eq => actual == expected,
        ComparisonOp::NotEq => actual != expected,
        ComparisonOp::Gt => actual > expected,
        ComparisonOp::Gte => actual >= expected,
        ComparisonOp::Lt => actual < expected,
        ComparisonOp::Lte => actual <= expected,
    }
}

fn compare_bool(actual: bool, expected: bool, op: ComparisonOp) -> (r: bool)
    ensures
        r == bool_compares(actual, expected, op),
{
    match op {
        ComparisonOp::Eq => actual == expected,
        ComparisonOp::NotEq => actual != expected,
        _ => false,
    }
}

fn compare_string(actual: &str, expected: &str, op: ComparisonOp) -> (r: bool)
    ensures
        r == text_compares(actual@, expected@, op),
{
    match op {
        ComparisonOp::Eq => same(actual, expected),
        ComparisonOp::NotEq => !same(actual, expected),
        ComparisonOp::Gt => before(expected, actual),
        ComparisonOp::Gte => !before(actual, expected),
        ComparisonOp::Lt => before(actual, expected),
        ComparisonOp::Lte => !before(expected, actual),
    }
}

/// Whether one value passes a predicate. `by_float` is the verdict where the comparison is one of
/// floating point numbers.
pub open spec fn value_passes(p: PredicateModel, v: JsonModel, by_float: bool) -> bool {
    match (p.value, v) {
        (LiteralModel::Bool(expected), JsonModel::Bool(actual)) => bool_compares(
            actual,
            expected,
            p.op,
        ),
        (LiteralModel::String(expected), JsonModel::Text(actual)) => text_compares(
            actual,
            expected,
            p.op,
        ),
        (LiteralModel::Integer(expected), JsonModel::Number(n)) => match n {
            NumeralModel::Unsigned(actual) => int_compares(actual as int, expected, p.op),
            NumeralModel::Negative(actual) => int_compares(actual as int, expected, p.op),
            NumeralModel::Float(_) => by_float,
        },
        (LiteralModel::Float(_), JsonModel::Number(_)) => by_float,
        _ => false,
    }
}

/// Entry `i` of a row of verdicts; a missing one is false.
pub open spec fn verdict(row: Seq<bool>, i: int) -> bool {
    0 <= i < row.len() && row[i]
}

/// Whether any of the values passes.
pub open spec fn any_passes(p: PredicateModel, values: Seq<JsonModel>, row: Seq<bool>) -> bool {
    exists|i: int|
        0 <= i < values.len() && value_passes(p, #[trigger] values[i], verdict(row, i))
}

/// Whether any value at the port passes.
pub open spec fn port_passes(
    p: PredicateModel,
    port: Seq<char>,
    outputs: PortsModel,
    row: Seq<bool>,
) -> bool {
    match port_get(outputs, port) {
        Some(values) => any_passes(p, values, row),
        None => false,
    }
}

fn passes(p: &Predicate, v: &Json, by_float: bool) -> (r: bool)
    ensures
        r == value_passes(p@, v@, by_float),
{
    match (&p.value, v) {
        (Literal::Bool(expected), Json::Bool(actual)) => compare_bool(*actual, *expected, p.op),
        (Literal::String(expected), Json::Text(actual)) => compare_string(
            actual.as_str(),
            expected.as_str(),
            p.op,
        ),
        (Literal::Integer(expected), Json::Number(n)) => match n {
            Numeral::Unsigned(actual) => compare_i128(*actual as i128, *expected as i128, p.op),
            Numeral::Negative(actual) => compare_i128(*actual as i128, *expected as i128, p.op),
            Numeral::Float(_) => by_float,
        },
        (Literal::Float(_), Json::Number(_)) => by_float,
        _ => false,
    }
}

/// Whether any value at the port passes the predicate. `floats` holds, for each value, the
/// verdict of the comparison as floating point numbers.
pub fn evaluate_predicate(p: &Predicate, port: &str, outputs: &NodeOutputs, floats: &Vec<bool>) -> (r:
    bool)
    ensures
        r == port_passes(p@, port@, outputs@, floats@),
{
    let values = match outputs.ports.get(port) {
        None => {
            return false;
        },
        Some(values) => values,
    };
    let ghost all = list_model(values@);
    let mut i: usize = 0;
    while i < values.len()
        invariant
            i <= values.len(),
            all == list_model(values@),
            port_get(outputs@, port@) == Some(all),
            forall|j: int|
                0 <= j < i ==> !value_passes(p@, #[trigger] all[j], verdict(floats@, j)),
        decreases values.len() - i,
    {
        assert(all[i as int] == values@[i as int]@);
        let by_float = i < floats.len() && floats[i];
        if passes(p, &values[i], by_float) {
            return true;
        }
        i += 1;
    }
    false
}

/// The outputs of the node at position `node`, once it has given them: the latest.
pub open spec fn cached(cache: Seq<(int, PortsModel)>, node: int) -> Option<PortsModel>
    decreases cache.len(),
{
    if cache.len() == 0 {
        None
    } else if cache.last().0 == node {
        Some(cache.last().1)
    } else {
        cached(cache.drop_last(), node)
    }
}

pub open spec fn cache_model(c: Seq<(usize, NodeOutputs)>) -> Seq<(int, PortsModel)> {
    c.map_values(|e: (usize, NodeOutputs)| (e.0 as int, e.1@))
}

pub(crate) fn find_outputs(cache: &Vec<(usize, NodeOutputs)>, node: usize) -> (r: Option<
    &NodeOutputs,
>)
    ensures
        match r {
            Some(o) => cached(cache_model(cache@), node as int) == Some(o@),
            None => cached(cache_model(cache@), node as int) is None,
        },
{
    let ghost all = cache_model(cache@);
    let mut i: usize = cache.len();
    assert(all.take(i as int) =~= all);
    while i > 0
        invariant
            i <= cache.len(),
            all == cache_model(cache@),
            cached(all, node as int) == cached(all.take(i as int), node as int),
        decreases i,
    {
        let ghost part = all.take(i as int);
        assert(part.last() == all[i - 1]);
        assert(part.drop_last() =~= all.take(i - 1));
        i -= 1;
        if cache[i].0 == node {
            return Some(&cache[i].1);
        }
    }
    None
}

/// The outputs of the node with a given name.
pub open spec fn outputs_of(
    names: Seq<Seq<char>>,
    cache: Seq<(int, PortsModel)>,
    node: Seq<char>,
) -> Option<PortsModel> {
    if spot(names, node) < names.len() {
        cached(cache, spot(names, node))
    } else {
        None
    }
}

pub open spec fn expression_holds(
    e: ExpressionModel,
    names: Seq<Seq<char>>,
    cache: Seq<(int, PortsModel)>,
    row: Seq<bool>,
) -> bool {
    match e {
        ExpressionModel::Exists(r) => match outputs_of(names, cache, r.node) {
            Some(out) => match port_get(out, r.port) {
                Some(values) => values.len() > 0,
                None => false,
            },
            None => false,
        },
        ExpressionModel::Comparison(r, p) => match outputs_of(names, cache, r.node) {
            Some(out) => port_passes(p, r.port, out, row),
            None => false,
        },
    }
}

/// Row `k` of a table of verdicts; a missing one is empty.
pub open spec fn verdict_row(table: Seq<Vec<bool>>, k: int) -> Seq<bool> {
    if 0 <= k < table.len() {
        table[k]@
    } else {
        seq![]
    }
}

pub open spec fn any_holds(
    es: Seq<ExpressionModel>,
    names: Seq<Seq<char>>,
    cache: Seq<(int, PortsModel)>,
    table: Seq<Vec<bool>>,
) -> bool {
    exists|k: int|
        0 <= k < es.len() && expression_holds(#[trigger] es[k], names, cache, verdict_row(table, k))
}

pub open spec fn all_hold(
    es: Seq<ExpressionModel>,
    names: Seq<Seq<char>>,
    cache: Seq<(int, PortsModel)>,
    table: Seq<Vec<bool>>,
) -> bool {
    forall|k: int|
        0 <= k < es.len() ==> expression_holds(
            #[trigger] es[k],
            names,
            cache,
            verdict_row(table, k),
        )
}

/// Whether the success condition holds. Without one, it does.
pub open spec fn success_holds(
    s: Option<SuccessModel>,
    names: Seq<Seq<char>>,
    cache: Seq<(int, PortsModel)>,
    table: Seq<Vec<bool>>,
) -> bool {
    match s {
        None => true,
        Some(SuccessModel::AnyOf(es)) => any_holds(es, names, cache, table),
        Some(SuccessModel::AllOf(es)) => all_hold(es, names, cache, table),
    }
}

fn outputs_named<'a>(
    names: &Vec<String>,
    cache: &'a Vec<(usize, NodeOutputs)>,
    node: &str,
) -> (r: Option<&'a NodeOutputs>)
    ensures
        match r {
            Some(o) => outputs_of(texts(names@), cache_model(cache@), node@) == Some(o@),
            None => outputs_of(texts(names@), cache_model(cache@), node@) is None,
        },
{
    let i = place_in(names, node);
    if i < names.len() {
        find_outputs(cache, i)
    } else {
        None
    }
}

pub fn evaluate_expression(
    e: &Expression,
    names: &Vec<String>,
    cache: &Vec<(usize, NodeOutputs)>,
    floats: &Vec<bool>,
) -> (r: bool)
    ensures
        r == expression_holds(e@, texts(names@), cache_model(cache@), floats@),
{
    match e {
        Expression::Exists(reference) => match outputs_named(
            names,
            cache,
            reference.node.as_str(),
        ) {
            Some(out) => match out.ports.get(reference.port.as_str()) {
                Some(values) => values.len() > 0,
                None => false,
            },
            None => false,
        },
        Expression::Comparison(p) => match outputs_named(names, cache, p.reference.node.as_str()) {
            Some(out) => evaluate_predicate(&p.predicate, p.reference.port.as_str(), out, floats),
            None => false,
        },
    }
}

fn expression_at(
    es: &Vec<Expression>,
    k: usize,
    names: &Vec<String>,
    cache: &Vec<(usize, NodeOutputs)>,
    floats: &Vec<Vec<bool>>,
) -> (r: bool)
    requires
        k < es.len(),
    ensures
        r == expression_holds(
            es@[k as int]@,
            texts(names@),
            cache_model(cache@),
            verdict_row(floats@, k as int),
        ),
{
    if k < floats.len() {
        evaluate_expression(&es[k], names, cache, &floats[k])
    } else {
        let none: Vec<bool> = Vec::new();
        assert(none@ =~= verdict_row(floats@, k as int));
        evaluate_expression(&es[k], names, cache, &none)
    }
}

fn evaluate_any(
    es: &Vec<Expression>,
    names: &Vec<String>,
    cache: &Vec<(usize, NodeOutputs)>,
    floats: &Vec<Vec<bool>>,
) -> (r: bool)
    ensures
        r == any_holds(expression_models(es@), texts(names@), cache_model(cache@), floats@),
{
    let ghost all = expression_models(es@);
    let mut k: usize = 0;
    while k < es.len()
        invariant
            k <= es.len(),
            all == expression_models(es@),
            forall|j: int|
                0 <= j < k ==> !expression_holds(
                    #[trigger] all[j],
                    texts(names@),
                    cache_model(cache@),
                    verdict_row(floats@, j),
                ),
        decreases es.len() - k,
    {
        assert(all[k as int] == es@[k as int]@);
        if expression_at(es, k, names, cache, floats) {
            return true;
        }
        k += 1;
    }
    false
}

fn evaluate_all(
    es: &Vec<Expression>,
    names: &Vec<String>,
    cache: &Vec<(usize, NodeOutputs)>,
    floats: &Vec<Vec<bool>>,
) -> (r: bool)
    ensures
        r == all_hold(expression_models(es@), texts(names@), cache_model(cache@), floats@),
{
    let ghost all = expression_models(es@);
    let mut k: usize = 0;
    while k < es.len()
        invariant
            k <= es.len(),
            all == expression_models(es@),
            forall|j: int|
                0 <= j < k ==> expression_holds(
                    #[trigger] all[j],
                    texts(names@),
                    cache_model(cache@),
                    verdict_row(floats@, j),
                ),
        decreases es.len() - k,
    {
        assert(all[k as int] == es@[k as int]@);
        if !expression_at(es, k, names, cache, floats) {
            return false;
        }
        k += 1;
    }
    true
}

/// Whether the success condition holds of the outputs in `cache`, which names nodes by their
/// position in `names`. `floats` holds, for each expression and each value, the verdict of the
/// comparison as floating point numbers.
pub fn evaluate_success(
    success: &Option<SuccessCondition>,
    names: &Vec<String>,
    cache: &Vec<(usize, NodeOutputs)>,
    floats: &Vec<Vec<bool>>,
) -> (r: bool)
    ensures
        r == success_holds(opt_success(*success), texts(names@), cache_model(cache@), floats@),
{
    match success {
        None => true,
        Some(SuccessCondition::AnyOf(es)) => evaluate_any(es, names, cache, floats),
        Some(SuccessCondition::AllOf(es)) => evaluate_all(es, names, cache, floats),
    }
}

} // verus!
