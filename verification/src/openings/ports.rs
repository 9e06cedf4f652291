//! Port references, predicates and expressions as they are written in edges and conditions.

use crate::openings::literal::{float_numeral, int_literal, is_float_numeral, parse_int};
use crate::openings::locate::{first_at, lemma_first_at, SourceLocation};
use crate::openings::model::{fault_at, validation, ComparisonOp, Error, Expression};
use crate::openings::model::{ExpressionModel, Literal, LiteralModel, PortModel};
use crate::openings::model::{opt_predicate, PortPredicate, PortReference, Predicate, PredicateModel};
use crate::text::{chars_of, find_from, has_prefix, has_suffix, same, split_at_first, split_once};
use crate::text::{string_range, strip_prefix, strip_suffix, trim, trimmed};
use vstd::prelude::*;

verus! {

/// The port that `raw` names as `<node>.<port>`, or the complaint.
pub open spec fn port_of(raw: Seq<char>) -> Result<PortModel, Seq<char>> {
    match split_once(trim(raw), '.') {
        None => Err("port reference must be of the form '<node>.<port>'"@),
        Some((node, port)) => if node.len() == 0 || port.len() == 0 {
            Err("node and port identifiers must be non-empty"@)
        } else {
            Ok(PortModel { node, port })
        },
    }
}

pub fn parse_port_reference(raw: &str, loc: SourceLocation) -> (r: Result<PortReference, Error>)
    ensures
        match (r, port_of(raw@)) {
            (Ok(p), Ok(m)) => p@ == m,
            (Err(e), Err(c)) => e is Validation && e.fault() == fault_at(c, loc.at()),
            _ => false,
        },
{
    let t = trimmed(raw);
    match split_at_first(t.as_str(), '.') {
        None => Err(
            validation("port reference must be of the form '<node>.<port>'".to_owned(), loc),
        ),
        Some((node, port)) => if node.as_str().is_empty() || port.as_str().is_empty() {
            Err(validation("node and port identifiers must be non-empty".to_owned(), loc))
        } else {
            Ok(PortReference { node, port })
        },
    }
}

/// What stands between the double quotes of `raw`.
pub open spec fn between_quotes(raw: Seq<char>) -> Option<Seq<char>> {
    if has_prefix(raw, "\""@) && has_suffix(raw.skip("\""@.len() as int), "\""@) {
        let u = raw.skip("\""@.len() as int);
        Some(u.take(u.len() - "\""@.len()))
    } else {
        None
    }
}

/// The literal that `raw` writes.
pub open spec fn literal_of(raw: Seq<char>) -> Option<LiteralModel> {
    if raw == "true"@ {
        Some(LiteralModel::Bool(true))
    } else if raw == "false"@ {
        Some(LiteralModel::Bool(false))
    } else if int_literal(raw) is Some {
        Some(LiteralModel::Integer(int_literal(raw)->0))
    } else if is_float_numeral(raw) {
        Some(LiteralModel::Float(raw))
    } else {
        match between_quotes(raw) {
            Some(t) => Some(LiteralModel::String(t)),
            None => None,
        }
    }
}

pub open spec fn literal_complaint() -> Seq<char> {
    "unsupported literal value; use booleans, numbers, or quoted strings"@
}

pub fn parse_literal(raw: &str, loc: SourceLocation) -> (r: Result<Literal, Error>)
    ensures
        match (r, literal_of(raw@)) {
            (Ok(l), Some(m)) => l@ == m,
            (Err(e), None) => e is Validation && e.fault() == fault_at(
                literal_complaint(),
                loc.at(),
            ),
            _ => false,
        },
{
    proof {
        reveal_strlit("true");
        reveal_strlit("false");
    }
    if same(raw, "true") {
        return Ok(Literal::Bool(true));
    }
    if same(raw, "false") {
        return Ok(Literal::Bool(false));
    }
    if let Some(n) = parse_int(raw) {
        return Ok(Literal::Integer(n));
    }
    if float_numeral(raw) {
        return Ok(Literal::Float(raw.to_owned()));
    }
    if let Some(u) = strip_prefix(raw, "\"") {
        if let Some(t) = strip_suffix(u.as_str(), "\"") {
            return Ok(Literal::String(t));
        }
    }
    Err(
        validation(
            "unsupported literal value; use booleans, numbers, or quoted strings".to_owned(),
            loc,
        ),
    )
}

/// The operators in the order in which they are looked for.
pub open spec fn operator(k: int) -> ComparisonOp {
    if k == 0 {
        ComparisonOp::Gte
    } else if k == 1 {
        ComparisonOp::Lte
    } else if k == 2 {
        ComparisonOp::Eq
    } else if k == 3 {
        ComparisonOp::NotEq
    } else if k == 4 {
        ComparisonOp::Gt
    } else {
        ComparisonOp::Lt
    }
}

/// A port, or a port, an operator and a literal. The first operator of the list, from number `k`
/// on, that occurs anywhere in `raw` splits it at its first occurrence.
pub open spec fn condition_of(raw: Seq<char>, k: int) -> Result<
    (PortModel, Option<PredicateModel>),
    Seq<char>,
>
    decreases 6 - k,
{
    if k < 0 || k >= 6 {
        match port_of(trim(raw)) {
            Ok(p) => Ok((p, None)),
            Err(c) => Err(c),
        }
    } else {
        let symbol = operator(k).symbol_text();
        match first_at(raw, symbol, 0) {
            None => condition_of(raw, k + 1),
            Some(i) => match port_of(trim(raw.take(i))) {
                Err(c) => Err(c),
                Ok(p) => match literal_of(trim(raw.skip(i + symbol.len()))) {
                    None => Err(literal_complaint()),
                    Some(value) => Ok((p, Some(PredicateModel { op: operator(k), value }))),
                },
            },
        }
    }
}

fn operator_at(k: usize) -> (r: ComparisonOp)
    ensures
        r == operator(k as int),
{
    if k == 0 {
        ComparisonOp::Gte
    } else if k == 1 {
        ComparisonOp::Lte
    } else if k == 2 {
        ComparisonOp::Eq
    } else if k == 3 {
        ComparisonOp::NotEq
    } else if k == 4 {
        ComparisonOp::Gt
    } else {
        ComparisonOp::Lt
    }
}

pub fn parse_port_predicate(raw: &str, loc: SourceLocation) -> (r: Result<
    (PortReference, Option<Predicate>),
    Error,
>)
    ensures
        match (r, condition_of(raw@, 0)) {
            (Ok(x), Ok((p, c))) => x.0@ == p && opt_predicate(x.1) == c,
            (Err(e), Err(c)) => e is Validation && e.fault() == fault_at(c, loc.at()),
            _ => false,
        },
{
    let text = chars_of(raw);
    let mut k: usize = 0;
    while k < 6
        invariant
            k <= 6,
            text@ == raw@,
            condition_of(raw@, 0) == condition_of(raw@, k as int),
        decreases 6 - k,
    {
        let op = operator_at(k);
        let symbol = op.symbol();
        let wanted = chars_of(symbol);
        match find_from(&text, &wanted, 0) {
            None => {
                proof {
                    lemma_first_at(raw@, symbol@, 0, None);
                }
            },
            Some(i) => {
                proof {
                    lemma_first_at(raw@, symbol@, 0, Some(i as int));
                }
                assert(raw@.subrange(0, i as int) =~= raw@.take(i as int));
                assert(raw@.subrange(i + symbol@.len(), raw@.len() as int) =~= raw@.skip(
                    i + symbol@.len(),
                ));
                let left = string_range(&text, 0, i);
                let right = string_range(&text, i + wanted.len(), text.len());
                let port = trimmed(left.as_str());
                let reference = match parse_port_reference(port.as_str(), loc) {
                    Ok(p) => p,
                    Err(e) => {
                        return Err(e);
                    },
                };
                let value = trimmed(right.as_str());
                return match parse_literal(value.as_str(), loc) {
                    Ok(value) => Ok((reference, Some(Predicate { op, value }))),
                    Err(e) => Err(e),
                };
            },
        }
        k += 1;
    }
    let port = trimmed(raw);
    match parse_port_reference(port.as_str(), loc) {
        Ok(p) => Ok((p, None)),
        Err(e) => Err(e),
    }
}

/// The port inside `exists(..)`.
pub open spec fn inside_exists(raw: Seq<char>) -> Option<Seq<char>> {
    if has_prefix(raw, "exists("@) && has_suffix(raw.skip("exists("@.len() as int), ")"@) {
        let u = raw.skip("exists("@.len() as int);
        Some(u.take(u.len() - ")"@.len()))
    } else {
        None
    }
}

pub open spec fn expression_of(raw: Seq<char>) -> Result<ExpressionModel, Seq<char>> {
    match inside_exists(raw) {
        Some(inner) => match port_of(trim(inner)) {
            Ok(p) => Ok(ExpressionModel::Exists(p)),
            Err(c) => Err(c),
        },
        None => match condition_of(raw, 0) {
            Err(c) => Err(c),
            Ok((p, Some(c))) => Ok(ExpressionModel::Comparison(p, c)),
            Ok((_, None)) => Err(
                "comparison expression must include an operator (==, !=, >, >=, <, <=)"@,
            ),
        },
    }
}

pub fn parse_expression(raw: &str, loc: SourceLocation) -> (r: Result<Expression, Error>)
    ensures
        match (r, expression_of(raw@)) {
            (Ok(x), Ok(m)) => x@ == m,
            (Err(e), Err(c)) => e is Validation && e.fault() == fault_at(c, loc.at()),
            _ => false,
        },
{
    if let Some(u) = strip_prefix(raw, "exists(") {
        if let Some(inner) = strip_suffix(u.as_str(), ")") {
            let port = trimmed(inner.as_str());
            return match parse_port_reference(port.as_str(), loc) {
                Ok(p) => Ok(Expression::Exists(p)),
                Err(e) => Err(e),
            };
        }
    }
    match parse_port_predicate(raw, loc) {
        Err(e) => Err(e),
        Ok((reference, Some(predicate))) => Ok(
            Expression::Comparison(PortPredicate { reference, predicate }),
        ),
        Ok((_, None)) => Err(
            validation(
                "comparison expression must include an operator (==, !=, >, >=, <, <=)".to_owned(),
                loc,
            ),
        ),
    }
}

} // verus!
