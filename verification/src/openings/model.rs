//! The parts of an opening.

use crate::agents::{AgentRef, AgentRefModel};
use crate::json::{Json, JsonMap, JsonModel, MapModel};
use crate::openings::locate::SourceLocation;
use crate::text::{concat3, decimal, decimal_text, texts};
use vstd::prelude::*;

verus! {

#[derive(Debug)]
pub enum Error {
    Parse { message: String, line: usize, column: usize },
    Validation { message: String, line: usize, column: usize },
}

pub ghost struct Fault {
    pub message: Seq<char>,
    pub line: int,
    pub column: int,
}

pub open spec fn at_least_one(n: int) -> int {
    if n < 1 {
        1
    } else {
        n
    }
}

pub open spec fn fault_at(message: Seq<char>, place: (int, int)) -> Fault {
    Fault { message, line: at_least_one(place.0), column: at_least_one(place.1) }
}

impl Error {
    pub open spec fn fault(self) -> Fault {
        match self {
            Error::Parse { message, line, column } => Fault {
                message: message@,
                line: line as int,
                column: column as int,
            },
            Error::Validation { message, line, column } => Fault {
                message: message@,
                line: line as int,
                column: column as int,
            },
        }
    }
}

impl Error {
    pub open spec fn text(self) -> Seq<char> {
        match self {
            Error::Parse { message, line, column } => "YAML parse error at "@ + decimal(
                line as nat,
            ) + ":"@ + decimal(column as nat) + ": "@ + message@,
            Error::Validation { message, line, column } => "validation error at "@ + decimal(
                line as nat,
            ) + ":"@ + decimal(column as nat) + ": "@ + message@,
        }
    }

    pub fn message(&self) -> (r: String)
        ensures
            r@ == self.text(),
    {
        let (head, line, column, message) = match self {
            Error::Parse { message, line, column } => (
                "YAML parse error at ",
                *line,
                *column,
                message,
            ),
            Error::Validation { message, line, column } => (
                "validation error at ",
                *line,
                *column,
                message,
            ),
        };
        let mut out = concat3(head, decimal_text(line as u64).as_str(), ":");
        out.append(decimal_text(column as u64).as_str());
        out.append(": ");
        out.append(message.as_str());
        out
    }
}

pub fn validation(message: String, loc: SourceLocation) -> (e: Error)
    ensures
        e is Validation,
        e.fault() == fault_at(message@, loc.at()),
{
    Error::Validation {
        message,
        line: if loc.line < 1 {
            1
        } else {
            loc.line
        },
        column: if loc.column < 1 {
            1
        } else {
            loc.column
        },
    }
}


/// Limits and rules for the whole opening.
#[derive(Clone, Copy, Debug)]
pub struct Policy {
    pub budget_tokens: Option<u32>,
    pub timeout_ms: Option<u64>,
    pub confirm_external: Option<bool>,
}

#[derive(Debug)]
pub enum NodeKind {
    Agent { reference: AgentRef },
    Opening { name: String },
}

/// How often a node is tried. The two factors are kept as numerals.
#[derive(Debug)]
pub struct Retry {
    pub max_attempts: u32,
    pub initial_backoff_ms: u64,
    pub max_backoff_ms: Option<u64>,
    pub multiplier: String,
    pub jitter: String,
}

#[derive(Debug)]
pub struct Node {
    pub id: String,
    pub kind: NodeKind,
    pub with: JsonMap,
    pub schema_hints: SchemaHints,
    pub retry: Retry,
    pub timeout_ms: Option<u64>,
    pub budget_tokens: Option<u32>,
    pub tags: Vec<String>,
    pub location: SourceLocation,
}

#[derive(Debug)]
pub struct SchemaHints {
    pub with: Option<SchemaHintFragment>,
}

#[derive(Debug)]
pub enum SchemaHintFragment {
    Raw(Json),
    Properties(JsonMap),
}

#[derive(Debug)]
pub struct PortReference {
    pub node: String,
    pub port: String,
}

/// A literal in a predicate. A floating point number is kept as its numeral.
#[derive(Debug)]
pub enum Literal {
    Bool(bool),
    Integer(i64),
    Float(String),
    String(String),
}

#[derive(Clone, Copy, Debug, PartialEq, Eq, Structural)]
pub enum ComparisonOp {
    Eq,
    NotEq,
    Gt,
    Gte,
    Lt,
    Lte,
}

#[derive(Debug)]
pub struct Predicate {
    pub op: ComparisonOp,
    pub value: Literal,
}

#[derive(Debug)]
pub struct PortPredicate {
    pub reference: PortReference,
    pub predicate: Predicate,
}

#[derive(Debug)]
pub struct Edge {
    pub from: PortReference,
    pub predicate: Option<Predicate>,
    pub to: PortReference,
    pub location: SourceLocation,
}

#[derive(Debug)]
pub enum Expression {
    Exists(PortReference),
    Comparison(PortPredicate),
}

#[derive(Debug)]
pub enum SuccessCondition {
    AnyOf(Vec<Expression>),
    AllOf(Vec<Expression>),
}

#[derive(Debug)]
pub struct ArtifactsSpec {
    pub save: Vec<PortReference>,
}

#[derive(Debug)]
pub struct Opening {
    pub version: u32,
    pub name: String,
    pub goals: Vec<String>,
    pub params: JsonMap,
    pub policy: Policy,
    pub nodes: Vec<Node>,
    pub edges: Vec<Edge>,
    pub success: Option<SuccessCondition>,
    pub artifacts: ArtifactsSpec,
}

pub ghost enum KindModel {
    Agent(AgentRefModel),
    Opening(Seq<char>),
}

pub ghost struct RetryModel {
    pub max_attempts: u32,
    pub initial_backoff_ms: u64,
    pub max_backoff_ms: Option<u64>,
    pub multiplier: Seq<char>,
    pub jitter: Seq<char>,
}

pub ghost enum FragmentModel {
    Raw(JsonModel),
    Properties(MapModel),
}

pub ghost struct NodeModel {
    pub id: Seq<char>,
    pub kind: KindModel,
    pub with: MapModel,
    pub schema_hints: Option<FragmentModel>,
    pub retry: RetryModel,
    pub timeout_ms: Option<u64>,
    pub budget_tokens: Option<u32>,
    pub tags: Seq<Seq<char>>,
    pub location: (int, int),
}

pub ghost struct PortModel {
    pub node: Seq<char>,
    pub port: Seq<char>,
}

pub ghost enum LiteralModel {
    Bool(bool),
    Integer(int),
    Float(Seq<char>),
    String(Seq<char>),
}

pub ghost struct PredicateModel {
    pub op: ComparisonOp,
    pub value: LiteralModel,
}

pub ghost struct EdgeModel {
    pub from: PortModel,
    pub predicate: Option<PredicateModel>,
    pub to: PortModel,
    pub location: (int, int),
}

pub ghost enum ExpressionModel {
    Exists(PortModel),
    Comparison(PortModel, PredicateModel),
}

pub ghost enum SuccessModel {
    AnyOf(Seq<ExpressionModel>),
    AllOf(Seq<ExpressionModel>),
}

pub ghost struct OpeningModel {
    pub version: u32,
    pub name: Seq<char>,
    pub goals: Seq<Seq<char>>,
    pub params: MapModel,
    pub policy: Policy,
    pub nodes: Seq<NodeModel>,
    pub edges: Seq<EdgeModel>,
    pub success: Option<SuccessModel>,
    pub artifacts: Seq<PortModel>,
}

impl NodeKind {
    pub open spec fn view(self) -> KindModel {
        match self {
            NodeKind::Agent { reference } => KindModel::Agent(reference@),
            NodeKind::Opening { name } => KindModel::Opening(name@),
        }
    }
}

impl Retry {
    pub open spec fn view(self) -> RetryModel {
        RetryModel {
            max_attempts: self.max_attempts,
            initial_backoff_ms: self.initial_backoff_ms,
            max_backoff_ms: self.max_backoff_ms,
            multiplier: self.multiplier@,
            jitter: self.jitter@,
        }
    }
}

impl SchemaHintFragment {
    pub open spec fn view(self) -> FragmentModel {
        match self {
            SchemaHintFragment::Raw(j) => FragmentModel::Raw(j@),
            SchemaHintFragment::Properties(m) => FragmentModel::Properties(m@),
        }
    }
}

impl SchemaHints {
    pub open spec fn view(self) -> Option<FragmentModel> {
        match self.with {
            Some(f) => Some(f@),
            None => None,
        }
    }
}

impl Node {
    pub open spec fn view(self) -> NodeModel {
        NodeModel {
            id: self.id@,
            kind: self.kind@,
            with: self.with@,
            schema_hints: self.schema_hints@,
            retry: self.retry@,
            timeout_ms: self.timeout_ms,
            budget_tokens: self.budget_tokens,
            tags: texts(self.tags@),
            location: self.location.at(),
        }
    }
}

impl PortReference {
    pub open spec fn view(self) -> PortModel {
        PortModel { node: self.node@, port: self.port@ }
    }
}

impl Literal {
    pub open spec fn view(self) -> LiteralModel {
        match self {
            Literal::Bool(b) => LiteralModel::Bool(b),
            Literal::Integer(n) => LiteralModel::Integer(n as int),
            Literal::Float(t) => LiteralModel::Float(t@),
            Literal::String(t) => LiteralModel::String(t@),
        }
    }
}

impl Predicate {
    pub open spec fn view(self) -> PredicateModel {
        PredicateModel { op: self.op, value: self.value@ }
    }
}

pub open spec fn opt_predicate(p: Option<Predicate>) -> Option<PredicateModel> {
    match p {
        Some(p) => Some(p@),
        None => None,
    }
}

impl Edge {
    pub open spec fn view(self) -> EdgeModel {
        EdgeModel {
            from: self.from@,
            predicate: opt_predicate(self.predicate),
            to: self.to@,
            location: self.location.at(),
        }
    }
}

impl Expression {
    pub open spec fn view(self) -> ExpressionModel {
        match self {
            Expression::Exists(r) => ExpressionModel::Exists(r@),
            Expression::Comparison(p) => ExpressionModel::Comparison(
                p.reference@,
                p.predicate@,
            ),
        }
    }
}

pub open spec fn expression_models(s: Seq<Expression>) -> Seq<ExpressionModel> {
    s.map_values(|e: Expression| e@)
}

impl SuccessCondition {
    pub open spec fn view(self) -> SuccessModel {
        match self {
            SuccessCondition::AnyOf(v) => SuccessModel::AnyOf(expression_models(v@)),
            SuccessCondition::AllOf(v) => SuccessModel::AllOf(expression_models(v@)),
        }
    }
}

pub open spec fn opt_success(s: Option<SuccessCondition>) -> Option<SuccessModel> {
    match s {
        Some(s) => Some(s@),
        None => None,
    }
}

pub open spec fn port_models(s: Seq<PortReference>) -> Seq<PortModel> {
    s.map_values(|p: PortReference| p@)
}

pub open spec fn node_models(s: Seq<Node>) -> Seq<NodeModel> {
    s.map_values(|n: Node| n@)
}

pub open spec fn edge_models(s: Seq<Edge>) -> Seq<EdgeModel> {
    s.map_values(|e: Edge| e@)
}

impl Opening {
    pub open spec fn view(self) -> OpeningModel {
        OpeningModel {
            version: self.version,
            name: self.name@,
            goals: texts(self.goals@),
            params: self.params@,
            policy: self.policy,
            nodes: node_models(self.nodes@),
            edges: edge_models(self.edges@),
            success: opt_success(self.success),
            artifacts: port_models(self.artifacts.save@),
        }
    }
}

impl ComparisonOp {
    /// The operator's symbol.
    pub open spec fn symbol_text(self) -> Seq<char> {
        match self {
            ComparisonOp::Eq => "=="@,
            ComparisonOp::NotEq => "!="@,
            ComparisonOp::Gt => ">"@,
            ComparisonOp::Gte => ">="@,
            ComparisonOp::Lt => "<"@,
            ComparisonOp::Lte => "<="@,
        }
    }

    pub fn symbol(self) -> (r: &'static str)
        ensures
            r@ == self.symbol_text(),
    {
        match self {
            ComparisonOp::Eq => "==",
            ComparisonOp::NotEq => "!=",
            ComparisonOp::Gt => ">",
            ComparisonOp::Gte => ">=",
            ComparisonOp::Lt => "<",
            ComparisonOp::Lte => "<=",
        }
    }
}

/// The agents that the nodes name, each once, in the order of their first use.
pub open spec fn agents_used(nodes: Seq<NodeModel>) -> Seq<AgentRefModel>
    decreases nodes.len(),
{
    if nodes.len() == 0 {
        seq![]
    } else {
        let before = agents_used(nodes.drop_last());
        match nodes.last().kind {
            KindModel::Agent(r) => if before.contains(r) {
                before
            } else {
                before.push(r)
            },
            KindModel::Opening(_) => before,
        }
    }
}

pub open spec fn ref_models(v: Seq<AgentRef>) -> Seq<AgentRefModel> {
    v.map_values(|r: AgentRef| r@)
}

impl Opening {
    pub fn agent_refs(&self) -> (r: Vec<AgentRef>)
        ensures
            ref_models(r@) == agents_used(node_models(self.nodes@)),
    {
        let ghost all = node_models(self.nodes@);
        let mut refs: Vec<AgentRef> = Vec::new();
        let mut i: usize = 0;
        assert(ref_models(refs@) =~= seq![]);
        while i < self.nodes.len()
            invariant
                i <= self.nodes.len(),
                all == node_models(self.nodes@),
                ref_models(refs@) == agents_used(all.take(i as int)),
            decreases self.nodes.len() - i,
        {
            assert(all.take(i + 1).drop_last() =~= all.take(i as int));
            assert(all.take(i + 1).last() == self.nodes@[i as int]@);
            if let NodeKind::Agent { reference } = &self.nodes[i].kind {
                if !holds_ref(&refs, reference) {
                    let ghost o = refs@;
                    let copy = reference.clone();
                    refs.push(copy);
                    assert(ref_models(refs@) =~= ref_models(o).push(copy@));
                }
            }
            i += 1;
        }
        assert(all.take(all.len() as int) =~= all);
        refs
    }
}

fn holds_ref(refs: &Vec<AgentRef>, wanted: &AgentRef) -> (r: bool)
    ensures
        r == ref_models(refs@).contains(wanted@),
{
    let mut i: usize = 0;
    while i < refs.len()
        invariant
            i <= refs.len(),
            forall|j: int| 0 <= j < i ==> ref_models(refs@)[j] != wanted@,
        decreases refs.len() - i,
    {
        if refs[i].equals(wanted) {
            assert(ref_models(refs@)[i as int] == wanted@);
            return true;
        }
        i += 1;
    }
    false
}

} // verus!
