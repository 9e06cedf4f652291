//! References to agents.

use crate::json::{Json, JsonModel};
use crate::text::{
    before, concat3, copy_opt, lemma_text_lt_irreflexive, lemma_text_lt_total,
    lemma_text_lt_transitive, opt_text, same, text_lt, texts,
};
use vstd::prelude::*;

verus! {

#[derive(Debug)]
pub struct AgentRef {
    pub name: String,
    pub variant: Option<String>,
}

pub ghost struct AgentRefModel {
    pub name: Seq<char>,
    pub variant: Option<Seq<char>>,
}

/// The reference as text: the name, and the variant behind an `@` if there is any.
pub open spec fn reference_text(r: AgentRefModel) -> Seq<char> {
    match r.variant {
        Some(v) => if v.len() > 0 {
            r.name + "@"@ + v
        } else {
            r.name
        },
        None => r.name,
    }
}

impl AgentRef {
    pub open spec fn view(self) -> AgentRefModel {
        AgentRefModel { name: self.name@, variant: opt_text(self.variant) }
    }

    pub fn new(name: String, variant: Option<String>) -> (r: Self)
        ensures
            r.name == name,
            r.variant == variant,
    {
        AgentRef { name, variant }
    }

    pub fn has_variant(&self) -> (r: bool)
        ensures
            r == self@.variant is Some,
    {
        self.variant.is_some()
    }

    pub fn spec(&self) -> (r: String)
        ensures
            r@ == reference_text(self@),
    {
        match &self.variant {
            Some(v) => {
                if v.as_str().is_empty() {
                    self.name.clone()
                } else {
                    concat3(self.name.as_str(), "@", v.as_str())
                }
            },
            None => self.name.clone(),
        }
    }

    pub fn equals(&self, other: &AgentRef) -> (r: bool)
        ensures
            r == (self@ == other@),
    {
        if !same(self.name.as_str(), other.name.as_str()) {
            return false;
        }
        match (&self.variant, &other.variant) {
            (Some(a), Some(b)) => same(a.as_str(), b.as_str()),
            (None, None) => true,
            _ => false,
        }
    }
}

impl Clone for AgentRef {
    fn clone(&self) -> (r: Self)
        ensures
            r@ == self@,
    {
        AgentRef { name: self.name.clone(), variant: copy_opt(&self.variant) }
    }
}

/// What an agent's manifest is held to.
#[derive(Debug)]
pub struct AgentDigest {
    pub reference: AgentRef,
    pub digest: String,
}

#[derive(Debug)]
pub struct AgentPorts {
    pub inputs: Vec<String>,
    pub outputs: Vec<String>,
}

#[derive(Debug)]
pub struct AgentSchemaBundle {
    pub with: Option<Json>,
}

#[derive(Debug)]
pub struct AgentArtifactDigest {
    pub path: String,
    pub blake3: String,
    pub version: u32,
}

#[derive(Debug)]
pub struct AgentArtifacts {
    pub tools: Option<AgentArtifactDigest>,
}

/// What is told of an agent.
#[derive(Debug)]
pub struct DescribedAgent {
    pub reference: AgentRef,
    pub version: String,
    pub digest: String,
    pub schema: AgentSchemaBundle,
    pub ports: AgentPorts,
    pub artifacts: AgentArtifacts,
}

pub ghost struct ArtifactModel {
    pub path: Seq<char>,
    pub blake3: Seq<char>,
    pub version: u32,
}

pub ghost struct DescribedModel {
    pub reference: AgentRefModel,
    pub version: Seq<char>,
    pub digest: Seq<char>,
    pub schema: Option<JsonModel>,
    pub inputs: Seq<Seq<char>>,
    pub outputs: Seq<Seq<char>>,
    pub tools: Option<ArtifactModel>,
}

impl AgentArtifactDigest {
    pub open spec fn view(self) -> ArtifactModel {
        ArtifactModel { path: self.path@, blake3: self.blake3@, version: self.version }
    }
}

impl DescribedAgent {
    pub open spec fn view(self) -> DescribedModel {
        DescribedModel {
            reference: self.reference@,
            version: self.version@,
            digest: self.digest@,
            schema: match self.schema.with {
                Some(j) => Some(j@),
                None => None,
            },
            inputs: texts(self.ports.inputs@),
            outputs: texts(self.ports.outputs@),
            tools: match self.artifacts.tools {
                Some(t) => Some(t@),
                None => None,
            },
        }
    }
}

/// The order of references: by name, and without a variant before any.
pub open spec fn reference_lt(a: AgentRefModel, b: AgentRefModel) -> bool {
    text_lt(a.name, b.name) || (a.name == b.name && match (a.variant, b.variant) {
        (None, Some(_)) => true,
        (Some(v), Some(w)) => text_lt(v, w),
        _ => false,
    })
}

/// Of two references one comes first, unless they are the same.
pub proof fn references_are_in_order(a: AgentRefModel, b: AgentRefModel)
    ensures
        reference_lt(a, b) || reference_lt(b, a) || a == b,
        !(reference_lt(a, b) && reference_lt(b, a)),
{
    lemma_text_lt_total(a.name, b.name);
    if text_lt(a.name, b.name) && text_lt(b.name, a.name) {
        lemma_text_lt_transitive(a.name, b.name, a.name);
    }
    lemma_text_lt_irreflexive(a.name);
    match (a.variant, b.variant) {
        (Some(v), Some(w)) => {
            lemma_text_lt_total(v, w);
            lemma_text_lt_irreflexive(v);
            if text_lt(v, w) && text_lt(w, v) {
                lemma_text_lt_transitive(v, w, v);
            }
        },
        _ => {},
    }
}

impl AgentRef {
    /// Whether this reference comes before another.
    pub fn precedes(&self, other: &AgentRef) -> (r: bool)
        ensures
            r == reference_lt(self@, other@),
    {
        if before(self.name.as_str(), other.name.as_str()) {
            return true;
        }
        if !same(self.name.as_str(), other.name.as_str()) {
            return false;
        }
        match (&self.variant, &other.variant) {
            (None, Some(_)) => true,
            (Some(v), Some(w)) => before(v.as_str(), w.as_str()),
            _ => false,
        }
    }
}

} // verus!
