//! Values held against their schemas.

use crate::json::{map_get, tree_of, value_model, Json, JsonModel};
use crate::text::texts;
use vstd::prelude::*;

verus! {

/// A place at which a value breaks its schema. The kind is the keyword of the schema that is broken.
#[derive(Debug)]
pub struct SchemaViolation {
    pub instance_path: String,
    pub schema_path: String,
    pub message: String,
    pub kind: String,
    pub value: Json,
}

pub ghost struct ViolationModel {
    pub instance_path: Seq<char>,
    pub schema_path: Seq<char>,
    pub message: Seq<char>,
    pub kind: Seq<char>,
    pub value: JsonModel,
}

impl SchemaViolation {
    pub open spec fn view(self) -> ViolationModel {
        ViolationModel {
            instance_path: self.instance_path@,
            schema_path: self.schema_path@,
            message: self.message@,
            kind: self.kind@,
            value: self.value@,
        }
    }
}

pub open spec fn violation_models(s: Seq<SchemaViolation>) -> Seq<ViolationModel> {
    s.map_values(|v: SchemaViolation| v@)
}

/// The violations that `jsonschema::Validator` finds in a value, in their order; none at all where
/// it refuses the schema.
pub uninterp spec fn schema_outcome(schema: JsonModel, instance: JsonModel) -> Option<
    Seq<ViolationModel>,
>;

/// `jsonschema::Validator::new` and `iter_errors`, the errors as plain values, the kind of each by
/// `ValidationErrorKind::keyword`. The claim is that the trees of the schema and the value settle
/// whether the schema is accepted and which violations follow. Of the words in which a schema is
/// refused nothing is said: the validator may find its faults in another order the next time.
#[verifier::external_body]
fn schema_errors(schema: &serde_json::Value, instance: &serde_json::Value) -> (r: Result<
    Vec<SchemaViolation>,
    String,
>)
    ensures
        match r {
            Ok(v) => schema_outcome(value_model(*schema), value_model(*instance)) == Some(
                violation_models(v@),
            ),
            Err(_) => schema_outcome(value_model(*schema), value_model(*instance)) is None,
        },
{
    let validator = jsonschema::Validator::new(schema).map_err(|e| e.to_string())?;
    Ok(validator.iter_errors(instance).map(|e| SchemaViolation {
        instance_path: e.instance_path().as_str().to_string(),
        schema_path: e.schema_path().as_str().to_string(),
        message: e.to_string(),
        kind: e.kind().keyword().to_string(),
        value: tree_of(e.instance().as_ref()),
    }).collect())
}

#[derive(Debug)]
pub enum SchemaValidationError {
    InvalidSchema(String),
    Violations(Vec<SchemaViolation>),
}

/// What comes of what the validator found.
pub fn judge(found: Result<Vec<SchemaViolation>, String>) -> (r: Result<(), SchemaValidationError>)
    ensures
        match (r, found) {
            (Err(SchemaValidationError::InvalidSchema(m)), Err(n)) => m == n,
            (Ok(_), Ok(v)) => v@.len() == 0,
            (Err(SchemaValidationError::Violations(w)), Ok(v)) => v@.len() > 0 && w == v,
            _ => false,
        },
{
    match found {
        Err(m) => Err(SchemaValidationError::InvalidSchema(m)),
        Ok(v) => if v.len() == 0 {
            Ok(())
        } else {
            Err(SchemaValidationError::Violations(v))
        },
    }
}

/// Holds a value against a schema. A schema that the validator refuses is told with its complaint.
pub fn validate_instance(schema: &serde_json::Value, instance: &serde_json::Value) -> (r: Result<
    (),
    SchemaValidationError,
>)
    ensures
        match (r, schema_outcome(value_model(*schema), value_model(*instance))) {
            (Err(SchemaValidationError::InvalidSchema(_)), None) => true,
            (Ok(_), Some(s)) => s.len() == 0,
            (Err(SchemaValidationError::Violations(w)), Some(s)) => s.len() > 0
                && violation_models(w@) == s,
            _ => false,
        },
{
    judge(schema_errors(schema, instance))
}

/// The names of the properties that a schema defines at its top.
pub open spec fn property_names(schema: JsonModel) -> Seq<Seq<char>> {
    match schema {
        JsonModel::Object(m) => match map_get(m, "properties"@) {
            Some(JsonModel::Object(p)) => p.map_values(|e: (Seq<char>, JsonModel)| e.0),
            _ => seq![],
        },
        _ => seq![],
    }
}

pub fn schema_property_names(schema: &Json) -> (r: Vec<String>)
    ensures
        texts(r@) == property_names(schema@),
{
    let mut out: Vec<String> = Vec::new();
    match schema.get("properties") {
        Some(Json::Object(p)) => {
            let mut i: usize = 0;
            while i < p.entries.len()
                invariant
                    i <= p.entries.len(),
                    out@.len() == i,
                    forall|k: int| 0 <= k < i ==> (#[trigger] out@[k])@ == p@[k].0,
                decreases p.entries.len() - i,
            {
                out.push(p.entries[i].0.clone());
                i += 1;
            }
            assert(texts(out@) =~= p@.map_values(|e: (Seq<char>, JsonModel)| e.0));
        },
        _ => {
            assert(texts(out@) =~= seq![]);
        },
    }
    out
}

} // verus!
