//! Payload validation against resolved schemas.
//!
//! The conformance check itself is the outside validator's work; this
//! module resolves the schema with a verified pass and states what
//! holds of the outcome whatever the validator reported.

use vstd::prelude::*;

use crate::error::{ResolveErrV, ResolveError, SchemaError, ValidateError};
use crate::json::{Json, JsonV};
use crate::resolver::{resolve, resolve_spec};
use crate::types::ResolveOptions;

verus! {

/// Whether the conformance validator accepts a schema at all: a
/// function of the schema alone.
pub uninterp spec fn schema_ok_of(schema: JsonV) -> bool;

/// Whether a payload conforms to a schema, as the conformance
/// validator judges it: a function of the two documents alone.
pub uninterp spec fn conforms_of(schema: JsonV, payload: JsonV) -> bool;

/// Relies on serde_json::Value: each variant is carried back one for
/// one; the decimal text of a number is re-parsed, an unparsable one
/// becomes null.
#[verifier::external_body]
fn to_serde(j: &Json) -> serde_json::Value {
    match j {
        Json::Null => serde_json::Value::Null,
        Json::Bool(b) => serde_json::Value::Bool(*b),
        Json::Num(s) => serde_json::from_str::<serde_json::Number>(s).map(
            serde_json::Value::Number,
        ).unwrap_or(serde_json::Value::Null),
        Json::Str(s) => serde_json::Value::String(s.clone()),
        Json::Arr(a) => serde_json::Value::Array(a.iter().map(to_serde).collect()),
        Json::Obj(es) => serde_json::Value::Object(
            es.iter().map(|(k, val)| (k.clone(), to_serde(val))).collect(),
        ),
    }
}

/// Relies on jsonschema::validator_for and Validator::iter_errors:
/// whether the schema compiles, and whether the payload conforms,
/// depend on the two documents alone; every conformance failure is
/// returned with its instance path and message, and a schema the
/// validator rejects comes back as its error message.
#[verifier::external_body]
fn conformance_errors(schema: &Json, payload: &Json) -> (r: Result<Vec<SchemaError>, String>)
    ensures
        r is Ok <==> schema_ok_of(schema@),
        r is Ok ==> ((r->Ok_0@.len() == 0) <==> conforms_of(schema@, payload@)),
{
    let sv = to_serde(schema);
    let pv = to_serde(payload);
    let validator = match jsonschema::validator_for(&sv) {
        Ok(v) => v,
        Err(e) => {
            return Err(e.to_string());
        },
    };
    Ok(validator.iter_errors(&pv).map(|e| SchemaError {
        path: e.instance_path().to_string(),
        message: e.to_string(),
    }).collect())
}

/// Turns a collected list of conformance failures into the validation
/// outcome: success exactly when the list is empty, otherwise a
/// failure carrying exactly that list.
pub fn validation_outcome(errors: Vec<SchemaError>) -> (r: Result<(), ValidateError>)
    ensures
        r is Ok <==> errors@.len() == 0,
        r is Err ==> (r->Err_0 matches ValidateError::Invalid { errors: e2 } && e2 == errors),
{
    if errors.len() == 0 {
        Ok(())
    } else {
        Err(ValidateError::Invalid { errors })
    }
}

/// Validate a payload against an already-resolved schema.
///
/// Succeeds exactly when the validator accepts the schema and the
/// payload conforms; a rejected schema surfaces as a resolution error,
/// a non-conforming payload as a non-empty list of failures.
pub fn validate_against_schema(schema: &Json, payload: &Json) -> (r: Result<(), ValidateError>)
    ensures
        match r {
            Ok(u) => schema_ok_of(schema@) && conforms_of(schema@, payload@),
            Err(e) => match e {
                ValidateError::Invalid { errors } => schema_ok_of(schema@) && !conforms_of(
                    schema@, payload@) && errors@.len() > 0,
                ValidateError::Resolve(re) => !schema_ok_of(schema@) && re@ is InvalidSchema,
            },
        },
{
    match conformance_errors(schema, payload) {
        Err(msg) => Err(ValidateError::Resolve(ResolveError::InvalidSchema { message: msg })),
        Ok(errs) => validation_outcome(errs),
    }
}

/// Validate a payload against an annotated schema.
///
/// Resolves the schema for the given direction and operation, then
/// validates the payload against the resolved schema. Resolution
/// errors are surfaced exactly; success comes exactly when the
/// validator accepts the resolved schema and the payload conforms.
pub fn validate(schema: &Json, payload: &Json, options: &ResolveOptions)
    -> (r: Result<(), ValidateError>)
    ensures
        match resolve_spec(schema@, options.direction, options.operation@, options.strict) {
            Err(se) => (r matches Err(ValidateError::Resolve(e)) && e@ == se),
            Ok(rv) => match r {
                Ok(u) => schema_ok_of(rv) && conforms_of(rv, payload@),
                Err(e) => match e {
                    ValidateError::Invalid { errors } => schema_ok_of(rv) && !conforms_of(rv,
                        payload@) && errors@.len() > 0,
                    ValidateError::Resolve(re) => !schema_ok_of(rv) && re@ is InvalidSchema,
                },
            },
        },
{
    match resolve(schema, options) {
        Err(e) => Err(ValidateError::Resolve(e)),
        Ok(resolved) => validate_against_schema(&resolved, payload),
    }
}

} // verus!
