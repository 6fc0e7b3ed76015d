//! Core types for schema resolution.

use vstd::prelude::*;

use crate::json::{Json, JsonV};

verus! {

/// Direction of the schema transformation.
///
/// Determines whether `ucp_request` or `ucp_response` annotations apply.
#[derive(Debug, Clone, Copy, PartialEq, Eq, Structural)]
pub enum Direction {
    Request,
    Response,
}

/// The annotation key consulted for a direction.
pub open spec fn annotation_key_of(d: Direction) -> Seq<char> {
    match d {
        Direction::Request => "ucp_request"@,
        Direction::Response => "ucp_response"@,
    }
}

impl Direction {
    /// Returns the annotation key for this direction.
    pub fn annotation_key(&self) -> (r: &'static str)
        ensures
            r@ == annotation_key_of(*self),
    {
        match self {
            Direction::Request => "ucp_request",
            Direction::Response => "ucp_response",
        }
    }

    /// Create direction from a request flag (true = Request, false = Response).
    pub fn from_request_flag(is_request: bool) -> (r: Self)
        ensures
            r == (if is_request { Direction::Request } else { Direction::Response }),
    {
        if is_request {
            Direction::Request
        } else {
            Direction::Response
        }
    }
}

/// Visibility of a field after resolution.
#[derive(Debug, Clone, Copy, PartialEq, Eq, Structural)]
pub enum Visibility {
    /// No transformation: keep the field with its original required status.
    Include,
    /// Remove the field from `properties` and from `required`.
    Omit,
    /// Keep the field and ensure its name is in `required`.
    Required,
    /// Keep the field but remove its name from `required`.
    Optional,
}

/// Parsing of a visibility literal; `None` for unknown literals.
pub open spec fn parse_visibility(s: Seq<char>) -> Option<Visibility> {
    if s == "omit"@ {
        Some(Visibility::Omit)
    } else if s == "required"@ {
        Some(Visibility::Required)
    } else if s == "optional"@ {
        Some(Visibility::Optional)
    } else {
        None
    }
}

impl Visibility {
    /// Parse a visibility value from a string.
    ///
    /// Returns `None` for unknown values (the caller reports the error).
    pub fn parse(s: &str) -> (r: Option<Self>)
        ensures
            r == parse_visibility(s@),
    {
        if crate::strutil::str_eq(s, "omit") {
            Some(Visibility::Omit)
        } else if crate::strutil::str_eq(s, "required") {
            Some(Visibility::Required)
        } else if crate::strutil::str_eq(s, "optional") {
            Some(Visibility::Optional)
        } else {
            None
        }
    }
}

impl Default for Visibility {
    /// The default visibility: no transformation.
    fn default() -> (r: Self)
        ensures
            r == Visibility::Include,
    {
        Visibility::Include
    }
}

/// The lowercase form of a string, as `str::to_lowercase` computes it.
pub uninterp spec fn lower_of(s: Seq<char>) -> Seq<char>;

/// Relies on str::to_lowercase: the result depends on the characters alone.
#[verifier::external_body]
fn lowercase(s: &str) -> (r: String)
    ensures
        r@ == lower_of(s@),
{
    s.to_lowercase()
}

/// Options for schema resolution.
#[derive(Debug, Clone)]
pub struct ResolveOptions {
    /// Whether resolving for request or response.
    pub direction: Direction,
    /// The operation to resolve for (e.g. "create", "update"),
    /// normalized to lowercase.
    pub operation: String,
    /// When true, `additionalProperties: false` is set on all object
    /// schemas to reject unknown fields.
    pub strict: bool,
}

impl ResolveOptions {
    /// Create new resolve options with strict mode disabled.
    ///
    /// The operation is normalized to lowercase for case-insensitive
    /// matching.
    pub fn new(direction: Direction, operation: &str) -> (r: Self)
        ensures
            r.direction == direction,
            r.operation@ == lower_of(operation@),
            r.strict == false,
    {
        ResolveOptions { direction, operation: lowercase(operation), strict: false }
    }

    /// Set strict mode (`additionalProperties: false` on all objects).
    pub fn strict(self, strict: bool) -> (r: Self)
        ensures
            r.direction == self.direction,
            r.operation@ == self.operation@,
            r.strict == strict,
    {
        ResolveOptions { strict, ..self }
    }
}

/// The JSON type name of a value, as used in error messages.
pub open spec fn type_name_of(v: JsonV) -> Seq<char> {
    match v {
        JsonV::Null => "null"@,
        JsonV::Bool(_) => "boolean"@,
        JsonV::Num(_) => "number"@,
        JsonV::Str(_) => "string"@,
        JsonV::Arr(_) => "array"@,
        JsonV::Obj(_) => "object"@,
    }
}

/// Returns the JSON type name for error messages.
pub fn json_type_name(value: &Json) -> (r: &'static str)
    ensures
        r@ == type_name_of(value@),
{
    match value {
        Json::Null => "null",
        Json::Bool(_) => "boolean",
        Json::Num(_) => "number",
        Json::Str(_) => "string",
        Json::Arr(_) => "array",
        Json::Obj(_) => "object",
    }
}

} // verus!
