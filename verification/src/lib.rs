//! Resolution of `ucp_request` / `ucp_response` annotated JSON Schemas.
//!
//! The library transforms JSON Schemas carrying per-field visibility
//! annotations into standard JSON Schemas for a chosen direction
//! (request or response) and operation, bundles `$ref` pointers from a
//! set of loaded documents, and composes schemas from capability
//! metadata embedded in payloads.

pub mod compose;
pub mod error;
pub mod json;
pub mod laws;
pub mod linter;
pub mod loader;
pub mod resolver;
pub mod strutil;
pub mod types;
pub mod validator;

pub use compose::{
    compose_from_payload, compose_schema, detect_direction, extract_capabilities,
    extract_url_path, parse_capabilities_object, reaches_root, Capability, DetectedDirection,
    SchemaBaseConfig,
};
pub use error::{ComposeError, ResolveError, SchemaError, ValidateError};
pub use json::Json;
pub use linter::{
    check_annotations, check_refs, lint, lint_file, Diagnostic, FileResult, FileStatus,
    LintResult, Severity,
};
pub use loader::{
    bundle_refs, bundle_refs_with_url_mapping, is_url, load_schema_str, navigate_fragment,
    resolve_ref_to_path, DocStore,
};
pub use resolver::{get_visibility, resolve, strip_annotations};
pub use types::{json_type_name, Direction, ResolveOptions, Visibility};
pub use validator::{validate, validate_against_schema};
