//! Error types for schema resolution, composition and validation.

use vstd::prelude::*;

verus! {

/// Mathematical view of a `ResolveError`.
#[verifier::ext_equal]
pub enum ResolveErrV {
    FileNotFound { path: Seq<char> },
    ReadError { path: Seq<char>, message: Seq<char> },
    NetworkError { url: Seq<char>, message: Seq<char> },
    InvalidJson { message: Seq<char> },
    InvalidAnnotationType { path: Seq<char>, actual: Seq<char> },
    UnknownVisibility { path: Seq<char>, value: Seq<char> },
    InvalidSchema { message: Seq<char> },
    BundleError { message: Seq<char> },
}

/// Errors during schema loading, bundling and resolution.
#[derive(Debug)]
pub enum ResolveError {
    /// A referenced document does not exist.
    FileNotFound { path: String },
    /// A document exists but could not be read.
    ReadError { path: String, message: String },
    /// A remote document could not be fetched.
    NetworkError { url: String, message: String },
    /// A document is not valid JSON.
    InvalidJson { message: String },
    /// An annotation value is neither a string nor an object.
    InvalidAnnotationType { path: String, actual: String },
    /// An annotation carries an unknown visibility literal.
    UnknownVisibility { path: String, value: String },
    /// A schema was rejected by the conformance validator.
    InvalidSchema { message: String },
    /// Bundling failed: missing fragment or circular reference.
    BundleError { message: String },
}

impl View for ResolveError {
    type V = ResolveErrV;

    open spec fn view(&self) -> ResolveErrV {
        match self {
            ResolveError::FileNotFound { path } => ResolveErrV::FileNotFound { path: path@ },
            ResolveError::ReadError { path, message } => ResolveErrV::ReadError {
                path: path@,
                message: message@,
            },
            ResolveError::NetworkError { url, message } => ResolveErrV::NetworkError {
                url: url@,
                message: message@,
            },
            ResolveError::InvalidJson { message } => ResolveErrV::InvalidJson {
                message: message@,
            },
            ResolveError::InvalidAnnotationType { path, actual } =>
                ResolveErrV::InvalidAnnotationType { path: path@, actual: actual@ },
            ResolveError::UnknownVisibility { path, value } => ResolveErrV::UnknownVisibility {
                path: path@,
                value: value@,
            },
            ResolveError::InvalidSchema { message } => ResolveErrV::InvalidSchema {
                message: message@,
            },
            ResolveError::BundleError { message } => ResolveErrV::BundleError {
                message: message@,
            },
        }
    }
}

impl ResolveError {
    /// Returns the process exit code for this error kind: 3 for
    /// input/output failures, 2 for schema errors.
    pub fn exit_code(&self) -> (r: i32)
        ensures
            r == 3 <==> (self@ is FileNotFound || self@ is ReadError || self@ is NetworkError),
            r == 3 || r == 2,
    {
        match self {
            ResolveError::FileNotFound { .. } => 3,
            ResolveError::ReadError { .. } => 3,
            ResolveError::NetworkError { .. } => 3,
            _ => 2,
        }
    }
}

/// Mathematical view of a `ComposeError`.
#[verifier::ext_equal]
pub enum ComposeErrV {
    NotSelfDescribing,
    EmptyCapabilities,
    NoRootCapability,
    MultipleRootCapabilities { names: Seq<Seq<char>> },
    UnknownParent { extension: Seq<char>, parent: Seq<char> },
    OrphanExtension { extension: Seq<char>, root: Seq<char> },
    MissingDefEntry { extension: Seq<char>, expected_key: Seq<char> },
    SchemaFetch { url: Seq<char>, message: Seq<char> },
    ProfileFetch { url: Seq<char>, message: Seq<char> },
    InvalidCapability { name: Seq<char>, message: Seq<char> },
    InvalidUrl { url: Seq<char>, message: Seq<char> },
}

/// Errors during schema composition from capability metadata.
#[derive(Debug)]
pub enum ComposeError {
    /// The payload has neither inline capabilities nor a profile URL.
    NotSelfDescribing,
    /// The declared capability mapping is empty or not an object.
    EmptyCapabilities,
    /// Every declared capability has an `extends` entry.
    NoRootCapability,
    /// More than one capability has no `extends` entry.
    MultipleRootCapabilities { names: Vec<String> },
    /// An `extends` entry names a capability absent from the set.
    UnknownParent { extension: String, parent: String },
    /// An extension does not transitively reach the root.
    OrphanExtension { extension: String, root: String },
    /// An extension schema lacks the expected `$defs` entry.
    MissingDefEntry { extension: String, expected_key: String },
    /// A capability schema could not be loaded or bundled.
    SchemaFetch { url: String, message: String },
    /// A profile document could not be loaded or is malformed.
    ProfileFetch { url: String, message: String },
    /// A capability entry is malformed.
    InvalidCapability { name: String, message: String },
    /// A schema URL could not be interpreted.
    InvalidUrl { url: String, message: String },
}

impl View for ComposeError {
    type V = ComposeErrV;

    open spec fn view(&self) -> ComposeErrV {
        match self {
            ComposeError::NotSelfDescribing => ComposeErrV::NotSelfDescribing,
            ComposeError::EmptyCapabilities => ComposeErrV::EmptyCapabilities,
            ComposeError::NoRootCapability => ComposeErrV::NoRootCapability,
            ComposeError::MultipleRootCapabilities { names } =>
                ComposeErrV::MultipleRootCapabilities { names: names.deep_view() },
            ComposeError::UnknownParent { extension, parent } => ComposeErrV::UnknownParent {
                extension: extension@,
                parent: parent@,
            },
            ComposeError::OrphanExtension { extension, root } => ComposeErrV::OrphanExtension {
                extension: extension@,
                root: root@,
            },
            ComposeError::MissingDefEntry { extension, expected_key } =>
                ComposeErrV::MissingDefEntry { extension: extension@, expected_key: expected_key@ },
            ComposeError::SchemaFetch { url, message } => ComposeErrV::SchemaFetch {
                url: url@,
                message: message@,
            },
            ComposeError::ProfileFetch { url, message } => ComposeErrV::ProfileFetch {
                url: url@,
                message: message@,
            },
            ComposeError::InvalidCapability { name, message } => ComposeErrV::InvalidCapability {
                name: name@,
                message: message@,
            },
            ComposeError::InvalidUrl { url, message } => ComposeErrV::InvalidUrl {
                url: url@,
                message: message@,
            },
        }
    }
}

impl ComposeError {
    /// Returns the process exit code for this error kind: 3 for fetch
    /// failures, 2 for composition errors.
    pub fn exit_code(&self) -> (r: i32)
        ensures
            r == 3 <==> (self@ is SchemaFetch || self@ is ProfileFetch),
            r == 3 || r == 2,
    {
        match self {
            ComposeError::SchemaFetch { .. } => 3,
            ComposeError::ProfileFetch { .. } => 3,
            _ => 2,
        }
    }
}

/// The rendered message of a `ResolveError`.
pub open spec fn resolve_err_msg(e: ResolveErrV) -> Seq<char> {
    match e {
        ResolveErrV::FileNotFound { path } => "file not found: "@ + path,
        ResolveErrV::ReadError { path, message } => "cannot read "@ + path + ": "@ + message,
        ResolveErrV::NetworkError { url, message } => "failed to fetch "@ + url + ": "@
            + message,
        ResolveErrV::InvalidJson { message } => "invalid JSON: "@ + message,
        ResolveErrV::InvalidAnnotationType { path, actual } => "invalid annotation at "@ + path
            + ": expected string or object, got "@ + actual,
        ResolveErrV::UnknownVisibility { path, value } => "unknown visibility \""@ + value
            + "\" at "@ + path + ": expected omit, required, or optional"@,
        ResolveErrV::InvalidSchema { message } => "invalid schema: "@ + message,
        ResolveErrV::BundleError { message } => "failed to bundle schema: "@ + message,
    }
}

impl ResolveError {
    /// Renders the error as a message line.
    pub fn to_message(&self) -> (r: String)
        ensures
            r@ == resolve_err_msg(self@),
    {
        match self {
            ResolveError::FileNotFound { path } => crate::strutil::str_concat(
                "file not found: ", path.as_str()),
            ResolveError::ReadError { path, message } => {
                let h = crate::strutil::str_concat3("cannot read ", path.as_str(), ": ");
                crate::strutil::str_concat(h.as_str(), message.as_str())
            },
            ResolveError::NetworkError { url, message } => {
                let h = crate::strutil::str_concat3("failed to fetch ", url.as_str(), ": ");
                crate::strutil::str_concat(h.as_str(), message.as_str())
            },
            ResolveError::InvalidJson { message } => crate::strutil::str_concat(
                "invalid JSON: ", message.as_str()),
            ResolveError::InvalidAnnotationType { path, actual } => {
                let h = crate::strutil::str_concat3("invalid annotation at ", path.as_str(),
                    ": expected string or object, got ");
                crate::strutil::str_concat(h.as_str(), actual.as_str())
            },
            ResolveError::UnknownVisibility { path, value } => {
                let h = crate::strutil::str_concat3("unknown visibility \"", value.as_str(),
                    "\" at ");
                let h2 = crate::strutil::str_concat3(h.as_str(), path.as_str(),
                    ": expected omit, required, or optional");
                h2
            },
            ResolveError::InvalidSchema { message } => crate::strutil::str_concat(
                "invalid schema: ", message.as_str()),
            ResolveError::BundleError { message } => crate::strutil::str_concat(
                "failed to bundle schema: ", message.as_str()),
        }
    }
}

/// The rendered message of a `ComposeError`.
pub open spec fn compose_err_msg(e: ComposeErrV) -> Seq<char> {
    match e {
        ComposeErrV::NotSelfDescribing =>
            "payload is not self-describing: missing ucp.capabilities and ucp.meta.profile"@,
        ComposeErrV::EmptyCapabilities => "no capabilities declared in ucp.capabilities"@,
        ComposeErrV::NoRootCapability =>
            "no root capability found (all capabilities have 'extends')"@,
        ComposeErrV::MultipleRootCapabilities { names } =>
            "multiple root capabilities found: "@ + join_comma(names, names.len() as int),
        ComposeErrV::UnknownParent { extension, parent } => "extension '"@ + extension
            + "' references unknown parent '"@ + parent + "'"@,
        ComposeErrV::OrphanExtension { extension, root } => "extension '"@ + extension
            + "' does not connect to root '"@ + root + "'"@,
        ComposeErrV::MissingDefEntry { extension, expected_key } => "extension '"@ + extension
            + "' missing $defs entry for '"@ + expected_key + "'"@,
        ComposeErrV::SchemaFetch { url, message } => "failed to fetch schema from "@ + url
            + ": "@ + message,
        ComposeErrV::ProfileFetch { url, message } => "failed to fetch profile from "@ + url
            + ": "@ + message,
        ComposeErrV::InvalidCapability { name, message } => "invalid capability '"@ + name
            + "': "@ + message,
        ComposeErrV::InvalidUrl { url, message } => "invalid URL '"@ + url + "': "@ + message,
    }
}

/// The first `i` names joined with ", ".
pub open spec fn join_comma(names: Seq<Seq<char>>, i: int) -> Seq<char>
    decreases i,
{
    if i <= 0 || i > names.len() {
        Seq::empty()
    } else if i == 1 {
        names[0]
    } else {
        join_comma(names, i - 1) + ", "@ + names[i - 1]
    }
}

/// The names joined with ", ".
fn join_comma_exec(names: &Vec<String>) -> (r: String)
    ensures
        r@ == join_comma(names.deep_view(), names@.len() as int),
{
    let n = names.len();
    let mut out = String::new();
    let mut i: usize = 0;
    while i < n
        invariant
            n == names@.len(),
            i <= n,
            out@ == join_comma(names.deep_view(), i as int),
        decreases n - i,
    {
        if i == 0 {
            out = crate::strutil::str_copy(names[0].as_str());
        } else {
            out = crate::strutil::str_concat3(out.as_str(), ", ", names[i].as_str());
        }
        i += 1;
    }
    out
}

impl ComposeError {
    /// Renders the error as a message line.
    pub fn to_message(&self) -> (r: String)
        ensures
            r@ == compose_err_msg(self@),
    {
        match self {
            ComposeError::NotSelfDescribing => crate::strutil::str_copy(
                "payload is not self-describing: missing ucp.capabilities and ucp.meta.profile"),
            ComposeError::EmptyCapabilities => crate::strutil::str_copy(
                "no capabilities declared in ucp.capabilities"),
            ComposeError::NoRootCapability => crate::strutil::str_copy(
                "no root capability found (all capabilities have 'extends')"),
            ComposeError::MultipleRootCapabilities { names } => {
                let joined = join_comma_exec(names);
                crate::strutil::str_concat("multiple root capabilities found: ",
                    joined.as_str())
            },
            ComposeError::UnknownParent { extension, parent } => {
                let h = crate::strutil::str_concat3("extension '", extension.as_str(),
                    "' references unknown parent '");
                crate::strutil::str_concat3(h.as_str(), parent.as_str(), "'")
            },
            ComposeError::OrphanExtension { extension, root } => {
                let h = crate::strutil::str_concat3("extension '", extension.as_str(),
                    "' does not connect to root '");
                crate::strutil::str_concat3(h.as_str(), root.as_str(), "'")
            },
            ComposeError::MissingDefEntry { extension, expected_key } => {
                let h = crate::strutil::str_concat3("extension '", extension.as_str(),
                    "' missing $defs entry for '");
                crate::strutil::str_concat3(h.as_str(), expected_key.as_str(), "'")
            },
            ComposeError::SchemaFetch { url, message } => {
                let h = crate::strutil::str_concat3("failed to fetch schema from ",
                    url.as_str(), ": ");
                crate::strutil::str_concat(h.as_str(), message.as_str())
            },
            ComposeError::ProfileFetch { url, message } => {
                let h = crate::strutil::str_concat3("failed to fetch profile from ",
                    url.as_str(), ": ");
                crate::strutil::str_concat(h.as_str(), message.as_str())
            },
            ComposeError::InvalidCapability { name, message } => {
                let h = crate::strutil::str_concat3("invalid capability '", name.as_str(),
                    "': ");
                crate::strutil::str_concat(h.as_str(), message.as_str())
            },
            ComposeError::InvalidUrl { url, message } => {
                let h = crate::strutil::str_concat3("invalid URL '", url.as_str(), "': ");
                crate::strutil::str_concat(h.as_str(), message.as_str())
            },
        }
    }
}

/// A single validation failure with path context.
#[derive(Debug, Clone)]
pub struct SchemaError {
    /// JSON Pointer to the invalid field.
    pub path: String,
    /// Human-readable error message.
    pub message: String,
}

impl SchemaError {
    /// Renders the failure as "path: message".
    pub fn to_string(&self) -> (r: String)
        ensures
            r@ == self.path@ + ": "@ + self.message@,
    {
        crate::strutil::str_concat3(self.path.as_str(), ": ", self.message.as_str())
    }
}

/// Errors during validation.
#[derive(Debug)]
pub enum ValidateError {
    /// Schema resolution failed before validation began.
    Resolve(ResolveError),
    /// The payload does not conform to the resolved schema.
    Invalid { errors: Vec<SchemaError> },
}

impl ValidateError {
    /// Returns the process exit code for this error kind: 1 for
    /// conformance failures, otherwise the resolution error's code.
    pub fn exit_code(&self) -> (r: i32)
        ensures
            self is Invalid ==> r == 1,
            self matches ValidateError::Resolve(e) ==> (r == 3 <==> (e@ is FileNotFound
                || e@ is ReadError || e@ is NetworkError)) && (r == 3 || r == 2),
    {
        match self {
            ValidateError::Resolve(e) => e.exit_code(),
            ValidateError::Invalid { .. } => 1,
        }
    }
}

} // verus!
