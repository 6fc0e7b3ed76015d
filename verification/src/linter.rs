//! Schema linting: static checks of loaded schema documents.
//!
//! Checks annotation values and `$ref` targets over a document tree;
//! referenced documents come from the store, and walking a directory
//! for files is the caller's work.

use vstd::prelude::*;

use crate::json::{arr_view, json_view, obj_entries_view, obj_get, obj_has, Json, JsonV};
use crate::loader::{is_url_spec, join_path, navigate_spec, DocStore};
use crate::strutil::{dec_str, index_of_from, is_prefix, trim_leading};
use crate::types::{parse_visibility, type_name_of};

verus! {

/// Severity level for diagnostics.
#[derive(Debug, Clone, Copy, PartialEq, Eq, Structural)]
pub enum Severity {
    Error,
    Warning,
}

/// Status of a linted file.
#[derive(Debug, Clone, Copy, PartialEq, Eq, Structural)]
pub enum FileStatus {
    Clean,
    Error,
    Warning,
}

/// Mathematical view of a diagnostic.
#[verifier::ext_equal]
pub struct DiagnosticV {
    pub severity: Severity,
    pub code: Seq<char>,
    pub file: Seq<char>,
    pub path: Seq<char>,
    pub message: Seq<char>,
}

/// A single diagnostic message from linting.
#[derive(Debug, Clone)]
pub struct Diagnostic {
    pub severity: Severity,
    /// Stable diagnostic code.
    pub code: String,
    /// The file the diagnostic is about.
    pub file: String,
    /// JSON path to the issue.
    pub path: String,
    pub message: String,
}

impl View for Diagnostic {
    type V = DiagnosticV;

    open spec fn view(&self) -> DiagnosticV {
        DiagnosticV {
            severity: self.severity,
            code: self.code@,
            file: self.file@,
            path: self.path@,
            message: self.message@,
        }
    }
}

impl DeepView for Diagnostic {
    type V = DiagnosticV;

    open spec fn deep_view(&self) -> DiagnosticV {
        self.view()
    }
}

/// Mathematical view of one file's lint outcome.
#[verifier::ext_equal]
pub struct FileResultV {
    pub file: Seq<char>,
    pub status: FileStatus,
    pub diagnostics: Seq<DiagnosticV>,
}

/// Result of linting a single file.
#[derive(Debug, Clone)]
pub struct FileResult {
    /// The file, relative to the linted root where possible.
    pub file: String,
    pub status: FileStatus,
    pub diagnostics: Vec<Diagnostic>,
}

impl View for FileResult {
    type V = FileResultV;

    open spec fn view(&self) -> FileResultV {
        FileResultV {
            file: self.file@,
            status: self.status,
            diagnostics: self.diagnostics.deep_view(),
        }
    }
}

impl DeepView for FileResult {
    type V = FileResultV;

    open spec fn deep_view(&self) -> FileResultV {
        self.view()
    }
}

/// Result of linting a set of files.
#[derive(Debug, Clone)]
pub struct LintResult {
    /// The linted root, as given.
    pub path: String,
    pub files_checked: usize,
    pub passed: usize,
    pub failed: usize,
    pub errors: usize,
    pub warnings: usize,
    pub results: Vec<FileResult>,
}

impl LintResult {
    /// Returns true when no file had an error.
    pub fn is_ok(&self) -> (r: bool)
        ensures
            r == (self.errors == 0),
    {
        self.errors == 0
    }
}

// ------------------------------------------------------------------
// Annotation checks
// ------------------------------------------------------------------

/// Whether `op` is one of the known operations.
pub open spec fn valid_operation(op: Seq<char>) -> bool {
    op == "create"@ || op == "update"@ || op == "complete"@ || op == "read"@
}

/// The diagnostic for an unknown visibility literal.
pub open spec fn bad_literal_diag(key: Seq<char>, s: Seq<char>, file: Seq<char>,
    at: Seq<char>) -> DiagnosticV {
    DiagnosticV {
        severity: Severity::Error,
        code: "E004"@,
        file,
        path: at,
        message: "invalid "@ + key + " value \""@ + s
            + "\": expected omit, required, or optional"@,
    }
}

/// The diagnostics for one operation entry of an object-form annotation.
pub open spec fn op_entry_diags(op: Seq<char>, val: JsonV, key: Seq<char>, file: Seq<char>,
    ann_path: Seq<char>) -> Seq<DiagnosticV> {
    let op_path = ann_path + "/"@ + op;
    let unknown: Seq<DiagnosticV> = if valid_operation(op) {
        Seq::empty()
    } else {
        seq![DiagnosticV {
            severity: Severity::Warning,
            code: "W003"@,
            file,
            path: op_path,
            message: "unknown operation \""@ + op
                + "\": expected create, update, complete, read"@,
        }]
    };
    let value: Seq<DiagnosticV> = match val {
        JsonV::Str(s) => if parse_visibility(s) is None {
            seq![bad_literal_diag(key, s, file, op_path)]
        } else {
            Seq::empty()
        },
        other => seq![DiagnosticV {
            severity: Severity::Error,
            code: "E005"@,
            file,
            path: op_path,
            message: "invalid "@ + key + " value type: expected string, got "@
                + type_name_of(other),
        }],
    };
    unknown + value
}

/// The diagnostics of the first `i` operation entries.
pub open spec fn op_entries_diags(es: Seq<(Seq<char>, JsonV)>, key: Seq<char>,
    file: Seq<char>, ann_path: Seq<char>, i: int) -> Seq<DiagnosticV>
    decreases i,
{
    if i <= 0 || i > es.len() {
        Seq::empty()
    } else {
        op_entries_diags(es, key, file, ann_path, i - 1) + op_entry_diags(es[i - 1].0,
            es[i - 1].1, key, file, ann_path)
    }
}

/// The diagnostics of one annotation value: a string is a visibility
/// literal, an object maps operations to literals, anything else is an
/// error.
pub open spec fn ann_value_diags(annotation: JsonV, key: Seq<char>, file: Seq<char>,
    path: Seq<char>) -> Seq<DiagnosticV> {
    let ann_path = path + "/"@ + key;
    match annotation {
        JsonV::Str(s) => if parse_visibility(s) is None {
            seq![bad_literal_diag(key, s, file, ann_path)]
        } else {
            Seq::empty()
        },
        JsonV::Obj(es) => op_entries_diags(es, key, file, ann_path, es.len() as int),
        other => seq![DiagnosticV {
            severity: Severity::Error,
            code: "E005"@,
            file,
            path: ann_path,
            message: "invalid "@ + key + " type: expected string or object, got "@
                + type_name_of(other),
        }],
    }
}

/// The annotation diagnostics of one node and everything below it.
pub open spec fn ann_diags(v: JsonV, file: Seq<char>, path: Seq<char>) -> Seq<DiagnosticV>
    decreases v, 1int,
{
    match v {
        JsonV::Obj(es) => {
            let req: Seq<DiagnosticV> = match obj_get(es, "ucp_request"@) {
                Some(a) => ann_value_diags(a, "ucp_request"@, file, path),
                None => Seq::empty(),
            };
            let resp: Seq<DiagnosticV> = match obj_get(es, "ucp_response"@) {
                Some(a) => ann_value_diags(a, "ucp_response"@, file, path),
                None => Seq::empty(),
            };
            req + resp + ann_entries_diags(es, file, path, es.len() as int)
        },
        JsonV::Arr(items) => ann_arr_diags(items, file, path, items.len() as int),
        _ => Seq::empty(),
    }
}

/// The annotation diagnostics below the first `i` entries.
pub open spec fn ann_entries_diags(es: Seq<(Seq<char>, JsonV)>, file: Seq<char>,
    path: Seq<char>, i: int) -> Seq<DiagnosticV>
    decreases es, i,
{
    if i <= 0 || i > es.len() {
        Seq::empty()
    } else {
        ann_entries_diags(es, file, path, i - 1) + ann_diags(es[i - 1].1, file,
            path + "/"@ + es[i - 1].0)
    }
}

/// The annotation diagnostics below the first `i` items.
pub open spec fn ann_arr_diags(items: Seq<JsonV>, file: Seq<char>, path: Seq<char>, i: int)
    -> Seq<DiagnosticV>
    decreases items, i,
{
    if i <= 0 || i > items.len() {
        Seq::empty()
    } else {
        ann_arr_diags(items, file, path, i - 1) + ann_diags(items[i - 1], file,
            path + "/"@ + dec_str((i - 1) as nat))
    }
}

// ------------------------------------------------------------------
// Reference checks
// ------------------------------------------------------------------

/// The diagnostics of one `$ref` value: URLs are skipped, internal
/// anchors must resolve in the document, external files must be in the
/// store and their fragments must resolve.
pub open spec fn single_ref_diags(rv: Seq<char>, file: Seq<char>, file_dir: Seq<char>,
    path: Seq<char>, root: JsonV, store: Seq<(Seq<char>, JsonV)>) -> Seq<DiagnosticV> {
    if is_url_spec(rv) {
        Seq::empty()
    } else if rv.len() > 0 && rv[0] == '#' {
        if rv != "#"@ && navigate_spec(root, rv) is None {
            seq![DiagnosticV {
                severity: Severity::Error,
                code: "E003"@,
                file,
                path,
                message: "anchor not found: "@ + rv,
            }]
        } else {
            Seq::empty()
        }
    } else {
        let file_part = match index_of_from(rv, '#', 0) {
            Some(idx) => rv.subrange(0, idx),
            None => rv,
        };
        let fragment = match index_of_from(rv, '#', 0) {
            Some(idx) => rv.subrange(idx, rv.len() as int),
            None => Seq::<char>::empty(),
        };
        let ref_path = join_path(file_dir, file_part);
        match obj_get(store, ref_path) {
            None => seq![DiagnosticV {
                severity: Severity::Error,
                code: "E002"@,
                file,
                path,
                message: "file not found: "@ + file_part,
            }],
            Some(doc) => {
                if fragment.len() > 0 && fragment != "#"@ && navigate_spec(doc, fragment)
                    is None {
                    seq![DiagnosticV {
                        severity: Severity::Error,
                        code: "E003"@,
                        file,
                        path,
                        message: "anchor not found in "@ + file_part + ": "@ + fragment,
                    }]
                } else {
                    Seq::empty()
                }
            },
        }
    }
}

/// The reference diagnostics of one node and everything below it.
pub open spec fn ref_diags(v: JsonV, file: Seq<char>, file_dir: Seq<char>, path: Seq<char>,
    root: JsonV, store: Seq<(Seq<char>, JsonV)>) -> Seq<DiagnosticV>
    decreases v, 1int,
{
    match v {
        JsonV::Obj(es) => {
            let own: Seq<DiagnosticV> = match obj_get(es, "$ref"@) {
                Some(JsonV::Str(rv)) => single_ref_diags(rv, file, file_dir, path, root,
                    store),
                _ => Seq::empty(),
            };
            own + ref_entries_diags(es, file, file_dir, path, root, store, es.len() as int)
        },
        JsonV::Arr(items) => ref_arr_diags(items, file, file_dir, path, root, store,
            items.len() as int),
        _ => Seq::empty(),
    }
}

/// The reference diagnostics below the first `i` entries.
pub open spec fn ref_entries_diags(es: Seq<(Seq<char>, JsonV)>, file: Seq<char>,
    file_dir: Seq<char>, path: Seq<char>, root: JsonV, store: Seq<(Seq<char>, JsonV)>,
    i: int) -> Seq<DiagnosticV>
    decreases es, i,
{
    if i <= 0 || i > es.len() {
        Seq::empty()
    } else {
        ref_entries_diags(es, file, file_dir, path, root, store, i - 1) + ref_diags(
            es[i - 1].1, file, file_dir, path + "/"@ + es[i - 1].0, root, store)
    }
}

/// The reference diagnostics below the first `i` items.
pub open spec fn ref_arr_diags(items: Seq<JsonV>, file: Seq<char>, file_dir: Seq<char>,
    path: Seq<char>, root: JsonV, store: Seq<(Seq<char>, JsonV)>, i: int) -> Seq<DiagnosticV>
    decreases items, i,
{
    if i <= 0 || i > items.len() {
        Seq::empty()
    } else {
        ref_arr_diags(items, file, file_dir, path, root, store, i - 1) + ref_diags(
            items[i - 1], file, file_dir, path + "/"@ + dec_str((i - 1) as nat), root, store)
    }
}

// ------------------------------------------------------------------
// Per-file and aggregate results
// ------------------------------------------------------------------

/// The file name reported for a file under the linted root.
pub open spec fn strip_base(file: Seq<char>, base: Seq<char>) -> Seq<char> {
    if is_prefix(base, file) {
        trim_leading(file.skip(base.len() as int), '/')
    } else {
        file
    }
}

/// Whether any of the first `i` diagnostics has the given severity.
pub open spec fn has_severity(ds: Seq<DiagnosticV>, sev: Severity, i: int) -> bool
    decreases i,
{
    if i <= 0 || i > ds.len() {
        false
    } else {
        ds[i - 1].severity == sev || has_severity(ds, sev, i - 1)
    }
}

/// The status a diagnostic list gives a file.
pub open spec fn status_of(ds: Seq<DiagnosticV>) -> FileStatus {
    if has_severity(ds, Severity::Error, ds.len() as int) {
        FileStatus::Error
    } else if has_severity(ds, Severity::Warning, ds.len() as int) {
        FileStatus::Warning
    } else {
        FileStatus::Clean
    }
}

/// The lint outcome of one file: a parse failure is one syntax-error
/// diagnostic; a parsed document is checked for broken references,
/// bad annotation values and a missing `$id`.
pub open spec fn lint_file_spec(file: Seq<char>, base_path: Seq<char>,
    parsed: Result<JsonV, Seq<char>>, store: Seq<(Seq<char>, JsonV)>) -> FileResultV {
    match parsed {
        Err(msg) => FileResultV {
            file: strip_base(file, base_path),
            status: FileStatus::Error,
            diagnostics: seq![DiagnosticV {
                severity: Severity::Error,
                code: "E001"@,
                file,
                path: "/"@,
                message: "syntax error: "@ + msg,
            }],
        },
        Ok(v) => {
            let refs = ref_diags(v, file, crate::loader::parent_dir(file), Seq::empty(), v,
                store);
            let anns = ann_diags(v, file, Seq::empty());
            let id_warn: Seq<DiagnosticV> = match v {
                JsonV::Obj(es) => if obj_has(es, "$id"@) {
                    Seq::empty()
                } else {
                    seq![DiagnosticV {
                        severity: Severity::Warning,
                        code: "W002"@,
                        file,
                        path: "/"@,
                        message: "schema missing $id field"@,
                    }]
                },
                _ => seq![DiagnosticV {
                    severity: Severity::Warning,
                    code: "W002"@,
                    file,
                    path: "/"@,
                    message: "schema missing $id field"@,
                }],
            };
            let ds = refs + anns + id_warn;
            FileResultV { file: strip_base(file, base_path), status: status_of(ds),
                diagnostics: ds }
        },
    }
}

/// Addition clamped at the machine bound, as the counters use it.
pub open spec fn sat_add(a: int, b: int) -> int {
    if a + b > usize::MAX {
        usize::MAX as int
    } else {
        a + b
    }
}

/// How many diagnostics of the given severity the first `i` results
/// carry in all, clamped at the machine bound.
pub open spec fn count_severity(rs: Seq<FileResultV>, sev: Severity, i: int) -> int
    decreases i,
{
    if i <= 0 || i > rs.len() {
        0
    } else {
        sat_add(count_severity(rs, sev, i - 1), count_sev_in(rs[i - 1].diagnostics, sev,
            rs[i - 1].diagnostics.len() as int) as int)
    }
}

/// How many of the first `i` diagnostics have the given severity.
pub open spec fn count_sev_in(ds: Seq<DiagnosticV>, sev: Severity, i: int) -> nat
    decreases i,
{
    if i <= 0 || i > ds.len() {
        0
    } else {
        count_sev_in(ds, sev, i - 1) + (if ds[i - 1].severity == sev { 1nat } else { 0nat })
    }
}

/// Whether a file counts as failed: any error, or, under strict, any
/// diagnostic at all.
pub open spec fn file_failed(r: FileResultV, strict: bool) -> bool {
    if strict {
        !(r.status == FileStatus::Clean)
    } else {
        r.status == FileStatus::Error
    }
}

/// How many of the first `i` results count as failed.
pub open spec fn count_failed(rs: Seq<FileResultV>, strict: bool, i: int) -> nat
    decreases i,
{
    if i <= 0 || i > rs.len() {
        0
    } else {
        count_failed(rs, strict, i - 1) + (if file_failed(rs[i - 1], strict) { 1nat } else {
            0nat
        })
    }
}

// ------------------------------------------------------------------
// Executable checks
// ------------------------------------------------------------------

/// Builds one diagnostic.
fn diag(severity: Severity, code: &str, file: &str, path: String, message: String)
    -> (r: Diagnostic)
    ensures
        r@ == (DiagnosticV { severity, code: code@, file: file@, path: path@,
            message: message@ }),
{
    Diagnostic {
        severity,
        code: crate::strutil::str_copy(code),
        file: crate::strutil::str_copy(file),
        path,
        message,
    }
}

/// Appends a diagnostic, tracking the view.
fn push_diag(out: &mut Vec<Diagnostic>, d: Diagnostic)
    ensures
        final(out).deep_view() == old(out).deep_view().push(d@),
{
    let ghost pre = out.deep_view();
    let ghost dv = d@;
    out.push(d);
    proof {
        assert(out.deep_view() =~= pre.push(dv));
    }
}

/// Appends all diagnostics of another list, tracking the view.
fn append_diags(out: &mut Vec<Diagnostic>, more: Vec<Diagnostic>)
    ensures
        final(out).deep_view() == old(out).deep_view() + more.deep_view(),
{
    let ghost pre = out.deep_view();
    let ghost mv = more.deep_view();
    let mut rest = more;
    while rest.len() > 0
        invariant
            out.deep_view() + rest.deep_view() == pre + mv,
        decreases rest@.len(),
    {
        let ghost rv = rest.deep_view();
        let d = rest.remove(0);
        proof {
            assert(d@ == rv[0]);
            assert(rest.deep_view() =~= rv.subrange(1, rv.len() as int));
        }
        push_diag(out, d);
        proof {
            assert(out.deep_view() + rest.deep_view() =~= pre + mv);
        }
    }
    proof {
        assert(rest.deep_view() =~= Seq::<DiagnosticV>::empty());
        assert(out.deep_view() =~= out.deep_view() + rest.deep_view());
    }
}

/// Checks one annotation value.
fn check_annotation_value(annotation: &Json, key: &str, file: &str, path: &str)
    -> (r: Vec<Diagnostic>)
    ensures
        r.deep_view() == ann_value_diags(annotation@, key@, file@, path@),
{
    broadcast use crate::json::group_json_view;

    let ann_path = crate::strutil::str_concat3(path, "/", key);
    let mut out: Vec<Diagnostic> = Vec::new();
    proof {
        assert(out.deep_view() =~= Seq::<DiagnosticV>::empty());
    }
    match annotation {
        Json::Str(s) => {
            if crate::types::Visibility::parse(s.as_str()).is_none() {
                let msg1 = crate::strutil::str_concat3("invalid ", key, " value \"");
                let msg = crate::strutil::str_concat3(msg1.as_str(), s.as_str(),
                    "\": expected omit, required, or optional");
                push_diag(&mut out, diag(Severity::Error, "E004", file, ann_path, msg));
            }
        },
        Json::Obj(entries) => {
            let ghost es_v = obj_entries_view(entries@);
            let n = entries.len();
            let mut i: usize = 0;
            while i < n
                invariant
                    n == entries@.len(),
                    es_v == obj_entries_view(entries@),
                    es_v.len() == n,
                    i <= n,
                    ann_path@ == path@ + "/"@ + key@,
                    out.deep_view() == op_entries_diags(es_v, key@, file@, ann_path@,
                        i as int),
                decreases n - i,
            {
                proof {
                    crate::json::obj_entries_view_len(entries@);
                    crate::json::obj_entries_view_index(entries@, i as int);
                }
                let op = &entries[i].0;
                let val = &entries[i].1;
                let op_path = crate::strutil::str_concat3(ann_path.as_str(), "/",
                    op.as_str());
                let known = crate::strutil::str_eq(op.as_str(), "create")
                    || crate::strutil::str_eq(op.as_str(), "update")
                    || crate::strutil::str_eq(op.as_str(), "complete")
                    || crate::strutil::str_eq(op.as_str(), "read");
                if !known {
                    let msg1 = crate::strutil::str_concat3("unknown operation \"",
                        op.as_str(), "\": expected create, update, complete, read");
                    push_diag(&mut out, diag(Severity::Warning, "W003", file,
                        crate::strutil::str_copy(op_path.as_str()), msg1));
                }
                match val {
                    Json::Str(s) => {
                        if crate::types::Visibility::parse(s.as_str()).is_none() {
                            let msg1 = crate::strutil::str_concat3("invalid ", key,
                                " value \"");
                            let msg = crate::strutil::str_concat3(msg1.as_str(), s.as_str(),
                                "\": expected omit, required, or optional");
                            push_diag(&mut out, diag(Severity::Error, "E004", file, op_path,
                                msg));
                        }
                    },
                    other => {
                        let msg1 = crate::strutil::str_concat3("invalid ", key,
                            " value type: expected string, got ");
                        let msg = crate::strutil::str_concat(msg1.as_str(),
                            crate::types::json_type_name(other));
                        push_diag(&mut out, diag(Severity::Error, "E005", file, op_path,
                            msg));
                    },
                }
                proof {
                    assert(out.deep_view() =~= op_entries_diags(es_v, key@, file@,
                        ann_path@, i as int) + op_entry_diags(es_v[i as int].0,
                        es_v[i as int].1, key@, file@, ann_path@));
                }
                i += 1;
            }
        },
        other => {
            let msg1 = crate::strutil::str_concat3("invalid ", key,
                " type: expected string or object, got ");
            let msg = crate::strutil::str_concat(msg1.as_str(),
                crate::types::json_type_name(other));
            push_diag(&mut out, diag(Severity::Error, "E005", file, ann_path, msg));
        },
    }
    out
}

/// Recursively checks every annotation value in a document.
pub fn check_annotations(value: &Json, file: &str, path: &str) -> (r: Vec<Diagnostic>)
    ensures
        r.deep_view() == ann_diags(value@, file@, path@),
    decreases value,
{
    broadcast use crate::json::group_json_view;

    let mut out: Vec<Diagnostic> = Vec::new();
    proof {
        assert(out.deep_view() =~= Seq::<DiagnosticV>::empty());
    }
    match value {
        Json::Obj(entries) => {
            proof {
                crate::json::obj_entries_view_len(entries@);
                assert(*entries == value->Obj_0);
                assert(decreases_to!(*value => value->Obj_0));
                assert(decreases_to!(*entries => entries@));
            }
            let ghost es_v = obj_entries_view(entries@);
            match crate::json::entries_get(entries, "ucp_request") {
                Some(a) => {
                    append_diags(&mut out, check_annotation_value(a, "ucp_request", file,
                        path));
                },
                None => {},
            }
            match crate::json::entries_get(entries, "ucp_response") {
                Some(a) => {
                    append_diags(&mut out, check_annotation_value(a, "ucp_response", file,
                        path));
                },
                None => {},
            }
            let ghost head = out.deep_view();
            let n = entries.len();
            let mut i: usize = 0;
            while i < n
                invariant
                    n == entries@.len(),
                    es_v == obj_entries_view(entries@),
                    es_v.len() == n,
                    i <= n,
                    *value == Json::Obj(*entries),
                    out.deep_view() == head + ann_entries_diags(es_v, file@, path@,
                        i as int),
                decreases n - i,
            {
                proof {
                    crate::json::obj_entries_view_len(entries@);
                    crate::json::obj_entries_view_index(entries@, i as int);
                    assert(decreases_to!(*value => value->Obj_0));
                    assert(*entries == value->Obj_0);
                    assert(decreases_to!(*entries => entries@));
                    assert(decreases_to!(entries@ => entries@[i as int]));
                    assert(decreases_to!(entries@[i as int] => entries@[i as int].1));
                }
                let child_path = crate::strutil::str_concat3(path, "/",
                    entries[i].0.as_str());
                let sub = check_annotations(&entries[i].1, file, child_path.as_str());
                append_diags(&mut out, sub);
                proof {
                    assert(out.deep_view() =~= head + (ann_entries_diags(es_v, file@, path@,
                        i as int) + ann_diags(es_v[i as int].1, file@,
                        path@ + "/"@ + es_v[i as int].0)));
                }
                i += 1;
            }
        },
        Json::Arr(items) => {
            proof {
                crate::json::arr_view_len(items@);
                assert(*items == value->Arr_0);
                assert(decreases_to!(*value => value->Arr_0));
                assert(decreases_to!(*items => items@));
            }
            let ghost items_v = arr_view(items@);
            let n = items.len();
            let mut i: usize = 0;
            while i < n
                invariant
                    n == items@.len(),
                    items_v == arr_view(items@),
                    items_v.len() == n,
                    i <= n,
                    *value == Json::Arr(*items),
                    out.deep_view() == ann_arr_diags(items_v, file@, path@, i as int),
                decreases n - i,
            {
                proof {
                    crate::json::arr_view_len(items@);
                    crate::json::arr_view_index(items@, i as int);
                    assert(decreases_to!(*value => value->Arr_0));
                    assert(*items == value->Arr_0);
                    assert(decreases_to!(*items => items@));
                    assert(decreases_to!(items@ => items@[i as int]));
                }
                let idx = crate::strutil::usize_to_string(i);
                let child_path = crate::strutil::str_concat3(path, "/", idx.as_str());
                let sub = check_annotations(&items[i], file, child_path.as_str());
                append_diags(&mut out, sub);
                i += 1;
            }
        },
        _ => {},
    }
    out
}

/// Checks one `$ref` value against the document and the store.
fn check_single_ref(rv: &str, file: &str, file_dir: &str, path: &str, root: &Json,
    store: &DocStore) -> (r: Vec<Diagnostic>)
    ensures
        r.deep_view() == single_ref_diags(rv@, file@, file_dir@, path@, root@, store@),
{
    let mut out: Vec<Diagnostic> = Vec::new();
    proof {
        assert(out.deep_view() =~= Seq::<DiagnosticV>::empty());
    }
    if crate::loader::is_url(rv) {
        return out;
    }
    let len = rv.unicode_len();
    if len > 0 && rv.get_char(0) == '#' {
        if !crate::strutil::str_eq(rv, "#") {
            match crate::loader::navigate_fragment(root, rv) {
                Ok(_) => {},
                Err(_) => {
                    let msg = crate::strutil::str_concat("anchor not found: ", rv);
                    push_diag(&mut out, diag(Severity::Error, "E003", file,
                        crate::strutil::str_copy(path), msg));
                },
            }
        }
        return out;
    }
    let (file_part, fragment) = match crate::strutil::find_char_from(rv, '#', 0) {
        Some(idx) => (
            crate::strutil::str_copy(rv.substring_char(0, idx)),
            crate::strutil::str_copy(rv.substring_char(idx, len)),
        ),
        None => (crate::strutil::str_copy(rv), String::new()),
    };
    let ref_path = crate::loader::join_path_str(file_dir, file_part.as_str());
    match store.get(ref_path.as_str()) {
        None => {
            let msg = crate::strutil::str_concat("file not found: ", file_part.as_str());
            push_diag(&mut out, diag(Severity::Error, "E002", file,
                crate::strutil::str_copy(path), msg));
        },
        Some(doc) => {
            if fragment.as_str().unicode_len() > 0
                && !crate::strutil::str_eq(fragment.as_str(), "#") {
                match crate::loader::navigate_fragment(doc, fragment.as_str()) {
                    Ok(_) => {},
                    Err(_) => {
                        let msg1 = crate::strutil::str_concat3("anchor not found in ",
                            file_part.as_str(), ": ");
                        let msg = crate::strutil::str_concat(msg1.as_str(),
                            fragment.as_str());
                        push_diag(&mut out, diag(Severity::Error, "E003", file,
                            crate::strutil::str_copy(path), msg));
                    },
                }
            }
        },
    }
    out
}

/// Recursively checks every `$ref` in a document against the store.
pub fn check_refs(value: &Json, file: &str, file_dir: &str, path: &str, root: &Json,
    store: &DocStore) -> (r: Vec<Diagnostic>)
    ensures
        r.deep_view() == ref_diags(value@, file@, file_dir@, path@, root@, store@),
    decreases value,
{
    broadcast use crate::json::group_json_view;

    let mut out: Vec<Diagnostic> = Vec::new();
    proof {
        assert(out.deep_view() =~= Seq::<DiagnosticV>::empty());
    }
    match value {
        Json::Obj(entries) => {
            proof {
                crate::json::obj_entries_view_len(entries@);
                assert(*entries == value->Obj_0);
                assert(decreases_to!(*value => value->Obj_0));
                assert(decreases_to!(*entries => entries@));
            }
            let ghost es_v = obj_entries_view(entries@);
            match crate::json::entries_get(entries, "$ref") {
                Some(Json::Str(rv)) => {
                    append_diags(&mut out, check_single_ref(rv.as_str(), file, file_dir,
                        path, root, store));
                },
                Some(Json::Null) | Some(Json::Bool(_)) | Some(Json::Num(_))
                    | Some(Json::Arr(_)) | Some(Json::Obj(_)) | None => {},
            }
            let ghost head = out.deep_view();
            let n = entries.len();
            let mut i: usize = 0;
            while i < n
                invariant
                    n == entries@.len(),
                    es_v == obj_entries_view(entries@),
                    es_v.len() == n,
                    i <= n,
                    *value == Json::Obj(*entries),
                    out.deep_view() == head + ref_entries_diags(es_v, file@,
                        file_dir@, path@, root@, store@, i as int),
                decreases n - i,
            {
                proof {
                    crate::json::obj_entries_view_len(entries@);
                    crate::json::obj_entries_view_index(entries@, i as int);
                    assert(decreases_to!(*value => value->Obj_0));
                    assert(*entries == value->Obj_0);
                    assert(decreases_to!(*entries => entries@));
                    assert(decreases_to!(entries@ => entries@[i as int]));
                    assert(decreases_to!(entries@[i as int] => entries@[i as int].1));
                }
                let child_path = crate::strutil::str_concat3(path, "/",
                    entries[i].0.as_str());
                let sub = check_refs(&entries[i].1, file, file_dir, child_path.as_str(),
                    root, store);
                append_diags(&mut out, sub);
                proof {
                    assert(out.deep_view() =~= head + (ref_entries_diags(es_v, file@,
                        file_dir@, path@, root@, store@, i as int) + ref_diags(
                        es_v[i as int].1, file@, file_dir@,
                        path@ + "/"@ + es_v[i as int].0, root@, store@)));
                }
                i += 1;
            }
        },
        Json::Arr(items) => {
            proof {
                crate::json::arr_view_len(items@);
                assert(*items == value->Arr_0);
                assert(decreases_to!(*value => value->Arr_0));
                assert(decreases_to!(*items => items@));
            }
            let ghost items_v = arr_view(items@);
            let n = items.len();
            let mut i: usize = 0;
            while i < n
                invariant
                    n == items@.len(),
                    items_v == arr_view(items@),
                    items_v.len() == n,
                    i <= n,
                    *value == Json::Arr(*items),
                    out.deep_view() == ref_arr_diags(items_v, file@, file_dir@, path@,
                        root@, store@, i as int),
                decreases n - i,
            {
                proof {
                    crate::json::arr_view_len(items@);
                    crate::json::arr_view_index(items@, i as int);
                    assert(decreases_to!(*value => value->Arr_0));
                    assert(*items == value->Arr_0);
                    assert(decreases_to!(*items => items@));
                    assert(decreases_to!(items@ => items@[i as int]));
                }
                let idx = crate::strutil::usize_to_string(i);
                let child_path = crate::strutil::str_concat3(path, "/", idx.as_str());
                let sub = check_refs(&items[i], file, file_dir, child_path.as_str(), root,
                    store);
                append_diags(&mut out, sub);
                i += 1;
            }
        },
        _ => {},
    }
    out
}

/// Whether any diagnostic has the given severity.
fn any_severity(ds: &Vec<Diagnostic>, sev: Severity) -> (r: bool)
    ensures
        r == has_severity(ds.deep_view(), sev, ds.deep_view().len() as int),
{
    let ghost dv = ds.deep_view();
    let n = ds.len();
    let mut i: usize = 0;
    while i < n
        invariant
            n == ds@.len(),
            dv == ds.deep_view(),
            dv.len() == n,
            i <= n,
            !has_severity(dv, sev, i as int),
        decreases n - i,
    {
        if ds[i].severity == sev {
            proof {
                assert(has_severity(dv, sev, i + 1));
                lemma_has_severity_mono(dv, sev, i + 1, n as int);
            }
            return true;
        }
        i += 1;
    }
    false
}

proof fn lemma_has_severity_mono(ds: Seq<DiagnosticV>, sev: Severity, i: int, j: int)
    requires
        0 <= i <= j <= ds.len(),
        has_severity(ds, sev, i),
    ensures
        has_severity(ds, sev, j),
    decreases j - i,
{
    if j > i {
        lemma_has_severity_mono(ds, sev, i, j - 1);
    }
}

/// Lint a single loaded schema document.
///
/// `parsed` carries the document, or the load error's message when the
/// file could not be read or parsed; referenced documents come from
/// the store.
pub fn lint_file(file: &str, base_path: &str, parsed: Result<&Json, &str>, store: &DocStore)
    -> (r: FileResult)
    ensures
        r@ == lint_file_spec(file@, base_path@, match parsed {
            Ok(v) => Ok(v@),
            Err(m) => Err(m@),
        }, store@),
{
    broadcast use crate::json::group_json_view;

    let name = strip_base_exec(file, base_path);
    match parsed {
        Err(msg) => {
            let mut ds: Vec<Diagnostic> = Vec::new();
            proof {
                assert(ds.deep_view() =~= Seq::<DiagnosticV>::empty());
            }
            let m = crate::strutil::str_concat("syntax error: ", msg);
            push_diag(&mut ds, diag(Severity::Error, "E001", file,
                crate::strutil::str_copy("/"), m));
            FileResult { file: name, status: FileStatus::Error, diagnostics: ds }
        },
        Ok(schema) => {
            proof {
                reveal_strlit("");
                assert(""@ =~= Seq::<char>::empty());
            }
            let dir = crate::loader::parent_dir_str(file);
            let mut ds = check_refs(schema, file, dir, "", schema, store);
            let ghost refs_v = ds.deep_view();
            append_diags(&mut ds, check_annotations(schema, file, ""));
            let has_id = match schema {
                Json::Obj(entries) => crate::json::entries_get(entries, "$id").is_some(),
                _ => false,
            };
            if !has_id {
                push_diag(&mut ds, diag(Severity::Warning, "W002", file,
                    crate::strutil::str_copy("/"), crate::strutil::str_copy(
                    "schema missing $id field")));
            }
            proof {
                assert(ds.deep_view() =~= ref_diags(schema@, file@,
                    crate::loader::parent_dir(file@), Seq::empty(), schema@, store@)
                    + ann_diags(schema@, file@, Seq::empty()) + (match schema@ {
                    JsonV::Obj(es) => if obj_has(es, "$id"@) {
                        Seq::<DiagnosticV>::empty()
                    } else {
                        seq![DiagnosticV {
                            severity: Severity::Warning,
                            code: "W002"@,
                            file: file@,
                            path: "/"@,
                            message: "schema missing $id field"@,
                        }]
                    },
                    _ => seq![DiagnosticV {
                        severity: Severity::Warning,
                        code: "W002"@,
                        file: file@,
                        path: "/"@,
                        message: "schema missing $id field"@,
                    }],
                }));
            }
            let has_err = any_severity(&ds, Severity::Error);
            let status = if has_err {
                FileStatus::Error
            } else if any_severity(&ds, Severity::Warning) {
                FileStatus::Warning
            } else {
                FileStatus::Clean
            };
            FileResult { file: name, status, diagnostics: ds }
        },
    }
}

/// The file name relative to the linted root.
fn strip_base_exec(file: &str, base: &str) -> (r: String)
    ensures
        r@ == strip_base(file@, base@),
{
    if crate::strutil::starts_with(file, base) {
        let rest = file.substring_char(base.unicode_len(), file.unicode_len());
        proof {
            assert(rest@ =~= file@.skip(base@.len() as int));
        }
        crate::strutil::str_copy(crate::strutil::trim_leading_char(rest, '/'))
    } else {
        crate::strutil::str_copy(file)
    }
}

/// Aggregate the per-file lint outcomes for one linted root.
///
/// Counts files, failures (errors always; warnings too under strict),
/// and the total errors and warnings.
pub fn lint(path: &str, strict: bool, results: Vec<FileResult>) -> (r: LintResult)
    ensures
        r.path@ == path@,
        r.results == results,
        r.files_checked == results@.len(),
        r.errors == count_severity(results.deep_view(), Severity::Error,
            results@.len() as int),
        r.warnings == count_severity(results.deep_view(), Severity::Warning,
            results@.len() as int),
        r.failed == count_failed(results.deep_view(), strict, results@.len() as int),
        r.passed == results@.len() - r.failed,
{
    let ghost rv = results.deep_view();
    let n = results.len();
    let mut errors: usize = 0;
    let mut warnings: usize = 0;
    let mut failed: usize = 0;
    let mut i: usize = 0;
    while i < n
        invariant
            n == results@.len(),
            rv == results.deep_view(),
            rv.len() == n,
            i <= n,
            errors == count_severity(rv, Severity::Error, i as int),
            warnings == count_severity(rv, Severity::Warning, i as int),
            failed == count_failed(rv, strict, i as int),
            failed <= i,
        decreases n - i,
    {
        errors = add_count(errors, count_sev_exec(&results[i].diagnostics, Severity::Error));
        warnings = add_count(warnings, count_sev_exec(&results[i].diagnostics,
            Severity::Warning));
        let bad = if strict {
            !(results[i].status == FileStatus::Clean)
        } else {
            results[i].status == FileStatus::Error
        };
        if bad {
            failed = failed + 1;
        }
        i += 1;
    }
    let passed = n - failed;
    LintResult {
        path: crate::strutil::str_copy(path),
        files_checked: n,
        passed,
        failed,
        errors,
        warnings,
        results,
    }
}

/// Addition clamped at the machine bound.
fn add_count(acc: usize, more: usize) -> (r: usize)
    ensures
        r == sat_add(acc as int, more as int),
{
    if more <= usize::MAX - acc {
        acc + more
    } else {
        usize::MAX
    }
}

/// Counts the diagnostics of one severity.
fn count_sev_exec(ds: &Vec<Diagnostic>, sev: Severity) -> (r: usize)
    ensures
        r == count_sev_in(ds.deep_view(), sev, ds.deep_view().len() as int),
{
    let ghost dv = ds.deep_view();
    let n = ds.len();
    let mut c: usize = 0;
    let mut i: usize = 0;
    while i < n
        invariant
            n == ds@.len(),
            dv == ds.deep_view(),
            dv.len() == n,
            i <= n,
            c == count_sev_in(dv, sev, i as int),
            c <= i,
        decreases n - i,
    {
        if ds[i].severity == sev {
            c = c + 1;
        }
        i += 1;
    }
    c
}

} // verus!
