//! Schema resolution: transforms annotated schemas into standard JSON Schema.
//!
//! Every executable function mirrors a spec function of the same shape;
//! the contracts state that the two agree exactly.

use vstd::prelude::*;

use crate::error::{ResolveErrV, ResolveError};
use crate::json::{arr_view, json_view, obj_entries_view, obj_get, obj_has, Json, JsonV};
use crate::types::{
    annotation_key_of, parse_visibility, type_name_of, Direction, ResolveOptions, Visibility,
};

verus! {

/// Whether `k` is one of the two annotation keys.
pub open spec fn is_annotation_key(k: Seq<char>) -> bool {
    k == "ucp_request"@ || k == "ucp_response"@
}

/// Whether `k` names a composition list (`allOf` / `anyOf` / `oneOf`).
pub open spec fn is_composition_key(k: Seq<char>) -> bool {
    k == "allOf"@ || k == "anyOf"@ || k == "oneOf"@
}

/// Whether `k` names a definitions map (`$defs` / `definitions`).
pub open spec fn is_defs_key(k: Seq<char>) -> bool {
    k == "$defs"@ || k == "definitions"@
}

// ------------------------------------------------------------------
// Visibility lookup
// ------------------------------------------------------------------

/// The visibility of one property for a direction and operation.
///
/// Absence of the annotation key, or of the operation in the object
/// form, means `Include`. A string is parsed as a visibility literal;
/// any other annotation shape is an error.
pub open spec fn visibility_of(prop: JsonV, d: Direction, op: Seq<char>, path: Seq<char>)
    -> Result<Visibility, ResolveErrV> {
    match prop {
        JsonV::Obj(es) => match obj_get(es, annotation_key_of(d)) {
            None => Ok(Visibility::Include),
            Some(JsonV::Str(s)) => match parse_visibility(s) {
                Some(v) => Ok(v),
                None => Err(ResolveErrV::UnknownVisibility { path, value: s }),
            },
            Some(JsonV::Obj(m)) => match obj_get(m, op) {
                None => Ok(Visibility::Include),
                Some(JsonV::Str(s)) => match parse_visibility(s) {
                    Some(v) => Ok(v),
                    None => Err(ResolveErrV::UnknownVisibility { path, value: s }),
                },
                Some(other) => Err(ResolveErrV::InvalidAnnotationType {
                    path: path + "/"@ + op,
                    actual: type_name_of(other),
                }),
            },
            Some(other) => Err(ResolveErrV::InvalidAnnotationType {
                path,
                actual: type_name_of(other),
            }),
        },
        _ => Ok(Visibility::Include),
    }
}

// ------------------------------------------------------------------
// Annotation stripping
// ------------------------------------------------------------------

/// A schema with every annotation key removed, at every nesting level.
pub open spec fn strip_v(v: JsonV) -> JsonV
    decreases v, 2int,
{
    match v {
        JsonV::Obj(es) => JsonV::Obj(strip_entries(es, es.len() as int)),
        JsonV::Arr(items) => JsonV::Arr(strip_arr(items, items.len() as int)),
        other => other,
    }
}

/// The first `i` entries of `es`, annotation keys dropped and values
/// stripped recursively.
pub open spec fn strip_entries(es: Seq<(Seq<char>, JsonV)>, i: int) -> Seq<(Seq<char>, JsonV)>
    decreases es, i,
{
    if i <= 0 || i > es.len() {
        Seq::empty()
    } else {
        let rest = strip_entries(es, i - 1);
        if is_annotation_key(es[i - 1].0) {
            rest
        } else {
            rest.push((es[i - 1].0, strip_v(es[i - 1].1)))
        }
    }
}

/// The first `i` items of `items`, each stripped recursively.
pub open spec fn strip_arr(items: Seq<JsonV>, i: int) -> Seq<JsonV>
    decreases items, i,
{
    if i <= 0 || i > items.len() {
        Seq::empty()
    } else {
        strip_arr(items, i - 1).push(strip_v(items[i - 1]))
    }
}

// ------------------------------------------------------------------
// The required list
// ------------------------------------------------------------------

/// The string items among the first `i` items of a `required` array.
pub open spec fn req_names(items: Seq<JsonV>, i: int) -> Seq<Seq<char>>
    decreases i,
{
    if i <= 0 || i > items.len() {
        Seq::empty()
    } else {
        match items[i - 1] {
            JsonV::Str(s) => req_names(items, i - 1).push(s),
            _ => req_names(items, i - 1),
        }
    }
}

/// The required names an object starts with: the string items of its
/// `required` array, or empty when the key is absent or not an array.
pub open spec fn original_required(es: Seq<(Seq<char>, JsonV)>) -> Seq<Seq<char>> {
    match obj_get(es, "required"@) {
        Some(JsonV::Arr(items)) => req_names(items, items.len() as int),
        _ => Seq::empty(),
    }
}

/// The first `i` names of `req` with every occurrence of `name` removed.
pub open spec fn remove_name(req: Seq<Seq<char>>, name: Seq<char>, i: int) -> Seq<Seq<char>>
    decreases i,
{
    if i <= 0 || i > req.len() {
        Seq::empty()
    } else if req[i - 1] == name {
        remove_name(req, name, i - 1)
    } else {
        remove_name(req, name, i - 1).push(req[i - 1])
    }
}

/// Whether `name` occurs among the first `i` names of `req`.
pub open spec fn has_name(req: Seq<Seq<char>>, name: Seq<char>, i: int) -> bool
    decreases i,
{
    if i <= 0 || i > req.len() {
        false
    } else {
        req[i - 1] == name || has_name(req, name, i - 1)
    }
}

/// `req` with `name` appended unless already present.
pub open spec fn add_name(req: Seq<Seq<char>>, name: Seq<char>) -> Seq<Seq<char>> {
    if has_name(req, name, req.len() as int) {
        req
    } else {
        req.push(name)
    }
}

/// The first `i` names of `req` as an array of JSON strings.
pub open spec fn req_to_arr(req: Seq<Seq<char>>, i: int) -> Seq<JsonV>
    decreases i,
{
    if i <= 0 || i > req.len() {
        Seq::empty()
    } else {
        req_to_arr(req, i - 1).push(JsonV::Str(req[i - 1]))
    }
}

// ------------------------------------------------------------------
// The resolution pass
// ------------------------------------------------------------------

/// Resolution of one schema node.
pub open spec fn resolve_v(v: JsonV, d: Direction, op: Seq<char>, path: Seq<char>)
    -> Result<JsonV, ResolveErrV>
    decreases v, 0int,
{
    match v {
        JsonV::Obj(es) => resolve_obj(es, d, op, path),
        JsonV::Arr(items) => match resolve_arr(items, d, op, path, items.len() as int) {
            Ok(rs) => Ok(JsonV::Arr(rs)),
            Err(e) => Err(e),
        },
        other => Ok(other),
    }
}

/// Resolution of an object node: its entries are processed in order and
/// the final required list is appended when the object had a `required`
/// key or the list is non-empty.
pub open spec fn resolve_obj(es: Seq<(Seq<char>, JsonV)>, d: Direction, op: Seq<char>,
    path: Seq<char>) -> Result<JsonV, ResolveErrV>
    decreases es, es.len() + 2int,
{
    match resolve_entries(es, d, op, path, es.len() as int) {
        Err(e) => Err(e),
        Ok((out, req)) => {
            if req.len() > 0 || obj_has(es, "required"@) {
                Ok(JsonV::Obj(out.push(("required"@, JsonV::Arr(req_to_arr(req, req.len() as int))))))
            } else {
                Ok(JsonV::Obj(out))
            }
        },
    }
}

/// The state after processing the first `i` entries of an object:
/// the output entries so far and the current required list.
pub open spec fn resolve_entries(es: Seq<(Seq<char>, JsonV)>, d: Direction, op: Seq<char>,
    path: Seq<char>, i: int) -> Result<(Seq<(Seq<char>, JsonV)>, Seq<Seq<char>>), ResolveErrV>
    decreases es, i,
{
    if i <= 0 || i > es.len() {
        Ok((Seq::empty(), original_required(es)))
    } else {
        match resolve_entries(es, d, op, path, i - 1) {
            Err(e) => Err(e),
            Ok((out, req)) => {
                let key = es[i - 1].0;
                let value = es[i - 1].1;
                let child_path = path + "/"@ + key;
                if is_annotation_key(key) {
                    Ok((out, req))
                } else if key == "required"@ {
                    Ok((out, req))
                } else if key == "properties"@ {
                    match value {
                        JsonV::Obj(pes) => match resolve_props(pes, d, op, child_path, req,
                            pes.len() as int) {
                            Err(e) => Err(e),
                            Ok((po, req2)) => Ok((out.push((key, JsonV::Obj(po))), req2)),
                        },
                        _ => match resolve_v(value, d, op, child_path) {
                            Err(e) => Err(e),
                            Ok(rv) => Ok((out.push((key, rv)), req)),
                        },
                    }
                } else if is_defs_key(key) {
                    match value {
                        JsonV::Obj(des) => match resolve_defs(des, d, op, child_path,
                            des.len() as int) {
                            Err(e) => Err(e),
                            Ok(dout) => Ok((out.push((key, JsonV::Obj(dout))), req)),
                        },
                        _ => match resolve_v(value, d, op, child_path) {
                            Err(e) => Err(e),
                            Ok(rv) => Ok((out.push((key, rv)), req)),
                        },
                    }
                } else if is_composition_key(key) {
                    match value {
                        JsonV::Arr(items) => match resolve_arr(items, d, op, child_path,
                            items.len() as int) {
                            Err(e) => Err(e),
                            Ok(rs) => Ok((out.push((key, JsonV::Arr(rs))), req)),
                        },
                        _ => match resolve_v(value, d, op, child_path) {
                            Err(e) => Err(e),
                            Ok(rv) => Ok((out.push((key, rv)), req)),
                        },
                    }
                } else if key == "additionalProperties"@ && value is Bool {
                    Ok((out.push((key, value)), req))
                } else {
                    match resolve_v(value, d, op, child_path) {
                        Err(e) => Err(e),
                        Ok(rv) => Ok((out.push((key, rv)), req)),
                    }
                }
            },
        }
    }
}

/// The state after processing the first `i` properties: kept properties
/// so far and the required list as the visibility rules leave it.
pub open spec fn resolve_props(pes: Seq<(Seq<char>, JsonV)>, d: Direction, op: Seq<char>,
    path: Seq<char>, req: Seq<Seq<char>>, i: int)
    -> Result<(Seq<(Seq<char>, JsonV)>, Seq<Seq<char>>), ResolveErrV>
    decreases pes, i,
{
    if i <= 0 || i > pes.len() {
        Ok((Seq::empty(), req))
    } else {
        match resolve_props(pes, d, op, path, req, i - 1) {
            Err(e) => Err(e),
            Ok((out, req1)) => {
                let name = pes[i - 1].0;
                let prop = pes[i - 1].1;
                let prop_path = path + "/"@ + name;
                match visibility_of(prop, d, op, prop_path) {
                    Err(e) => Err(e),
                    Ok(Visibility::Omit) => Ok((out, remove_name(req1, name, req1.len() as int))),
                    Ok(vis) => match resolve_v(prop, d, op, prop_path) {
                        Err(e) => Err(e),
                        Ok(rv) => {
                            let stripped = strip_v(rv);
                            let req2 = if vis is Required {
                                add_name(req1, name)
                            } else if vis is Optional {
                                remove_name(req1, name, req1.len() as int)
                            } else {
                                req1
                            };
                            Ok((out.push((name, stripped)), req2))
                        },
                    },
                }
            },
        }
    }
}

/// The first `i` definitions, each resolved independently.
pub open spec fn resolve_defs(des: Seq<(Seq<char>, JsonV)>, d: Direction, op: Seq<char>,
    path: Seq<char>, i: int) -> Result<Seq<(Seq<char>, JsonV)>, ResolveErrV>
    decreases des, i,
{
    if i <= 0 || i > des.len() {
        Ok(Seq::empty())
    } else {
        match resolve_defs(des, d, op, path, i - 1) {
            Err(e) => Err(e),
            Ok(out) => {
                let def_path = path + "/"@ + des[i - 1].0;
                match resolve_v(des[i - 1].1, d, op, def_path) {
                    Err(e) => Err(e),
                    Ok(rv) => Ok(out.push((des[i - 1].0, rv))),
                }
            },
        }
    }
}

/// The first `i` array items, each resolved; item paths carry the index.
pub open spec fn resolve_arr(items: Seq<JsonV>, d: Direction, op: Seq<char>, path: Seq<char>,
    i: int) -> Result<Seq<JsonV>, ResolveErrV>
    decreases items, i,
{
    if i <= 0 || i > items.len() {
        Ok(Seq::empty())
    } else {
        match resolve_arr(items, d, op, path, i - 1) {
            Err(e) => Err(e),
            Ok(out) => {
                let item_path = path + "/"@ + crate::strutil::dec_str((i - 1) as nat);
                match resolve_v(items[i - 1], d, op, item_path) {
                    Err(e) => Err(e),
                    Ok(rv) => Ok(out.push(rv)),
                }
            },
        }
    }
}

// ------------------------------------------------------------------
// The strict-mode pass
// ------------------------------------------------------------------

/// Whether an entry list looks like an object schema: it has
/// `"type": "object"` or a `properties` key.
pub open spec fn is_object_schema(es: Seq<(Seq<char>, JsonV)>) -> bool {
    obj_get(es, "type"@) == Some(JsonV::Str("object"@)) || obj_has(es, "properties"@)
}

/// `es` with the value of the first `key` entry replaced by `v`.
pub open spec fn replace_first(es: Seq<(Seq<char>, JsonV)>, key: Seq<char>, v: JsonV, i: int)
    -> Seq<(Seq<char>, JsonV)>
    decreases i,
{
    if i <= 0 || i > es.len() {
        Seq::empty()
    } else {
        let rest = replace_first(es, key, v, i - 1);
        if es[i - 1].0 == key && !has_key_before(es, key, i - 1) {
            rest.push((key, v))
        } else {
            rest.push(es[i - 1])
        }
    }
}

/// Whether `key` occurs among the first `i` entries.
pub open spec fn has_key_before(es: Seq<(Seq<char>, JsonV)>, key: Seq<char>, i: int) -> bool
    decreases i,
{
    if i <= 0 || i > es.len() {
        false
    } else {
        es[i - 1].0 == key || has_key_before(es, key, i - 1)
    }
}

/// The strict-mode pass over one node: every object schema gains
/// `additionalProperties: false` unless it already carries `false` or a
/// sub-schema of its own.
pub open spec fn close_v(v: JsonV) -> JsonV
    decreases v, 0int,
{
    match v {
        JsonV::Obj(es) => {
            let closed = close_entries(es, es.len() as int);
            if is_object_schema(es) {
                match obj_get(es, "additionalProperties"@) {
                    None => JsonV::Obj(closed.push(("additionalProperties"@, JsonV::Bool(false)))),
                    Some(JsonV::Bool(false)) => JsonV::Obj(closed),
                    Some(JsonV::Obj(sub)) => JsonV::Obj(closed),
                    Some(_) => JsonV::Obj(
                        replace_first(closed, "additionalProperties"@, JsonV::Bool(false),
                            closed.len() as int),
                    ),
                }
            } else {
                JsonV::Obj(closed)
            }
        },
        other => other,
    }
}

/// The first `i` entries of `es` under the strict-mode pass: schema
/// positions are closed recursively, other keys are untouched.
pub open spec fn close_entries(es: Seq<(Seq<char>, JsonV)>, i: int) -> Seq<(Seq<char>, JsonV)>
    decreases es, i,
{
    if i <= 0 || i > es.len() {
        Seq::empty()
    } else {
        let rest = close_entries(es, i - 1);
        let key = es[i - 1].0;
        let value = es[i - 1].1;
        if key == "properties"@ || is_defs_key(key) {
            match value {
                JsonV::Obj(pes) => rest.push((key, JsonV::Obj(close_vals(pes, pes.len() as int)))),
                _ => rest.push((key, value)),
            }
        } else if key == "items"@ || key == "additionalProperties"@ {
            rest.push((key, close_v(value)))
        } else if is_composition_key(key) {
            match value {
                JsonV::Arr(items) => rest.push((key, JsonV::Arr(close_arr(items,
                    items.len() as int)))),
                _ => rest.push((key, value)),
            }
        } else {
            rest.push((key, value))
        }
    }
}

/// The first `i` entries with each value closed recursively.
pub open spec fn close_vals(pes: Seq<(Seq<char>, JsonV)>, i: int) -> Seq<(Seq<char>, JsonV)>
    decreases pes, i,
{
    if i <= 0 || i > pes.len() {
        Seq::empty()
    } else {
        close_vals(pes, i - 1).push((pes[i - 1].0, close_v(pes[i - 1].1)))
    }
}

/// The first `i` items with each item closed recursively.
pub open spec fn close_arr(items: Seq<JsonV>, i: int) -> Seq<JsonV>
    decreases items, i,
{
    if i <= 0 || i > items.len() {
        Seq::empty()
    } else {
        close_arr(items, i - 1).push(close_v(items[i - 1]))
    }
}

// ------------------------------------------------------------------
// The top-level resolution
// ------------------------------------------------------------------

/// Full resolution of a schema for a direction, operation and strict
/// flag: the annotation pass, then the strict-mode pass if asked for.
pub open spec fn resolve_spec(v: JsonV, d: Direction, op: Seq<char>, strict: bool)
    -> Result<JsonV, ResolveErrV> {
    match resolve_v(v, d, op, Seq::empty()) {
        Err(e) => Err(e),
        Ok(rv) => Ok(if strict { close_v(rv) } else { rv }),
    }
}

// ------------------------------------------------------------------
// An error, once hit, decides the whole fold
// ------------------------------------------------------------------

proof fn lemma_entries_err(es: Seq<(Seq<char>, JsonV)>, d: Direction, op: Seq<char>,
    path: Seq<char>, i: int, j: int)
    requires
        0 <= i <= j <= es.len(),
        resolve_entries(es, d, op, path, i) is Err,
    ensures
        resolve_entries(es, d, op, path, j) == resolve_entries(es, d, op, path, i),
    decreases j - i,
{
    if j > i {
        lemma_entries_err(es, d, op, path, i, j - 1);
    }
}

proof fn lemma_props_err(pes: Seq<(Seq<char>, JsonV)>, d: Direction, op: Seq<char>,
    path: Seq<char>, req: Seq<Seq<char>>, i: int, j: int)
    requires
        0 <= i <= j <= pes.len(),
        resolve_props(pes, d, op, path, req, i) is Err,
    ensures
        resolve_props(pes, d, op, path, req, j) == resolve_props(pes, d, op, path, req, i),
    decreases j - i,
{
    if j > i {
        lemma_props_err(pes, d, op, path, req, i, j - 1);
    }
}

proof fn lemma_defs_err(des: Seq<(Seq<char>, JsonV)>, d: Direction, op: Seq<char>,
    path: Seq<char>, i: int, j: int)
    requires
        0 <= i <= j <= des.len(),
        resolve_defs(des, d, op, path, i) is Err,
    ensures
        resolve_defs(des, d, op, path, j) == resolve_defs(des, d, op, path, i),
    decreases j - i,
{
    if j > i {
        lemma_defs_err(des, d, op, path, i, j - 1);
    }
}

proof fn lemma_arr_err(items: Seq<JsonV>, d: Direction, op: Seq<char>, path: Seq<char>,
    i: int, j: int)
    requires
        0 <= i <= j <= items.len(),
        resolve_arr(items, d, op, path, i) is Err,
    ensures
        resolve_arr(items, d, op, path, j) == resolve_arr(items, d, op, path, i),
    decreases j - i,
{
    if j > i {
        lemma_arr_err(items, d, op, path, i, j - 1);
    }
}

/// A name found at `i` is still found at any later bound.
proof fn lemma_has_name_mono(req: Seq<Seq<char>>, name: Seq<char>, i: int, j: int)
    requires
        0 <= i <= j <= req.len(),
        has_name(req, name, i),
    ensures
        has_name(req, name, j),
    decreases j - i,
{
    if j > i {
        lemma_has_name_mono(req, name, i, j - 1);
    }
}

// ------------------------------------------------------------------
// Executable visibility lookup
// ------------------------------------------------------------------

fn parse_visibility_string(s: &str, path: &str) -> (r: Result<Visibility, ResolveError>)
    ensures
        match r {
            Ok(v) => parse_visibility(s@) == Some(v),
            Err(e) => parse_visibility(s@) is None && e@ == (ResolveErrV::UnknownVisibility {
                path: path@,
                value: s@,
            }),
        },
{
    match Visibility::parse(s) {
        Some(v) => Ok(v),
        None => Err(ResolveError::UnknownVisibility {
            path: crate::strutil::str_copy(path),
            value: crate::strutil::str_copy(s),
        }),
    }
}

/// Get visibility for a single property.
///
/// Looks up the annotation for the direction and determines the
/// visibility for the given operation.
pub fn get_visibility(prop: &Json, direction: Direction, operation: &str, path: &str)
    -> (r: Result<Visibility, ResolveError>)
    ensures
        match r {
            Ok(v) => visibility_of(prop@, direction, operation@, path@)
                == Ok::<Visibility, ResolveErrV>(v),
            Err(e) => visibility_of(prop@, direction, operation@, path@)
                == Err::<Visibility, ResolveErrV>(e@),
        },
{
    let key = direction.annotation_key();
    let annotation = match prop.get(key) {
        None => {
            return Ok(Visibility::Include);
        },
        Some(a) => a,
    };
    match annotation {
        Json::Str(s) => parse_visibility_string(s.as_str(), path),
        Json::Obj(_) => {
            match annotation.get(operation) {
                Some(inner) => match inner {
                    Json::Str(s) => parse_visibility_string(s.as_str(), path),
                    other => Err(ResolveError::InvalidAnnotationType {
                        path: crate::strutil::str_concat3(path, "/", operation),
                        actual: crate::strutil::str_copy(crate::types::json_type_name(other)),
                    }),
                },
                None => Ok(Visibility::Include),
            }
        },
        other => Err(ResolveError::InvalidAnnotationType {
            path: crate::strutil::str_copy(path),
            actual: crate::strutil::str_copy(crate::types::json_type_name(other)),
        }),
    }
}

// ------------------------------------------------------------------
// Executable annotation stripping
// ------------------------------------------------------------------

/// Whether `k` is one of the two annotation keys.
fn is_annotation_key_exec(k: &str) -> (r: bool)
    ensures
        r == is_annotation_key(k@),
{
    crate::strutil::str_eq(k, "ucp_request") || crate::strutil::str_eq(k, "ucp_response")
}

/// Strip all annotations from a schema.
///
/// Recursively removes `ucp_request` and `ucp_response` keys.
pub fn strip_annotations(schema: &Json) -> (r: Json)
    ensures
        r@ == strip_v(schema@),
    decreases schema,
{
    broadcast use crate::json::group_json_view;

    match schema {
        Json::Null => Json::Null,
        Json::Bool(b) => Json::Bool(*b),
        Json::Num(s) => Json::Num(s.clone()),
        Json::Str(s) => Json::Str(s.clone()),
        Json::Arr(items) => {
            let ghost items_v = arr_view(items@);
            let n = items.len();
            let mut out: Vec<Json> = Vec::new();
            let mut i: usize = 0;
            while i < n
                invariant
                    n == items@.len(),
                    *schema == Json::Arr(*items),
                    items_v == arr_view(items@),
                    i <= n,
                    arr_view(out@) == strip_arr(items_v, i as int),
                decreases n - i,
            {
                proof {
                    assert(*items == schema->Arr_0);
                    assert(decreases_to!(*schema => schema->Arr_0));
                    assert(decreases_to!(*items => items@));
                    assert(decreases_to!(items@ => items@[i as int]));
                }
                let c = strip_annotations(&items[i]);
                let ghost pre = out@;
                out.push(c);
                proof {
                    crate::json::arr_view_len(items@);
                    crate::json::arr_view_index(items@, i as int);
                    crate::json::arr_view_push(pre, c);
                }
                i += 1;
            }
            Json::Arr(out)
        },
        Json::Obj(entries) => {
            let ghost es_v = obj_entries_view(entries@);
            let n = entries.len();
            let mut out: Vec<(String, Json)> = Vec::new();
            let mut i: usize = 0;
            while i < n
                invariant
                    n == entries@.len(),
                    *schema == Json::Obj(*entries),
                    es_v == obj_entries_view(entries@),
                    i <= n,
                    obj_entries_view(out@) == strip_entries(es_v, i as int),
                decreases n - i,
            {
                proof {
                    assert(decreases_to!(*schema => schema->Obj_0));
                    assert(*entries == schema->Obj_0);
                    assert(decreases_to!(*entries => entries@));
                    assert(decreases_to!(entries@ => entries@[i as int]));
                    assert(decreases_to!(entries@[i as int] => entries@[i as int].1));
                }
                proof {
                    crate::json::obj_entries_view_len(entries@);
                    crate::json::obj_entries_view_index(entries@, i as int);
                }
                if !is_annotation_key_exec(entries[i].0.as_str()) {
                    let k = entries[i].0.clone();
                    let c = strip_annotations(&entries[i].1);
                    let ghost pre = out@;
                    out.push((k, c));
                    proof {
                        crate::json::obj_entries_view_push(pre, (k, c));
                    }
                }
                i += 1;
            }
            Json::Obj(out)
        },
    }
}

// ------------------------------------------------------------------
// Executable required-list helpers
// ------------------------------------------------------------------

/// The string items of a `required` array.
fn req_names_exec(items: &Vec<Json>) -> (r: Vec<String>)
    ensures
        r.deep_view() == req_names(arr_view(items@), items@.len() as int),
{
    broadcast use crate::json::group_json_view;

    let ghost items_v = arr_view(items@);
    let n = items.len();
    let mut out: Vec<String> = Vec::new();
    let mut i: usize = 0;
    while i < n
        invariant
            n == items@.len(),
            items_v == arr_view(items@),
            i <= n,
            out.deep_view() == req_names(items_v, i as int),
        decreases n - i,
    {
        let ghost pre = out.deep_view();
        proof {
            crate::json::arr_view_len(items@);
            crate::json::arr_view_index(items@, i as int);
        }
        match &items[i] {
            Json::Str(s) => {
                out.push(s.clone());
                proof {
                    assert(out.deep_view() =~= pre.push(s@));
                }
            },
            _ => {},
        }
        i += 1;
    }
    out
}

/// The required names an object starts with.
fn original_required_exec(entries: &Vec<(String, Json)>) -> (r: Vec<String>)
    ensures
        r.deep_view() == original_required(obj_entries_view(entries@)),
{
    broadcast use crate::json::group_json_view;

    match crate::json::entries_get(entries, "required") {
        Some(v) => match v {
            Json::Arr(items) => req_names_exec(items),
            _ => {
                let r: Vec<String> = Vec::new();
                proof {
                    assert(r.deep_view() =~= Seq::<Seq<char>>::empty());
                }
                r
            },
        },
        None => {
            let r: Vec<String> = Vec::new();
            proof {
                assert(r.deep_view() =~= Seq::<Seq<char>>::empty());
            }
            r
        },
    }
}

/// Whether `name` occurs in the list.
pub(crate) fn has_name_exec(req: &Vec<String>, name: &str) -> (r: bool)
    ensures
        r == has_name(req.deep_view(), name@, req@.len() as int),
{
    let ghost rv = req.deep_view();
    let n = req.len();
    let mut i: usize = 0;
    while i < n
        invariant
            n == req@.len(),
            rv == req.deep_view(),
            i <= n,
            !has_name(rv, name@, i as int),
        decreases n - i,
    {
        if crate::strutil::str_eq(req[i].as_str(), name) {
            proof {
                assert(has_name(rv, name@, i + 1));
                lemma_has_name_mono(rv, name@, i + 1, n as int);
            }
            return true;
        }
        i += 1;
    }
    false
}

/// The list with every occurrence of `name` removed.
fn remove_name_exec(req: &Vec<String>, name: &str) -> (r: Vec<String>)
    ensures
        r.deep_view() == remove_name(req.deep_view(), name@, req@.len() as int),
{
    let ghost rv = req.deep_view();
    let n = req.len();
    let mut out: Vec<String> = Vec::new();
    let mut i: usize = 0;
    while i < n
        invariant
            n == req@.len(),
            rv == req.deep_view(),
            i <= n,
            out.deep_view() == remove_name(rv, name@, i as int),
        decreases n - i,
    {
        let ghost pre = out.deep_view();
        if !crate::strutil::str_eq(req[i].as_str(), name) {
            out.push(req[i].clone());
            proof {
                assert(out.deep_view() =~= pre.push(rv[i as int]));
            }
        }
        i += 1;
    }
    out
}

// ------------------------------------------------------------------
// The executable resolution pass
// ------------------------------------------------------------------

/// Resolution of one schema node.
fn resolve_value(value: &Json, options: &ResolveOptions, path: &str)
    -> (r: Result<Json, ResolveError>)
    ensures
        match r {
            Ok(out) => resolve_v(value@, options.direction, options.operation@, path@)
                == Ok::<JsonV, ResolveErrV>(out@),
            Err(e) => resolve_v(value@, options.direction, options.operation@, path@)
                == Err::<JsonV, ResolveErrV>(e@),
        },
    decreases value,
{
    broadcast use crate::json::group_json_view;

    match value {
        Json::Null => Ok(Json::Null),
        Json::Bool(b) => Ok(Json::Bool(*b)),
        Json::Num(s) => Ok(Json::Num(s.clone())),
        Json::Str(s) => Ok(Json::Str(s.clone())),
        Json::Obj(entries) => {
            proof {
                crate::json::obj_entries_view_len(entries@);
            }
            proof {
                assert(*entries == value->Obj_0);
                assert(decreases_to!(*value => value->Obj_0));
                assert(decreases_to!(*entries => entries@));
            }
            resolve_object(entries, options, path)
        },
        Json::Arr(items) => {
            proof {
                crate::json::arr_view_len(items@);
                assert(*items == value->Arr_0);
                assert(decreases_to!(*value => value->Arr_0));
                assert(decreases_to!(*items => items@));
            }
            match resolve_array(items, options, path) {
                Ok(rs) => Ok(Json::Arr(rs)),
                Err(e) => Err(e),
            }
        },
    }
}

/// Resolution of an object node.
fn resolve_object(entries: &Vec<(String, Json)>, options: &ResolveOptions, path: &str)
    -> (r: Result<Json, ResolveError>)
    ensures
        match r {
            Ok(out) => resolve_obj(obj_entries_view(entries@), options.direction,
                options.operation@, path@) == Ok::<JsonV, ResolveErrV>(out@),
            Err(e) => resolve_obj(obj_entries_view(entries@), options.direction,
                options.operation@, path@) == Err::<JsonV, ResolveErrV>(e@),
        },
    decreases entries@,
{
    broadcast use crate::json::group_json_view;

    let ghost es_v = obj_entries_view(entries@);
    let ghost d = options.direction;
    let ghost opv = options.operation@;
    let ghost pathv = path@;
    let mut req: Vec<String> = original_required_exec(entries);
    let has_req = crate::json::entries_get(entries, "required").is_some();
    let n = entries.len();
    let mut out: Vec<(String, Json)> = Vec::new();
    let mut i: usize = 0;
    while i < n
        invariant
            n == entries@.len(),
            es_v == obj_entries_view(entries@),
            es_v.len() == n,
            i <= n,
            d == options.direction,
            opv == options.operation@,
            pathv == path@,
            resolve_entries(es_v, d, opv, pathv, i as int) == Ok::<_, ResolveErrV>(
                (obj_entries_view(out@), req.deep_view()),
            ),
        decreases n - i,
    {
        proof {
            crate::json::obj_entries_view_len(entries@);
            crate::json::obj_entries_view_index(entries@, i as int);
            assert(decreases_to!(entries@ => entries@[i as int]));
            assert(decreases_to!(entries@[i as int] => entries@[i as int].1));
        }
        let key = &entries[i].0;
        let value = &entries[i].1;
        if is_annotation_key_exec(key.as_str()) || crate::strutil::str_eq(key.as_str(), "required")
        {
            // dropped from the output; `required` is emitted at the end
        } else {
            let child_path = crate::strutil::str_concat3(path, "/", key.as_str());
            let ghost pre = out@;
            if crate::strutil::str_eq(key.as_str(), "properties") {
                match value {
                    Json::Obj(props) => {
                        proof {
                            crate::json::obj_entries_view_len(props@);
                            assert(*props == entries@[i as int].1->Obj_0);
                            assert(decreases_to!(entries@[i as int].1
                                => entries@[i as int].1->Obj_0));
                            assert(decreases_to!(*props => props@));
                        }
                        match resolve_properties(props, options, child_path.as_str(), &req) {
                            Err(e) => {
                                proof {
                                    lemma_entries_err(es_v, d, opv, pathv, i + 1, n as int);
                                }
                                return Err(e);
                            },
                            Ok((po, req2)) => {
                                req = req2;
                                crate::json::push_entry(&mut out, key.clone(), Json::Obj(po));
                            },
                        }
                    },
                    _ => {
                        match resolve_value(value, options, child_path.as_str()) {
                            Err(e) => {
                                proof {
                                    lemma_entries_err(es_v, d, opv, pathv, i + 1, n as int);
                                }
                                return Err(e);
                            },
                            Ok(rv) => {
                                crate::json::push_entry(&mut out, key.clone(), rv);
                            },
                        }
                    },
                }
            } else if crate::strutil::str_eq(key.as_str(), "$defs")
                || crate::strutil::str_eq(key.as_str(), "definitions") {
                match value {
                    Json::Obj(des) => {
                        proof {
                            crate::json::obj_entries_view_len(des@);
                            assert(*des == entries@[i as int].1->Obj_0);
                            assert(decreases_to!(entries@[i as int].1
                                => entries@[i as int].1->Obj_0));
                            assert(decreases_to!(*des => des@));
                        }
                        match resolve_definitions(des, options, child_path.as_str()) {
                            Err(e) => {
                                proof {
                                    lemma_entries_err(es_v, d, opv, pathv, i + 1, n as int);
                                }
                                return Err(e);
                            },
                            Ok(dout) => {
                                crate::json::push_entry(&mut out, key.clone(), Json::Obj(dout));
                            },
                        }
                    },
                    _ => {
                        match resolve_value(value, options, child_path.as_str()) {
                            Err(e) => {
                                proof {
                                    lemma_entries_err(es_v, d, opv, pathv, i + 1, n as int);
                                }
                                return Err(e);
                            },
                            Ok(rv) => {
                                crate::json::push_entry(&mut out, key.clone(), rv);
                            },
                        }
                    },
                }
            } else if crate::strutil::str_eq(key.as_str(), "allOf")
                || crate::strutil::str_eq(key.as_str(), "anyOf")
                || crate::strutil::str_eq(key.as_str(), "oneOf") {
                match value {
                    Json::Arr(items) => {
                        proof {
                            crate::json::arr_view_len(items@);
                            assert(*items == entries@[i as int].1->Arr_0);
                            assert(decreases_to!(entries@[i as int].1
                                => entries@[i as int].1->Arr_0));
                            assert(decreases_to!(*items => items@));
                        }
                        match resolve_array(items, options, child_path.as_str()) {
                            Err(e) => {
                                proof {
                                    lemma_entries_err(es_v, d, opv, pathv, i + 1, n as int);
                                }
                                return Err(e);
                            },
                            Ok(rs) => {
                                crate::json::push_entry(&mut out, key.clone(), Json::Arr(rs));
                            },
                        }
                    },
                    _ => {
                        match resolve_value(value, options, child_path.as_str()) {
                            Err(e) => {
                                proof {
                                    lemma_entries_err(es_v, d, opv, pathv, i + 1, n as int);
                                }
                                return Err(e);
                            },
                            Ok(rv) => {
                                crate::json::push_entry(&mut out, key.clone(), rv);
                            },
                        }
                    },
                }
            } else if crate::strutil::str_eq(key.as_str(), "additionalProperties")
                && matches!(value, Json::Bool(_)) {
                crate::json::push_entry(&mut out, key.clone(), value.deep_copy());
            } else {
                match resolve_value(value, options, child_path.as_str()) {
                    Err(e) => {
                        proof {
                            lemma_entries_err(es_v, d, opv, pathv, i + 1, n as int);
                        }
                        return Err(e);
                    },
                    Ok(rv) => {
                        crate::json::push_entry(&mut out, key.clone(), rv);
                    },
                }
            }
        }
        i += 1;
    }
    if req.len() > 0 || has_req {
        let arr = req_to_arr_exec(&req);
        crate::json::push_entry(&mut out, crate::strutil::str_copy("required"), Json::Arr(arr));
    }
    Ok(Json::Obj(out))
}

/// Resolution of the properties of one object, threading the required
/// list through the visibility rules.
fn resolve_properties(props: &Vec<(String, Json)>, options: &ResolveOptions, path: &str,
    required: &Vec<String>) -> (r: Result<(Vec<(String, Json)>, Vec<String>), ResolveError>)
    ensures
        r is Ok ==> resolve_props(obj_entries_view(props@), options.direction,
            options.operation@, path@, required.deep_view(), props@.len() as int)
            == Ok::<_, ResolveErrV>((obj_entries_view(r->Ok_0.0@), r->Ok_0.1.deep_view())),
        r is Err ==> resolve_props(obj_entries_view(props@), options.direction,
            options.operation@, path@, required.deep_view(), props@.len() as int)
            == Err::<(Seq<(Seq<char>, JsonV)>, Seq<Seq<char>>), ResolveErrV>(r->Err_0@),
    decreases props@,
{
    broadcast use crate::json::group_json_view;

    let ghost pes_v = obj_entries_view(props@);
    let ghost d = options.direction;
    let ghost opv = options.operation@;
    let ghost pathv = path@;
    let ghost req0 = required.deep_view();
    let mut req = crate::strutil::copy_names(required);
    let n = props.len();
    let mut out: Vec<(String, Json)> = Vec::new();
    let mut i: usize = 0;
    while i < n
        invariant
            n == props@.len(),
            pes_v == obj_entries_view(props@),
            pes_v.len() == n,
            i <= n,
            d == options.direction,
            opv == options.operation@,
            pathv == path@,
            req0 == required.deep_view(),
            resolve_props(pes_v, d, opv, pathv, req0, i as int) == Ok::<_, ResolveErrV>(
                (obj_entries_view(out@), req.deep_view()),
            ),
        decreases n - i,
    {
        proof {
            crate::json::obj_entries_view_len(props@);
            crate::json::obj_entries_view_index(props@, i as int);
            assert(decreases_to!(props@ => props@[i as int]));
            assert(decreases_to!(props@[i as int] => props@[i as int].1));
        }
        let name = &props[i].0;
        let prop = &props[i].1;
        let prop_path = crate::strutil::str_concat3(path, "/", name.as_str());
        match get_visibility(prop, options.direction, options.operation.as_str(),
            prop_path.as_str()) {
            Err(e) => {
                proof {
                    lemma_props_err(pes_v, d, opv, pathv, req0, i + 1, n as int);
                }
                return Err(e);
            },
            Ok(Visibility::Omit) => {
                req = remove_name_exec(&req, name.as_str());
            },
            Ok(vis) => {
                match resolve_value(prop, options, prop_path.as_str()) {
                    Err(e) => {
                        proof {
                            lemma_props_err(pes_v, d, opv, pathv, req0, i + 1, n as int);
                        }
                        return Err(e);
                    },
                    Ok(rv) => {
                        let stripped = strip_annotations(&rv);
                        match vis {
                            Visibility::Required => {
                                if !has_name_exec(&req, name.as_str()) {
                                    let ghost pre = req.deep_view();
                                    req.push(name.clone());
                                    proof {
                                        assert(req.deep_view() =~= pre.push(name@));
                                    }
                                }
                            },
                            Visibility::Optional => {
                                req = remove_name_exec(&req, name.as_str());
                            },
                            _ => {},
                        }
                        crate::json::push_entry(&mut out, name.clone(), stripped);
                    },
                }
            },
        }
        i += 1;
    }
    Ok((out, req))
}

/// Resolution of each definition, independently.
fn resolve_definitions(des: &Vec<(String, Json)>, options: &ResolveOptions, path: &str)
    -> (r: Result<Vec<(String, Json)>, ResolveError>)
    ensures
        match r {
            Ok(dout) => resolve_defs(obj_entries_view(des@), options.direction,
                options.operation@, path@, des@.len() as int) == Ok::<_, ResolveErrV>(
                obj_entries_view(dout@),
            ),
            Err(e) => resolve_defs(obj_entries_view(des@), options.direction,
                options.operation@, path@, des@.len() as int)
                == Err::<Seq<(Seq<char>, JsonV)>, ResolveErrV>(e@),
        },
    decreases des@,
{
    broadcast use crate::json::group_json_view;

    let ghost des_v = obj_entries_view(des@);
    let ghost d = options.direction;
    let ghost opv = options.operation@;
    let ghost pathv = path@;
    let n = des.len();
    let mut out: Vec<(String, Json)> = Vec::new();
    let mut i: usize = 0;
    while i < n
        invariant
            n == des@.len(),
            des_v == obj_entries_view(des@),
            des_v.len() == n,
            i <= n,
            d == options.direction,
            opv == options.operation@,
            pathv == path@,
            resolve_defs(des_v, d, opv, pathv, i as int) == Ok::<_, ResolveErrV>(
                obj_entries_view(out@),
            ),
        decreases n - i,
    {
        proof {
            crate::json::obj_entries_view_len(des@);
            crate::json::obj_entries_view_index(des@, i as int);
            assert(decreases_to!(des@ => des@[i as int]));
            assert(decreases_to!(des@[i as int] => des@[i as int].1));
        }
        let name = &des[i].0;
        let def_path = crate::strutil::str_concat3(path, "/", name.as_str());
        match resolve_value(&des[i].1, options, def_path.as_str()) {
            Err(e) => {
                proof {
                    lemma_defs_err(des_v, d, opv, pathv, i + 1, n as int);
                }
                return Err(e);
            },
            Ok(rv) => {
                crate::json::push_entry(&mut out, name.clone(), rv);
            },
        }
        i += 1;
    }
    Ok(out)
}

/// Resolution of each array item; item paths carry the index.
fn resolve_array(items: &Vec<Json>, options: &ResolveOptions, path: &str)
    -> (r: Result<Vec<Json>, ResolveError>)
    ensures
        match r {
            Ok(o) => resolve_arr(arr_view(items@), options.direction, options.operation@,
                path@, items@.len() as int) == Ok::<_, ResolveErrV>(arr_view(o@)),
            Err(e) => resolve_arr(arr_view(items@), options.direction, options.operation@,
                path@, items@.len() as int) == Err::<Seq<JsonV>, ResolveErrV>(e@),
        },
    decreases items@,
{
    broadcast use crate::json::group_json_view;

    let ghost items_v = arr_view(items@);
    let ghost d = options.direction;
    let ghost opv = options.operation@;
    let ghost pathv = path@;
    let n = items.len();
    let mut out: Vec<Json> = Vec::new();
    let mut i: usize = 0;
    while i < n
        invariant
            n == items@.len(),
            items_v == arr_view(items@),
            items_v.len() == n,
            i <= n,
            d == options.direction,
            opv == options.operation@,
            pathv == path@,
            resolve_arr(items_v, d, opv, pathv, i as int) == Ok::<_, ResolveErrV>(arr_view(out@)),
        decreases n - i,
    {
        proof {
            crate::json::arr_view_len(items@);
            crate::json::arr_view_index(items@, i as int);
            assert(decreases_to!(items@ => items@[i as int]));
        }
        let idx = crate::strutil::usize_to_string(i);
        let item_path = crate::strutil::str_concat3(path, "/", idx.as_str());
        match resolve_value(&items[i], options, item_path.as_str()) {
            Err(e) => {
                proof {
                    lemma_arr_err(items_v, d, opv, pathv, i + 1, n as int);
                }
                return Err(e);
            },
            Ok(rv) => {
                crate::json::push_item(&mut out, rv);
            },
        }
        i += 1;
    }
    Ok(out)
}

// ------------------------------------------------------------------
// The executable strict-mode pass
// ------------------------------------------------------------------

/// Whether an entry list looks like an object schema.
fn is_object_schema_exec(entries: &Vec<(String, Json)>) -> (r: bool)
    ensures
        r == is_object_schema(obj_entries_view(entries@)),
{
    let type_is_object = match crate::json::entries_get(entries, "type") {
        Some(v) => match v {
            Json::Str(s) => crate::strutil::str_eq(s.as_str(), "object"),
            _ => false,
        },
        None => false,
    };
    type_is_object || crate::json::entries_get(entries, "properties").is_some()
}

/// Replaces the value of the first `additionalProperties` entry by `false`.
fn set_ap_false(es: &Vec<(String, Json)>) -> (r: Vec<(String, Json)>)
    ensures
        obj_entries_view(r@) == replace_first(obj_entries_view(es@), "additionalProperties"@,
            JsonV::Bool(false), es@.len() as int),
{
    broadcast use crate::json::group_json_view;

    let ghost es_v = obj_entries_view(es@);
    let n = es.len();
    let mut out: Vec<(String, Json)> = Vec::new();
    let mut done = false;
    let mut i: usize = 0;
    while i < n
        invariant
            n == es@.len(),
            es_v == obj_entries_view(es@),
            es_v.len() == n,
            i <= n,
            done == has_key_before(es_v, "additionalProperties"@, i as int),
            obj_entries_view(out@) == replace_first(es_v, "additionalProperties"@,
                JsonV::Bool(false), i as int),
        decreases n - i,
    {
        proof {
            crate::json::obj_entries_view_len(es@);
            crate::json::obj_entries_view_index(es@, i as int);
        }
        if !done && crate::strutil::str_eq(es[i].0.as_str(), "additionalProperties") {
            crate::json::push_entry(&mut out, crate::strutil::str_copy("additionalProperties"),
                Json::Bool(false));
            done = true;
        } else {
            crate::json::push_entry(&mut out, es[i].0.clone(), es[i].1.deep_copy());
        }
        i += 1;
    }
    out
}

/// Each entry value closed recursively.
fn close_values(pes: &Vec<(String, Json)>) -> (r: Vec<(String, Json)>)
    ensures
        obj_entries_view(r@) == close_vals(obj_entries_view(pes@), pes@.len() as int),
    decreases pes@,
{
    broadcast use crate::json::group_json_view;

    let ghost pes_v = obj_entries_view(pes@);
    let n = pes.len();
    let mut out: Vec<(String, Json)> = Vec::new();
    let mut i: usize = 0;
    while i < n
        invariant
            n == pes@.len(),
            pes_v == obj_entries_view(pes@),
            pes_v.len() == n,
            i <= n,
            obj_entries_view(out@) == close_vals(pes_v, i as int),
        decreases n - i,
    {
        proof {
            crate::json::obj_entries_view_len(pes@);
            crate::json::obj_entries_view_index(pes@, i as int);
            assert(decreases_to!(pes@ => pes@[i as int]));
            assert(decreases_to!(pes@[i as int] => pes@[i as int].1));
        }
        let c = close_additional_properties(&pes[i].1);
        crate::json::push_entry(&mut out, pes[i].0.clone(), c);
        i += 1;
    }
    out
}

/// Each array item closed recursively.
fn close_array(items: &Vec<Json>) -> (r: Vec<Json>)
    ensures
        arr_view(r@) == close_arr(arr_view(items@), items@.len() as int),
    decreases items@,
{
    broadcast use crate::json::group_json_view;

    let ghost items_v = arr_view(items@);
    let n = items.len();
    let mut out: Vec<Json> = Vec::new();
    let mut i: usize = 0;
    while i < n
        invariant
            n == items@.len(),
            items_v == arr_view(items@),
            items_v.len() == n,
            i <= n,
            arr_view(out@) == close_arr(items_v, i as int),
        decreases n - i,
    {
        proof {
            crate::json::arr_view_len(items@);
            crate::json::arr_view_index(items@, i as int);
            assert(decreases_to!(items@ => items@[i as int]));
        }
        let c = close_additional_properties(&items[i]);
        crate::json::push_item(&mut out, c);
        i += 1;
    }
    out
}

/// The strict-mode pass: sets `additionalProperties: false` on every
/// object schema, leaving `false` and author-written sub-schemas alone.
fn close_additional_properties(value: &Json) -> (r: Json)
    ensures
        r@ == close_v(value@),
    decreases value,
{
    broadcast use crate::json::group_json_view;

    match value {
        Json::Obj(entries) => {
            let ghost es_v = obj_entries_view(entries@);
            let n = entries.len();
            let mut out: Vec<(String, Json)> = Vec::new();
            let mut i: usize = 0;
            while i < n
                invariant
                    n == entries@.len(),
                    es_v == obj_entries_view(entries@),
                    es_v.len() == n,
                    i <= n,
                    *value == Json::Obj(*entries),
                    obj_entries_view(out@) == close_entries(es_v, i as int),
                decreases n - i,
            {
                proof {
                    crate::json::obj_entries_view_len(entries@);
                    crate::json::obj_entries_view_index(entries@, i as int);
                    assert(decreases_to!(*value => value->Obj_0));
                    assert(*entries == value->Obj_0);
                    assert(decreases_to!(*entries => entries@));
                    assert(decreases_to!(entries@ => entries@[i as int]));
                    assert(decreases_to!(entries@[i as int] => entries@[i as int].1));
                }
                let key = &entries[i].0;
                let child = &entries[i].1;
                if crate::strutil::str_eq(key.as_str(), "properties")
                    || crate::strutil::str_eq(key.as_str(), "$defs")
                    || crate::strutil::str_eq(key.as_str(), "definitions") {
                    match child {
                        Json::Obj(pes) => {
                            proof {
                                crate::json::obj_entries_view_len(pes@);
                                assert(*pes == entries@[i as int].1->Obj_0);
                                assert(decreases_to!(entries@[i as int].1
                                    => entries@[i as int].1->Obj_0));
                                assert(decreases_to!(*pes => pes@));
                            }
                            let cv = close_values(pes);
                            crate::json::push_entry(&mut out, key.clone(), Json::Obj(cv));
                        },
                        _ => {
                            crate::json::push_entry(&mut out, key.clone(), child.deep_copy());
                        },
                    }
                } else if crate::strutil::str_eq(key.as_str(), "items")
                    || crate::strutil::str_eq(key.as_str(), "additionalProperties") {
                    let c = close_additional_properties(child);
                    crate::json::push_entry(&mut out, key.clone(), c);
                } else if crate::strutil::str_eq(key.as_str(), "allOf")
                    || crate::strutil::str_eq(key.as_str(), "anyOf")
                    || crate::strutil::str_eq(key.as_str(), "oneOf") {
                    match child {
                        Json::Arr(items) => {
                            proof {
                                crate::json::arr_view_len(items@);
                                assert(*items == entries@[i as int].1->Arr_0);
                                assert(decreases_to!(entries@[i as int].1
                                    => entries@[i as int].1->Arr_0));
                                assert(decreases_to!(*items => items@));
                            }
                            let ca = close_array(items);
                            crate::json::push_entry(&mut out, key.clone(), Json::Arr(ca));
                        },
                        _ => {
                            crate::json::push_entry(&mut out, key.clone(), child.deep_copy());
                        },
                    }
                } else {
                    crate::json::push_entry(&mut out, key.clone(), child.deep_copy());
                }
                i += 1;
            }
            if is_object_schema_exec(entries) {
                match crate::json::entries_get(entries, "additionalProperties") {
                    None => {
                        crate::json::push_entry(&mut out,
                            crate::strutil::str_copy("additionalProperties"), Json::Bool(false));
                        Json::Obj(out)
                    },
                    Some(ap) => match ap {
                        Json::Bool(b) => {
                            if *b {
                                Json::Obj(set_ap_false(&out))
                            } else {
                                Json::Obj(out)
                            }
                        },
                        Json::Obj(_) => Json::Obj(out),
                        Json::Null | Json::Num(_) | Json::Str(_) | Json::Arr(_) => Json::Obj(
                            set_ap_false(&out),
                        ),
                    },
                }
            } else {
                Json::Obj(out)
            }
        },
        other => other.deep_copy(),
    }
}

// ------------------------------------------------------------------
// The public entry point
// ------------------------------------------------------------------

/// Resolve a schema for a specific direction and operation.
///
/// Returns a standard JSON Schema with all annotations removed and the
/// per-field visibility rules applied. When `options.strict` is true,
/// `additionalProperties: false` is set on all object schemas.
pub fn resolve(schema: &Json, options: &ResolveOptions) -> (r: Result<Json, ResolveError>)
    ensures
        match r {
            Ok(out) => resolve_spec(schema@, options.direction, options.operation@,
                options.strict) == Ok::<JsonV, ResolveErrV>(out@),
            Err(e) => resolve_spec(schema@, options.direction, options.operation@,
                options.strict) == Err::<JsonV, ResolveErrV>(e@),
        },
{
    proof {
        reveal_strlit("");
        assert(""@ =~= Seq::<char>::empty());
    }
    match resolve_value(schema, options, "") {
        Err(e) => Err(e),
        Ok(rv) => {
            if options.strict {
                Ok(close_additional_properties(&rv))
            } else {
                Ok(rv)
            }
        },
    }
}

/// The names as an array of JSON strings.
fn req_to_arr_exec(req: &Vec<String>) -> (r: Vec<Json>)
    ensures
        arr_view(r@) == req_to_arr(req.deep_view(), req@.len() as int),
{
    broadcast use crate::json::group_json_view;

    let ghost rv = req.deep_view();
    let n = req.len();
    let mut out: Vec<Json> = Vec::new();
    let mut i: usize = 0;
    while i < n
        invariant
            n == req@.len(),
            rv == req.deep_view(),
            i <= n,
            arr_view(out@) == req_to_arr(rv, i as int),
        decreases n - i,
    {
        let c = Json::Str(req[i].clone());
        let ghost pre = out@;
        out.push(c);
        proof {
            crate::json::arr_view_push(pre, c);
        }
        i += 1;
    }
    out
}

} // verus!
