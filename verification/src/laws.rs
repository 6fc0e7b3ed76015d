//! General laws of the library, stated and proved over the spec
//! functions that the public contracts use.

use vstd::prelude::*;

use crate::json::{obj_get, obj_get_from, JsonV};
use crate::loader::{bundle_entries, bundle_v};
use crate::json::obj_has;
use crate::resolver::{
    add_name, close_arr, close_entries, close_v, close_vals, has_key_before, has_name,
    is_annotation_key, is_composition_key, is_defs_key, is_object_schema, original_required,
    remove_name, replace_first, req_to_arr, resolve_entries, resolve_obj, resolve_props,
    strip_arr, strip_entries, strip_v, visibility_of,
};
use crate::types::{Direction, Visibility};

verus! {

/// No two entries of `es` share a key.
pub open spec fn unique_keys(es: Seq<(Seq<char>, JsonV)>) -> bool {
    forall|i: int, j: int| 0 <= i < j < es.len() ==> es[i].0 != es[j].0
}

// ------------------------------------------------------------------
// Small facts about entry lists and name lists
// ------------------------------------------------------------------

/// Looking a key up after a push: an earlier match wins, otherwise the
/// pushed entry answers.
pub proof fn lemma_obj_get_push(es: Seq<(Seq<char>, JsonV)>, e: (Seq<char>, JsonV),
    key: Seq<char>)
    ensures
        obj_get(es.push(e), key) == (if obj_get(es, key) is Some {
            obj_get(es, key)
        } else if e.0 == key {
            Some(e.1)
        } else {
            None::<JsonV>
        }),
{
    lemma_obj_get_from_push(es, e, key, 0);
}

proof fn lemma_obj_get_from_push(es: Seq<(Seq<char>, JsonV)>, e: (Seq<char>, JsonV),
    key: Seq<char>, i: int)
    requires
        0 <= i <= es.len(),
    ensures
        obj_get_from(es.push(e), key, i) == (if obj_get_from(es, key, i) is Some {
            obj_get_from(es, key, i)
        } else if e.0 == key {
            Some(e.1)
        } else {
            None::<JsonV>
        }),
    decreases es.len() - i,
{
    let p = es.push(e);
    if i < es.len() {
        assert(p[i] == es[i]);
        lemma_obj_get_from_push(es, e, key, i + 1);
    } else {
        assert(p[i] == e);
        assert(obj_get_from(p, key, i + 1) is None);
    }
}

/// A name is in a pushed list exactly when it is the pushed name or
/// was there before.
pub proof fn lemma_has_name_push(req: Seq<Seq<char>>, x: Seq<char>, name: Seq<char>)
    ensures
        has_name(req.push(x), name, req.len() as int + 1) == (x == name || has_name(req, name,
            req.len() as int)),
{
    lemma_has_name_prefix(req.push(x), req, name, req.len() as int);
}

/// `has_name` only looks at the first `i` entries.
proof fn lemma_has_name_prefix(a: Seq<Seq<char>>, b: Seq<Seq<char>>, name: Seq<char>, i: int)
    requires
        0 <= i <= a.len(),
        i <= b.len(),
        forall|k: int| 0 <= k < i ==> a[k] == b[k],
    ensures
        has_name(a, name, i) == has_name(b, name, i),
    decreases i,
{
    if i > 0 {
        lemma_has_name_prefix(a, b, name, i - 1);
    }
}

/// After removing a name, it is gone.
pub proof fn lemma_remove_name_gone(req: Seq<Seq<char>>, name: Seq<char>, i: int)
    requires
        0 <= i <= req.len(),
    ensures
        !has_name(remove_name(req, name, i), name, remove_name(req, name, i).len() as int),
    decreases i,
{
    if i > 0 {
        lemma_remove_name_gone(req, name, i - 1);
        if req[i - 1] != name {
            lemma_has_name_push(remove_name(req, name, i - 1), req[i - 1], name);
        }
    }
}

/// Removing one name leaves membership of any other name unchanged.
pub proof fn lemma_remove_name_other(req: Seq<Seq<char>>, x: Seq<char>, name: Seq<char>,
    i: int)
    requires
        0 <= i <= req.len(),
        x != name,
    ensures
        has_name(remove_name(req, x, i), name, remove_name(req, x, i).len() as int)
            == has_name(req, name, i),
    decreases i,
{
    if i > 0 {
        lemma_remove_name_other(req, x, name, i - 1);
        if req[i - 1] != x {
            lemma_has_name_push(remove_name(req, x, i - 1), req[i - 1], name);
        }
    }
}

/// Adding one name leaves membership of any other name unchanged.
pub proof fn lemma_add_name_other(req: Seq<Seq<char>>, x: Seq<char>, name: Seq<char>)
    requires
        x != name,
    ensures
        has_name(add_name(req, x), name, add_name(req, x).len() as int) == has_name(req,
            name, req.len() as int),
{
    if !has_name(req, x, req.len() as int) {
        lemma_has_name_push(req, x, name);
    }
}

// ------------------------------------------------------------------
// Stripping annotations twice equals stripping once
// ------------------------------------------------------------------

/// `strip_entries` only looks at the first `i` entries.
proof fn lemma_strip_entries_prefix(a: Seq<(Seq<char>, JsonV)>, b: Seq<(Seq<char>, JsonV)>,
    i: int)
    requires
        0 <= i <= a.len(),
        i <= b.len(),
        forall|k: int| 0 <= k < i ==> a[k] == b[k],
    ensures
        strip_entries(a, i) == strip_entries(b, i),
    decreases i,
{
    if i > 0 {
        lemma_strip_entries_prefix(a, b, i - 1);
    }
}

/// `strip_arr` only looks at the first `i` items.
proof fn lemma_strip_arr_prefix(a: Seq<JsonV>, b: Seq<JsonV>, i: int)
    requires
        0 <= i <= a.len(),
        i <= b.len(),
        forall|k: int| 0 <= k < i ==> a[k] == b[k],
    ensures
        strip_arr(a, i) == strip_arr(b, i),
    decreases i,
{
    if i > 0 {
        lemma_strip_arr_prefix(a, b, i - 1);
    }
}

/// Stripping annotations twice equals stripping once.
pub proof fn lemma_strip_idempotent(v: JsonV)
    ensures
        strip_v(strip_v(v)) == strip_v(v),
    decreases v, 2int,
{
    match v {
        JsonV::Obj(es) => {
            lemma_strip_entries_idempotent(es, es.len() as int);
        },
        JsonV::Arr(items) => {
            lemma_strip_arr_idempotent(items, items.len() as int);
        },
        _ => {},
    }
}

proof fn lemma_strip_entries_idempotent(es: Seq<(Seq<char>, JsonV)>, i: int)
    requires
        0 <= i <= es.len(),
    ensures
        strip_entries(strip_entries(es, i), strip_entries(es, i).len() as int)
            == strip_entries(es, i),
    decreases es, i,
{
    if i > 0 {
        lemma_strip_entries_idempotent(es, i - 1);
        let x = strip_entries(es, i - 1);
        if !is_annotation_key(es[i - 1].0) {
            assert(decreases_to!(es => es[i - 1]));
            assert(decreases_to!(es[i - 1] => es[i - 1].1));
            lemma_strip_idempotent(es[i - 1].1);
            let e = (es[i - 1].0, strip_v(es[i - 1].1));
            let p = x.push(e);
            assert(p[p.len() - 1] == e);
            lemma_strip_entries_prefix(p, x, x.len() as int);
            assert(strip_entries(p, p.len() as int) =~= strip_entries(p,
                x.len() as int).push((e.0, strip_v(e.1))));
            assert(strip_entries(p, p.len() as int) =~= x.push(e));
        }
    }
}

proof fn lemma_strip_arr_idempotent(items: Seq<JsonV>, i: int)
    requires
        0 <= i <= items.len(),
    ensures
        strip_arr(strip_arr(items, i), strip_arr(items, i).len() as int) == strip_arr(items,
            i),
    decreases items, i,
{
    if i > 0 {
        lemma_strip_arr_idempotent(items, i - 1);
        let x = strip_arr(items, i - 1);
        assert(decreases_to!(items => items[i - 1]));
        lemma_strip_idempotent(items[i - 1]);
        let e = strip_v(items[i - 1]);
        let p = x.push(e);
        assert(p[p.len() - 1] == e);
        lemma_strip_arr_prefix(p, x, x.len() as int);
        assert(strip_arr(p, p.len() as int) =~= strip_arr(p, x.len() as int).push(
            strip_v(e)));
        assert(strip_arr(p, p.len() as int) =~= x.push(e));
    }
}

// ------------------------------------------------------------------
// Visibility laws of the property pass
// ------------------------------------------------------------------

/// The stripped resolution of one property, as the pass pushes it.
pub open spec fn strip_v_of(prop: JsonV, d: Direction, op: Seq<char>, prop_path: Seq<char>)
    -> JsonV {
    match crate::resolver::resolve_v(prop, d, op, prop_path) {
        Ok(rv) => strip_v(rv),
        Err(_) => prop,
    }
}

/// The visibility rules, per property, over the whole pass: for the
/// unique property named `name`,
/// - marked `Omit`, the output keeps no property of that name and the
///   final required list does not hold the name;
/// - marked `Optional`, the final required list does not hold the name;
/// - marked `Required`, the final required list holds the name;
/// - with no applicable annotation (`Include`), membership of the name
///   in the required list is exactly what it was on input.
pub proof fn lemma_visibility_rules(pes: Seq<(Seq<char>, JsonV)>, d: Direction,
    op: Seq<char>, path: Seq<char>, req: Seq<Seq<char>>, name: Seq<char>, idx: int,
    out: Seq<(Seq<char>, JsonV)>, req_out: Seq<Seq<char>>, vis: Visibility)
    requires
        unique_keys(pes),
        0 <= idx < pes.len(),
        pes[idx].0 == name,
        visibility_of(pes[idx].1, d, op, path + "/"@ + name)
            == Ok::<Visibility, crate::error::ResolveErrV>(vis),
        resolve_props(pes, d, op, path, req, pes.len() as int)
            == Ok::<_, crate::error::ResolveErrV>((out, req_out)),
    ensures
        vis is Omit ==> obj_get(out, name) is None,
        vis is Omit || vis is Optional ==> !has_name(req_out, name, req_out.len() as int),
        vis is Required ==> has_name(req_out, name, req_out.len() as int),
        vis is Include ==> has_name(req_out, name, req_out.len() as int) == has_name(req,
            name, req.len() as int),
{
    lemma_visibility_rules_upto(pes, d, op, path, req, name, idx, vis, pes.len() as int);
}

proof fn lemma_visibility_rules_upto(pes: Seq<(Seq<char>, JsonV)>, d: Direction,
    op: Seq<char>, path: Seq<char>, req: Seq<Seq<char>>, name: Seq<char>, idx: int,
    vis: Visibility, i: int)
    requires
        unique_keys(pes),
        0 <= idx < pes.len(),
        pes[idx].0 == name,
        visibility_of(pes[idx].1, d, op, path + "/"@ + name)
            == Ok::<Visibility, crate::error::ResolveErrV>(vis),
        0 <= i <= pes.len(),
    ensures
        match resolve_props(pes, d, op, path, req, i) {
            Ok((out_i, req_i)) => {
                &&& (vis is Omit ==> obj_get(out_i, name) is None)
                &&& (i <= idx ==> has_name(req_i, name, req_i.len() as int) == has_name(req,
                    name, req.len() as int))
                &&& (idx < i ==> {
                    &&& (vis is Omit || vis is Optional ==> !has_name(req_i, name,
                        req_i.len() as int))
                    &&& (vis is Required ==> has_name(req_i, name, req_i.len() as int))
                    &&& (vis is Include ==> has_name(req_i, name, req_i.len() as int)
                        == has_name(req, name, req.len() as int))
                })
            },
            Err(_) => true,
        },
    decreases i,
{
    if i > 0 {
        lemma_visibility_rules_upto(pes, d, op, path, req, name, idx, vis, i - 1);
        match resolve_props(pes, d, op, path, req, i - 1) {
            Err(_) => {},
            Ok((out_p, req_p)) => {
                let key = pes[i - 1].0;
                let prop = pes[i - 1].1;
                let prop_path = path + "/"@ + key;
                match visibility_of(prop, d, op, prop_path) {
                    Err(_) => {},
                    Ok(v) => {
                        let stripped = strip_v_of(prop, d, op, prop_path);
                        if i - 1 == idx {
                            assert(v == vis);
                            match v {
                                Visibility::Omit => {
                                    lemma_remove_name_gone(req_p, name, req_p.len() as int);
                                },
                                Visibility::Required => {
                                    if !has_name(req_p, name, req_p.len() as int) {
                                        lemma_has_name_push(req_p, name, name);
                                    }
                                },
                                Visibility::Optional => {
                                    lemma_remove_name_gone(req_p, name, req_p.len() as int);
                                },
                                Visibility::Include => {},
                            }
                        } else {
                            assert(key != name) by {
                                if i - 1 < idx {
                                    assert(pes[i - 1].0 != pes[idx].0);
                                } else {
                                    assert(pes[idx].0 != pes[i - 1].0);
                                }
                            }
                            match v {
                                Visibility::Omit => {
                                    lemma_remove_name_other(req_p, key, name,
                                        req_p.len() as int);
                                },
                                Visibility::Required => {
                                    if vis is Omit {
                                        lemma_obj_get_push(out_p, (key, stripped), name);
                                    }
                                    lemma_add_name_other(req_p, key, name);
                                },
                                Visibility::Optional => {
                                    if vis is Omit {
                                        lemma_obj_get_push(out_p, (key, stripped), name);
                                    }
                                    lemma_remove_name_other(req_p, key, name,
                                        req_p.len() as int);
                                },
                                Visibility::Include => {
                                    if vis is Omit {
                                        lemma_obj_get_push(out_p, (key, stripped), name);
                                    }
                                },
                            }
                        }
                    },
                }
            },
        }
    }
}

// ------------------------------------------------------------------
// A required name occurs exactly once
// ------------------------------------------------------------------

/// How often `name` occurs among the first `i` names of `req`.
pub open spec fn count_name(req: Seq<Seq<char>>, name: Seq<char>, i: int) -> nat
    decreases i,
{
    if i <= 0 || i > req.len() {
        0
    } else if req[i - 1] == name {
        count_name(req, name, i - 1) + 1
    } else {
        count_name(req, name, i - 1)
    }
}

/// `count_name` only looks at the first `i` entries.
proof fn lemma_count_name_prefix(a: Seq<Seq<char>>, b: Seq<Seq<char>>, name: Seq<char>,
    i: int)
    requires
        0 <= i <= a.len(),
        i <= b.len(),
        forall|k: int| 0 <= k < i ==> a[k] == b[k],
    ensures
        count_name(a, name, i) == count_name(b, name, i),
    decreases i,
{
    if i > 0 {
        lemma_count_name_prefix(a, b, name, i - 1);
    }
}

/// Counting over a pushed list.
proof fn lemma_count_name_push(req: Seq<Seq<char>>, x: Seq<char>, name: Seq<char>)
    ensures
        count_name(req.push(x), name, req.len() as int + 1) == count_name(req, name,
            req.len() as int) + (if x == name { 1nat } else { 0nat }),
{
    lemma_count_name_prefix(req.push(x), req, name, req.len() as int);
}

/// A name is absent exactly when its count is zero.
proof fn lemma_count_name_zero(req: Seq<Seq<char>>, name: Seq<char>, i: int)
    requires
        0 <= i <= req.len(),
    ensures
        (count_name(req, name, i) == 0) <==> !has_name(req, name, i),
    decreases i,
{
    if i > 0 {
        lemma_count_name_zero(req, name, i - 1);
    }
}

/// Removing one name leaves the count of any other name unchanged.
proof fn lemma_count_remove_other(req: Seq<Seq<char>>, x: Seq<char>, name: Seq<char>, i: int)
    requires
        0 <= i <= req.len(),
        x != name,
    ensures
        count_name(remove_name(req, x, i), name, remove_name(req, x, i).len() as int)
            == count_name(req, name, i),
    decreases i,
{
    if i > 0 {
        lemma_count_remove_other(req, x, name, i - 1);
        if req[i - 1] != x {
            lemma_count_name_push(remove_name(req, x, i - 1), req[i - 1], name);
        }
    }
}

/// Adding one name leaves the count of any other name unchanged.
proof fn lemma_count_add_other(req: Seq<Seq<char>>, x: Seq<char>, name: Seq<char>)
    requires
        x != name,
    ensures
        count_name(add_name(req, x), name, add_name(req, x).len() as int) == count_name(req,
            name, req.len() as int),
{
    if !has_name(req, x, req.len() as int) {
        lemma_count_name_push(req, x, name);
    }
}

/// A property marked `Required` stands in the final required list
/// exactly once, whether or not the input list already held it (at
/// most once).
pub proof fn lemma_required_exactly_once(pes: Seq<(Seq<char>, JsonV)>, d: Direction,
    op: Seq<char>, path: Seq<char>, req: Seq<Seq<char>>, name: Seq<char>, idx: int,
    out: Seq<(Seq<char>, JsonV)>, req_out: Seq<Seq<char>>)
    requires
        unique_keys(pes),
        0 <= idx < pes.len(),
        pes[idx].0 == name,
        visibility_of(pes[idx].1, d, op, path + "/"@ + name)
            == Ok::<Visibility, crate::error::ResolveErrV>(Visibility::Required),
        count_name(req, name, req.len() as int) <= 1,
        resolve_props(pes, d, op, path, req, pes.len() as int)
            == Ok::<_, crate::error::ResolveErrV>((out, req_out)),
    ensures
        count_name(req_out, name, req_out.len() as int) == 1,
{
    lemma_required_once_upto(pes, d, op, path, req, name, idx, pes.len() as int);
}

proof fn lemma_required_once_upto(pes: Seq<(Seq<char>, JsonV)>, d: Direction, op: Seq<char>,
    path: Seq<char>, req: Seq<Seq<char>>, name: Seq<char>, idx: int, i: int)
    requires
        unique_keys(pes),
        0 <= idx < pes.len(),
        pes[idx].0 == name,
        visibility_of(pes[idx].1, d, op, path + "/"@ + name)
            == Ok::<Visibility, crate::error::ResolveErrV>(Visibility::Required),
        count_name(req, name, req.len() as int) <= 1,
        0 <= i <= pes.len(),
    ensures
        match resolve_props(pes, d, op, path, req, i) {
            Ok((out_i, req_i)) => {
                &&& (i <= idx ==> count_name(req_i, name, req_i.len() as int) == count_name(
                    req, name, req.len() as int))
                &&& (idx < i ==> count_name(req_i, name, req_i.len() as int) == 1)
            },
            Err(_) => true,
        },
    decreases i,
{
    if i > 0 {
        lemma_required_once_upto(pes, d, op, path, req, name, idx, i - 1);
        match resolve_props(pes, d, op, path, req, i - 1) {
            Err(_) => {},
            Ok((out_p, req_p)) => {
                let key = pes[i - 1].0;
                let prop = pes[i - 1].1;
                let prop_path = path + "/"@ + key;
                match visibility_of(prop, d, op, prop_path) {
                    Err(_) => {},
                    Ok(v) => {
                        if i - 1 == idx {
                            assert(v == Visibility::Required);
                            lemma_count_name_zero(req_p, name, req_p.len() as int);
                            if !has_name(req_p, name, req_p.len() as int) {
                                lemma_count_name_push(req_p, name, name);
                            }
                        } else {
                            assert(key != name) by {
                                if i - 1 < idx {
                                    assert(pes[i - 1].0 != pes[idx].0);
                                } else {
                                    assert(pes[idx].0 != pes[i - 1].0);
                                }
                            }
                            match v {
                                Visibility::Omit => {
                                    lemma_count_remove_other(req_p, key, name,
                                        req_p.len() as int);
                                },
                                Visibility::Required => {
                                    lemma_count_add_other(req_p, key, name);
                                },
                                Visibility::Optional => {
                                    lemma_count_remove_other(req_p, key, name,
                                        req_p.len() as int);
                                },
                                Visibility::Include => {},
                            }
                        }
                    },
                }
            },
        }
    }
}

// ------------------------------------------------------------------
// Bundling laws
// ------------------------------------------------------------------

/// Every `$ref` in the tree is internal (it starts with `#`), so
/// top-level bundling has nothing to load.
pub open spec fn refs_are_internal(v: JsonV) -> bool
    decreases v, 1int,
{
    match v {
        JsonV::Obj(es) => {
            let ref_ok = match obj_get(es, "$ref"@) {
                Some(JsonV::Str(rv)) => rv.len() > 0 && rv[0] == '#',
                _ => true,
            };
            ref_ok && entries_refs_internal(es, es.len() as int)
        },
        JsonV::Arr(items) => arr_refs_internal(items, items.len() as int),
        _ => true,
    }
}

/// The first `i` entry values carry only internal references.
pub open spec fn entries_refs_internal(es: Seq<(Seq<char>, JsonV)>, i: int) -> bool
    decreases es, i,
{
    if i <= 0 || i > es.len() {
        true
    } else {
        entries_refs_internal(es, i - 1) && refs_are_internal(es[i - 1].1)
    }
}

/// The first `i` items carry only internal references.
pub open spec fn arr_refs_internal(items: Seq<JsonV>, i: int) -> bool
    decreases items, i,
{
    if i <= 0 || i > items.len() {
        true
    } else {
        arr_refs_internal(items, i - 1) && refs_are_internal(items[i - 1])
    }
}

/// Bundling a top-level document whose references are all internal
/// returns it unchanged, whatever the store holds; in particular it
/// never touches annotation keys.
pub proof fn lemma_bundle_internal_unchanged(v: JsonV, base_dir: Seq<char>,
    local_base: Option<Seq<char>>, remote_base: Option<Seq<char>>,
    store: Seq<(Seq<char>, JsonV)>, visited: Seq<Seq<char>>, fuel: nat)
    requires
        refs_are_internal(v),
    ensures
        bundle_v(v, base_dir, None, local_base, remote_base, store, visited, fuel)
            == Ok::<JsonV, crate::error::ResolveErrV>(v),
    decreases v, 1int,
{
    match v {
        JsonV::Obj(es) => {
            lemma_bundle_entries_internal_unchanged(es, base_dir, local_base, remote_base,
                store, visited, fuel, es.len() as int);
            assert(es.subrange(0, es.len() as int) =~= es);
            assert(crate::loader::bundle_obj_plain(es, base_dir, None, local_base,
                remote_base, store, visited, fuel)
                == Ok::<JsonV, crate::error::ResolveErrV>(v));
            match obj_get(es, "$ref"@) {
                Some(x) => match x {
                    JsonV::Str(rv) => {
                        assert(rv.len() > 0 && rv[0] == '#');
                        assert(bundle_v(v, base_dir, None, local_base, remote_base, store,
                            visited, fuel) == Ok::<JsonV, crate::error::ResolveErrV>(v));
                    },
                    _ => {
                        assert(bundle_v(v, base_dir, None, local_base, remote_base, store,
                            visited, fuel) == Ok::<JsonV, crate::error::ResolveErrV>(v));
                    },
                },
                None => {
                    assert(bundle_v(v, base_dir, None, local_base, remote_base, store,
                        visited, fuel) == Ok::<JsonV, crate::error::ResolveErrV>(v));
                },
            }
        },
        JsonV::Arr(items) => {
            lemma_bundle_arr_internal_unchanged(items, base_dir, local_base, remote_base,
                store, visited, fuel, items.len() as int);
            assert(items.subrange(0, items.len() as int) =~= items);
        },
        _ => {},
    }
}

proof fn lemma_bundle_entries_internal_unchanged(es: Seq<(Seq<char>, JsonV)>,
    base_dir: Seq<char>, local_base: Option<Seq<char>>, remote_base: Option<Seq<char>>,
    store: Seq<(Seq<char>, JsonV)>, visited: Seq<Seq<char>>, fuel: nat, i: int)
    requires
        entries_refs_internal(es, i),
        0 <= i <= es.len(),
    ensures
        bundle_entries(es, base_dir, None, local_base, remote_base, store, visited, fuel, i)
            == Ok::<Seq<(Seq<char>, JsonV)>, crate::error::ResolveErrV>(es.subrange(0, i)),
    decreases es, i,
{
    if i > 0 {
        lemma_bundle_entries_internal_unchanged(es, base_dir, local_base, remote_base, store,
            visited, fuel, i - 1);
        assert(decreases_to!(es => es[i - 1]));
        assert(decreases_to!(es[i - 1] => es[i - 1].1));
        lemma_bundle_internal_unchanged(es[i - 1].1, base_dir, local_base, remote_base,
            store, visited, fuel);
        assert(es.subrange(0, i - 1).push(es[i - 1]) =~= es.subrange(0, i));
    } else {
        assert(es.subrange(0, 0) =~= Seq::<(Seq<char>, JsonV)>::empty());
    }
}

proof fn lemma_bundle_arr_internal_unchanged(items: Seq<JsonV>, base_dir: Seq<char>,
    local_base: Option<Seq<char>>, remote_base: Option<Seq<char>>,
    store: Seq<(Seq<char>, JsonV)>, visited: Seq<Seq<char>>, fuel: nat, i: int)
    requires
        arr_refs_internal(items, i),
        0 <= i <= items.len(),
    ensures
        crate::loader::bundle_arr(items, base_dir, None, local_base, remote_base, store,
            visited, fuel, i) == Ok::<Seq<JsonV>, crate::error::ResolveErrV>(items.subrange(
            0, i)),
    decreases items, i,
{
    if i > 0 {
        lemma_bundle_arr_internal_unchanged(items, base_dir, local_base, remote_base, store,
            visited, fuel, i - 1);
        assert(decreases_to!(items => items[i - 1]));
        lemma_bundle_internal_unchanged(items[i - 1], base_dir, local_base, remote_base,
            store, visited, fuel);
        assert(items.subrange(0, i - 1).push(items[i - 1]) =~= items.subrange(0, i));
    } else {
        assert(items.subrange(0, 0) =~= Seq::<JsonV>::empty());
    }
}

/// Over the first `i` entries, bundling keeps every key in place and
/// bundles every value.
proof fn lemma_bundle_entries_shape(es: Seq<(Seq<char>, JsonV)>, base_dir: Seq<char>,
    file_root: Option<(Seq<char>, JsonV)>, local_base: Option<Seq<char>>,
    remote_base: Option<Seq<char>>, store: Seq<(Seq<char>, JsonV)>, visited: Seq<Seq<char>>,
    fuel: nat, i: int)
    requires
        0 <= i <= es.len(),
    ensures
        match bundle_entries(es, base_dir, file_root, local_base, remote_base, store,
            visited, fuel, i) {
            Ok(bs) => bs.len() == i && forall|k: int| 0 <= k < i ==> (#[trigger] bs[k]).0
                == es[k].0 && bundle_v(es[k].1, base_dir, file_root, local_base, remote_base,
                store, visited, fuel) == Ok::<JsonV, crate::error::ResolveErrV>(bs[k].1),
            Err(_) => true,
        },
    decreases i,
{
    if i > 0 {
        lemma_bundle_entries_shape(es, base_dir, file_root, local_base, remote_base, store,
            visited, fuel, i - 1);
    }
}

/// Walking two entry lists with equal keys in parallel: a lookup finds
/// the bundled value exactly where the original found its value.
proof fn lemma_obj_get_parallel(es: Seq<(Seq<char>, JsonV)>, bs: Seq<(Seq<char>, JsonV)>,
    base_dir: Seq<char>, file_root: Option<(Seq<char>, JsonV)>,
    local_base: Option<Seq<char>>, remote_base: Option<Seq<char>>,
    store: Seq<(Seq<char>, JsonV)>, visited: Seq<Seq<char>>, fuel: nat, key: Seq<char>,
    j: int)
    requires
        bs.len() == es.len(),
        forall|k: int| 0 <= k < es.len() ==> (#[trigger] bs[k]).0 == es[k].0 && bundle_v(
            es[k].1, base_dir, file_root, local_base, remote_base, store, visited, fuel)
            == Ok::<JsonV, crate::error::ResolveErrV>(bs[k].1),
        0 <= j <= es.len(),
    ensures
        match obj_get_from(es, key, j) {
            Some(v0) => (obj_get_from(bs, key, j) matches Some(v1) && bundle_v(v0, base_dir,
                file_root, local_base, remote_base, store, visited, fuel)
                == Ok::<JsonV, crate::error::ResolveErrV>(v1)),
            None => obj_get_from(bs, key, j) is None,
        },
    decreases es.len() - j,
{
    if j < es.len() {
        lemma_obj_get_parallel(es, bs, base_dir, file_root, local_base, remote_base, store,
            visited, fuel, key, j + 1);
    }
}

/// A self-referential node (`"$ref": "#"`) keeps that reference
/// through bundling, in any context: the bundler rebuilds the object
/// around it but never rewrites the reference itself.
pub proof fn lemma_self_ref_preserved(es: Seq<(Seq<char>, JsonV)>, base_dir: Seq<char>,
    file_root: Option<(Seq<char>, JsonV)>, local_base: Option<Seq<char>>,
    remote_base: Option<Seq<char>>, store: Seq<(Seq<char>, JsonV)>, visited: Seq<Seq<char>>,
    fuel: nat)
    requires
        obj_get(es, "$ref"@) == Some(JsonV::Str("#"@)),
    ensures
        match bundle_v(JsonV::Obj(es), base_dir, file_root, local_base, remote_base, store,
            visited, fuel) {
            Ok(out) => out is Obj && obj_get(out->Obj_0, "$ref"@) == Some(JsonV::Str("#"@)),
            Err(_) => true,
        },
{
    match bundle_entries(es, base_dir, file_root, local_base, remote_base, store, visited,
        fuel, es.len() as int) {
        Err(e) => {
            assert(crate::loader::bundle_obj_plain(es, base_dir, file_root, local_base,
                remote_base, store, visited, fuel)
                == Err::<JsonV, crate::error::ResolveErrV>(e));
            assert(bundle_v(JsonV::Obj(es), base_dir, file_root, local_base, remote_base,
                store, visited, fuel) == Err::<JsonV, crate::error::ResolveErrV>(e));
        },
        Ok(bs) => {
            assert(crate::loader::bundle_obj_plain(es, base_dir, file_root, local_base,
                remote_base, store, visited, fuel)
                == Ok::<JsonV, crate::error::ResolveErrV>(JsonV::Obj(bs)));
            assert(bundle_v(JsonV::Obj(es), base_dir, file_root, local_base, remote_base,
                store, visited, fuel)
                == Ok::<JsonV, crate::error::ResolveErrV>(JsonV::Obj(bs)));
            lemma_bundle_entries_shape(es, base_dir, file_root, local_base, remote_base,
                store, visited, fuel, es.len() as int);
            lemma_obj_get_parallel(es, bs, base_dir, file_root, local_base, remote_base,
                store, visited, fuel, "$ref"@, 0);
        },
    }
}

// ------------------------------------------------------------------
// Strict-mode laws
// ------------------------------------------------------------------

/// What the strict pass makes of one entry value, by its key.
pub open spec fn close_entry_val(key: Seq<char>, value: JsonV) -> JsonV {
    if key == "properties"@ || is_defs_key(key) {
        match value {
            JsonV::Obj(pes) => JsonV::Obj(close_vals(pes, pes.len() as int)),
            _ => value,
        }
    } else if key == "items"@ || key == "additionalProperties"@ {
        close_v(value)
    } else if is_composition_key(key) {
        match value {
            JsonV::Arr(items) => JsonV::Arr(close_arr(items, items.len() as int)),
            _ => value,
        }
    } else {
        value
    }
}

/// The strict pass keeps every key in place and maps every value by
/// its key: `properties` and definition maps are closed value by
/// value, `items` and `additionalProperties` are closed as schemas,
/// composition branches are closed one by one, everything else is
/// untouched.
pub proof fn lemma_close_entries_pointwise(es: Seq<(Seq<char>, JsonV)>, i: int)
    requires
        0 <= i <= es.len(),
    ensures
        close_entries(es, i).len() == i,
        forall|k: int| 0 <= k < i ==> #[trigger] close_entries(es, i)[k] == (es[k].0,
            close_entry_val(es[k].0, es[k].1)),
    decreases i,
{
    if i > 0 {
        lemma_close_entries_pointwise(es, i - 1);
    }
}

/// A lookup in the closed entries finds the closed value exactly where
/// the original found its value.
proof fn lemma_obj_get_closed(es: Seq<(Seq<char>, JsonV)>, cs: Seq<(Seq<char>, JsonV)>,
    key: Seq<char>, j: int)
    requires
        cs.len() == es.len(),
        forall|k: int| 0 <= k < es.len() ==> #[trigger] cs[k] == (es[k].0,
            close_entry_val(es[k].0, es[k].1)),
        0 <= j <= es.len(),
    ensures
        obj_get_from(cs, key, j) == match obj_get_from(es, key, j) {
            Some(v0) => Some(close_entry_val(key, v0)),
            None => None::<JsonV>,
        },
    decreases es.len() - j,
{
    if j < es.len() {
        lemma_obj_get_closed(es, cs, key, j + 1);
    }
}

/// `replace_first` keeps every key and every value but the first
/// occurrence of the replaced key.
proof fn lemma_replace_first_pointwise(es: Seq<(Seq<char>, JsonV)>, key: Seq<char>, v: JsonV,
    i: int)
    requires
        0 <= i <= es.len(),
    ensures
        replace_first(es, key, v, i).len() == i,
        forall|k: int| 0 <= k < i ==> #[trigger] replace_first(es, key, v, i)[k] == (
            if es[k].0 == key && !has_key_before(es, key, k) {
                (key, v)
            } else {
                es[k]
            }),
    decreases i,
{
    if i > 0 {
        lemma_replace_first_pointwise(es, key, v, i - 1);
    }
}

/// After `replace_first`, a lookup of the replaced key finds the new
/// value (when the key was there at all).
proof fn lemma_obj_get_replaced(es: Seq<(Seq<char>, JsonV)>, rs: Seq<(Seq<char>, JsonV)>,
    key: Seq<char>, vnew: JsonV, j: int)
    requires
        rs.len() == es.len(),
        forall|k: int| 0 <= k < es.len() ==> #[trigger] rs[k] == (
            if es[k].0 == key && !has_key_before(es, key, k) {
                (key, vnew)
            } else {
                es[k]
            }),
        0 <= j <= es.len(),
        !has_key_before(es, key, j),
    ensures
        obj_get_from(es, key, j) is Some ==> obj_get_from(rs, key, j) == Some(vnew),
        obj_get_from(es, key, j) is None ==> obj_get_from(rs, key, j) is None,
    decreases es.len() - j,
{
    if j < es.len() {
        if es[j].0 == key {
            assert(rs[j] == (key, vnew));
        } else {
            assert(!has_key_before(es, key, j + 1));
            lemma_obj_get_replaced(es, rs, key, vnew, j + 1);
        }
    }
}

/// The strict pass at one object schema: a missing
/// `additionalProperties` key is set to `false`, an explicit `true`
/// becomes `false`, an explicit `false` stays, and an author-written
/// sub-schema stays a sub-schema.
pub proof fn lemma_strict_closes_object(es: Seq<(Seq<char>, JsonV)>)
    ensures
        close_v(JsonV::Obj(es)) is Obj,
        is_object_schema(es) && (match obj_get(es, "additionalProperties"@) {
            Some(x) => !(x is Obj),
            None => true,
        }) ==> obj_get(close_v(JsonV::Obj(es))->Obj_0, "additionalProperties"@)
            == Some(JsonV::Bool(false)),
        (obj_get(es, "additionalProperties"@) matches Some(apv) && apv is Obj) ==> (obj_get(
            close_v(JsonV::Obj(es))->Obj_0, "additionalProperties"@) matches Some(apv2)
            && apv2 is Obj),
{
    reveal_strlit("additionalProperties");
    reveal_strlit("properties");
    reveal_strlit("$defs");
    reveal_strlit("definitions");
    reveal_strlit("items");
    reveal_strlit("allOf");
    reveal_strlit("anyOf");
    reveal_strlit("oneOf");
    assert("additionalProperties"@.len() == 20);
    assert("properties"@.len() == 10);
    assert("$defs"@.len() == 5);
    assert("definitions"@.len() == 11);
    assert("items"@.len() == 5);
    assert("allOf"@.len() == 5);
    assert("anyOf"@.len() == 5);
    assert("oneOf"@.len() == 5);
    let ap = "additionalProperties"@;
    let closed = close_entries(es, es.len() as int);
    lemma_close_entries_pointwise(es, es.len() as int);
    lemma_obj_get_closed(es, closed, ap, 0);
    assert(close_entry_val(ap, JsonV::Bool(false)) == JsonV::Bool(false));
    if is_object_schema(es) {
        match obj_get(es, ap) {
            None => {
                lemma_obj_get_push(closed, (ap, JsonV::Bool(false)), ap);
            },
            Some(x) => {
                if !(x is Obj) && x != JsonV::Bool(false) {
                    lemma_replace_first_pointwise(closed, ap, JsonV::Bool(false),
                        closed.len() as int);
                    lemma_obj_get_replaced(closed, replace_first(closed, ap, JsonV::Bool(
                        false), closed.len() as int), ap, JsonV::Bool(false), 0);
                }
            },
        }
    }
}

// ------------------------------------------------------------------
// From the property pass to the whole object
// ------------------------------------------------------------------

/// `req_to_arr` maps names to JSON strings pointwise.
proof fn lemma_req_to_arr_pointwise(req: Seq<Seq<char>>, i: int)
    requires
        0 <= i <= req.len(),
    ensures
        req_to_arr(req, i).len() == i,
        forall|k: int| 0 <= k < i ==> #[trigger] req_to_arr(req, i)[k] == JsonV::Str(req[k]),
    decreases i,
{
    if i > 0 {
        lemma_req_to_arr_pointwise(req, i - 1);
    }
}

/// A name is in the list exactly when some position holds it.
proof fn lemma_has_name_exists(req: Seq<Seq<char>>, name: Seq<char>, i: int)
    requires
        0 <= i <= req.len(),
    ensures
        has_name(req, name, i) <==> exists|k: int| 0 <= k < i && req[k] == name,
    decreases i,
{
    if i > 0 {
        lemma_has_name_exists(req, name, i - 1);
        if req[i - 1] == name {
            assert(0 <= i - 1 < i && req[i - 1] == name);
        }
    }
}

/// How often the JSON string of `name` occurs among the first `i`
/// items.
pub open spec fn count_str(items: Seq<JsonV>, name: Seq<char>, i: int) -> nat
    decreases i,
{
    if i <= 0 || i > items.len() {
        0
    } else if items[i - 1] == JsonV::Str(name) {
        count_str(items, name, i - 1) + 1
    } else {
        count_str(items, name, i - 1)
    }
}

/// Counting a name in the list and counting its JSON string in the
/// rendered array agree.
proof fn lemma_count_str_of_req(req: Seq<Seq<char>>, name: Seq<char>, i: int)
    requires
        0 <= i <= req.len(),
    ensures
        count_str(req_to_arr(req, req.len() as int), name, i) == count_name(req, name, i),
    decreases i,
{
    lemma_req_to_arr_pointwise(req, req.len() as int);
    if i > 0 {
        lemma_count_str_of_req(req, name, i - 1);
    }
}

/// What one object node does with its single `properties` entry: the
/// property pass runs on the object's own required list, every other
/// entry leaves the required list alone, no entry named `required` is
/// copied, and the `properties` entry of the output carries the pass's
/// output.
proof fn lemma_entries_properties(es: Seq<(Seq<char>, JsonV)>, d: Direction, op: Seq<char>,
    path: Seq<char>, pidx: int, pes: Seq<(Seq<char>, JsonV)>, i: int)
    requires
        unique_keys(es),
        0 <= pidx < es.len(),
        es[pidx].0 == "properties"@,
        es[pidx].1 == JsonV::Obj(pes),
        0 <= i <= es.len(),
    ensures
        match resolve_entries(es, d, op, path, i) {
            Ok((outes, req_i)) => {
                &&& (forall|k: int| 0 <= k < outes.len() ==> (#[trigger] outes[k]).0
                    != "required"@)
                &&& (i <= pidx ==> req_i == original_required(es) && obj_get(outes,
                    "properties"@) is None)
                &&& (pidx < i ==> match resolve_props(pes, d, op, path + "/"@ + "properties"@,
                    original_required(es), pes.len() as int) {
                    Ok((po, req2)) => req_i == req2 && obj_get(outes, "properties"@)
                        == Some(JsonV::Obj(po)),
                    Err(_) => false,
                })
            },
            Err(_) => true,
        },
    decreases i,
{
    reveal_strlit("properties");
    reveal_strlit("required");
    reveal_strlit("ucp_request");
    reveal_strlit("ucp_response");
    reveal_strlit("$defs");
    reveal_strlit("definitions");
    reveal_strlit("allOf");
    reveal_strlit("anyOf");
    reveal_strlit("oneOf");
    reveal_strlit("additionalProperties");
    reveal_strlit("/");
    assert("properties"@.len() == 10);
    assert("required"@.len() == 8);
    assert("ucp_request"@.len() == 11);
    assert("ucp_response"@.len() == 12);
    if i > 0 {
        lemma_entries_properties(es, d, op, path, pidx, pes, i - 1);
        match resolve_entries(es, d, op, path, i - 1) {
            Err(_) => {},
            Ok((outes, req_p)) => {
                let key = es[i - 1].0;
                if i - 1 == pidx {
                    assert(key == "properties"@);
                    assert(!is_annotation_key(key));
                    assert(key != "required"@);
                    match resolve_props(pes, d, op, path + "/"@ + "properties"@,
                        original_required(es), pes.len() as int) {
                        Err(_) => {},
                        Ok((po, req2)) => {
                            let e = ("properties"@, JsonV::Obj(po));
                            lemma_obj_get_push(outes, e, "properties"@);
                            assert(forall|k: int| 0 <= k < outes.push(e).len()
                                ==> (#[trigger] outes.push(e)[k]).0 != "required"@);
                        },
                    }
                } else {
                    assert(key != "properties"@) by {
                        if i - 1 < pidx {
                            assert(es[i - 1].0 != es[pidx].0);
                        } else {
                            assert(es[pidx].0 != es[i - 1].0);
                        }
                    }
                    match resolve_entries(es, d, op, path, i) {
                        Err(_) => {},
                        Ok((outes2, _)) => {
                            if outes2.len() > outes.len() {
                                assert(outes2 == outes.push(outes2[outes2.len() - 1]));
                                assert(outes2[outes2.len() - 1].0 == key);
                                lemma_obj_get_push(outes, outes2[outes2.len() - 1],
                                    "properties"@);
                                assert(forall|k: int| 0 <= k < outes2.len()
                                    ==> (#[trigger] outes2[k]).0 != "required"@);
                            }
                        },
                    }
                }
            },
        }
    }
}

/// The visibility rules at a whole object node: for the object's
/// unique `properties` entry and the unique property named `name` in
/// it, the resolved object
/// - keeps no such property and no such required name when it is
///   marked `Omit`;
/// - holds the name in `required` exactly once when it is marked
///   `Required` (the input `required` held it at most once);
/// - does not hold the name in `required` when it is marked `Optional`;
/// - holds the name in `required` exactly as the input did when no
///   annotation applies.
pub proof fn lemma_object_visibility_rules(es: Seq<(Seq<char>, JsonV)>, d: Direction,
    op: Seq<char>, path: Seq<char>, pidx: int, pes: Seq<(Seq<char>, JsonV)>, idx: int,
    name: Seq<char>, vis: Visibility, res: JsonV)
    requires
        unique_keys(es),
        0 <= pidx < es.len(),
        es[pidx].0 == "properties"@,
        es[pidx].1 == JsonV::Obj(pes),
        unique_keys(pes),
        0 <= idx < pes.len(),
        pes[idx].0 == name,
        visibility_of(pes[idx].1, d, op, path + "/"@ + "properties"@ + "/"@ + name)
            == Ok::<Visibility, crate::error::ResolveErrV>(vis),
        count_name(original_required(es), name, original_required(es).len() as int) <= 1,
        resolve_obj(es, d, op, path) == Ok::<JsonV, crate::error::ResolveErrV>(res),
    ensures
        res is Obj,
        vis is Omit ==> (obj_get(res->Obj_0, "properties"@) matches Some(pv) && pv is Obj
            && obj_get(pv->Obj_0, name) is None),
        vis is Omit || vis is Optional ==> match obj_get(res->Obj_0, "required"@) {
            Some(JsonV::Arr(ra)) => forall|k: int| 0 <= k < ra.len() ==> ra[k]
                != JsonV::Str(name),
            Some(_) => false,
            None => true,
        },
        vis is Required ==> match obj_get(res->Obj_0, "required"@) {
            Some(JsonV::Arr(ra)) => count_str(ra, name, ra.len() as int) == 1,
            _ => false,
        },
        vis is Include ==> match obj_get(res->Obj_0, "required"@) {
            Some(JsonV::Arr(ra)) => (exists|k: int| 0 <= k < ra.len() && ra[k]
                == JsonV::Str(name)) == has_name(original_required(es), name,
                original_required(es).len() as int),
            Some(_) => false,
            None => !has_name(original_required(es), name,
                original_required(es).len() as int),
        },
{
    reveal_strlit("properties");
    reveal_strlit("required");
    let req0 = original_required(es);
    let ppath = path + "/"@ + "properties"@;
    lemma_entries_properties(es, d, op, path, pidx, pes, es.len() as int);
    match resolve_entries(es, d, op, path, es.len() as int) {
        Err(_) => {},
        Ok((outes, req_f)) => {
            match resolve_props(pes, d, op, ppath, req0, pes.len() as int) {
                Err(_) => {},
                Ok((po, req2)) => {
                    lemma_visibility_rules(pes, d, op, ppath, req0, name, idx, po, req2,
                        vis);
                    if vis is Required {
                        lemma_required_exactly_once(pes, d, op, ppath, req0, name, idx, po,
                            req2);
                    }
                    let rn = req_f.len() as int;
                    lemma_req_to_arr_pointwise(req_f, rn);
                    lemma_has_name_exists(req_f, name, rn);
                    lemma_count_str_of_req(req_f, name, rn);
                    assert(obj_get(outes, "required"@) is None) by {
                        lemma_obj_get_none_when_no_key(outes, "required"@, 0);
                    }
                    let ra = req_to_arr(req_f, rn);
                    assert((exists|k: int| 0 <= k < ra.len() && ra[k] == JsonV::Str(name))
                        == has_name(req_f, name, rn)) by {
                        if exists|k: int| 0 <= k < ra.len() && ra[k] == JsonV::Str(name) {
                            let k = choose|k: int| 0 <= k < ra.len() && ra[k]
                                == JsonV::Str(name);
                            assert(req_f[k] == name);
                        }
                        if has_name(req_f, name, rn) {
                            let k = choose|k: int| 0 <= k < rn && req_f[k] == name;
                            assert(ra[k] == JsonV::Str(name));
                        }
                    }
                    assert(forall|k: int| 0 <= k < ra.len() && !has_name(req_f, name, rn)
                        ==> #[trigger] ra[k] != JsonV::Str(name));
                    if req_f.len() > 0 || obj_has(es, "required"@) {
                        let e = ("required"@, JsonV::Arr(ra));
                        lemma_obj_get_push(outes, e, "required"@);
                        lemma_obj_get_push(outes, e, "properties"@);
                        assert(e.0 != "properties"@);
                    }
                },
            }
        },
    }
}

/// A key held by no entry is not found.
proof fn lemma_obj_get_none_when_no_key(es: Seq<(Seq<char>, JsonV)>, key: Seq<char>, j: int)
    requires
        0 <= j <= es.len(),
        forall|k: int| 0 <= k < es.len() ==> (#[trigger] es[k]).0 != key,
    ensures
        obj_get_from(es, key, j) is None,
    decreases es.len() - j,
{
    if j < es.len() {
        lemma_obj_get_none_when_no_key(es, key, j + 1);
    }
}

// ------------------------------------------------------------------
// The strict pass closes the whole tree
// ------------------------------------------------------------------

/// Whether an `additionalProperties` value rejects unknown fields or
/// is an author-written sub-schema.
pub open spec fn ap_closed(o: Option<JsonV>) -> bool {
    match o {
        Some(JsonV::Bool(b)) => !b,
        Some(JsonV::Obj(_)) => true,
        _ => false,
    }
}

/// The tree is fully closed: every object schema, along every position
/// the strict pass visits, carries a closing `additionalProperties`.
pub open spec fn all_closed(v: JsonV) -> bool
    decreases v, 2int,
{
    match v {
        JsonV::Obj(es) => {
            (is_object_schema(es) ==> ap_closed(obj_get(es, "additionalProperties"@)))
                && closed_entries_pred(es, es.len() as int)
        },
        _ => true,
    }
}

/// Whether one entry satisfies the closure the pass gives it.
pub open spec fn entry_all_closed(key: Seq<char>, value: JsonV) -> bool
    decreases value, 3int,
{
    if key == "properties"@ || is_defs_key(key) {
        match value {
            JsonV::Obj(pes) => vals_all_closed(pes, pes.len() as int),
            _ => true,
        }
    } else if key == "items"@ || key == "additionalProperties"@ {
        all_closed(value)
    } else if is_composition_key(key) {
        match value {
            JsonV::Arr(items) => arr_all_closed(items, items.len() as int),
            _ => true,
        }
    } else {
        true
    }
}

/// `entry_all_closed` over the first `i` entries.
pub open spec fn closed_entries_pred(es: Seq<(Seq<char>, JsonV)>, i: int) -> bool
    decreases es, i,
{
    if i <= 0 || i > es.len() {
        true
    } else {
        closed_entries_pred(es, i - 1) && entry_all_closed(es[i - 1].0, es[i - 1].1)
    }
}

/// `all_closed` over the first `i` entry values.
pub open spec fn vals_all_closed(pes: Seq<(Seq<char>, JsonV)>, i: int) -> bool
    decreases pes, i,
{
    if i <= 0 || i > pes.len() {
        true
    } else {
        vals_all_closed(pes, i - 1) && all_closed(pes[i - 1].1)
    }
}

/// `all_closed` over the first `i` items.
pub open spec fn arr_all_closed(items: Seq<JsonV>, i: int) -> bool
    decreases items, i,
{
    if i <= 0 || i > items.len() {
        true
    } else {
        arr_all_closed(items, i - 1) && all_closed(items[i - 1])
    }
}

proof fn lemma_closed_entries_pred_pointwise(es: Seq<(Seq<char>, JsonV)>, i: int)
    requires
        0 <= i <= es.len(),
        forall|k: int| 0 <= k < i ==> entry_all_closed((#[trigger] es[k]).0, es[k].1),
    ensures
        closed_entries_pred(es, i),
    decreases i,
{
    if i > 0 {
        lemma_closed_entries_pred_pointwise(es, i - 1);
    }
}

proof fn lemma_closed_entries_pred_index(es: Seq<(Seq<char>, JsonV)>, i: int, k: int)
    requires
        closed_entries_pred(es, i),
        0 <= k < i <= es.len(),
    ensures
        entry_all_closed(es[k].0, es[k].1),
    decreases i,
{
    if k < i - 1 {
        lemma_closed_entries_pred_index(es, i - 1, k);
    }
}

/// The strict pass closes the whole tree: every object schema of the
/// output, at every position the pass visits (`properties` and
/// definition values, `items`, `additionalProperties` sub-schemas and
/// composition branches, at any depth), carries `additionalProperties`
/// as `false` or as an author-written sub-schema.
pub proof fn lemma_close_all_closed(v: JsonV)
    ensures
        all_closed(close_v(v)),
    decreases v, 4int,
{
    reveal_strlit("additionalProperties");
    reveal_strlit("properties");
    reveal_strlit("$defs");
    reveal_strlit("definitions");
    reveal_strlit("items");
    reveal_strlit("allOf");
    reveal_strlit("anyOf");
    reveal_strlit("oneOf");
    reveal_strlit("type");
    reveal_strlit("object");
    assert("additionalProperties"@.len() == 20);
    assert("properties"@.len() == 10);
    assert("$defs"@.len() == 5);
    assert("definitions"@.len() == 11);
    assert("items"@.len() == 5);
    assert("allOf"@.len() == 5);
    assert("anyOf"@.len() == 5);
    assert("oneOf"@.len() == 5);
    assert("type"@.len() == 4);
    match v {
        JsonV::Obj(es) => {
            let ap = "additionalProperties"@;
            let closed = close_entries(es, es.len() as int);
            lemma_close_entries_pointwise(es, es.len() as int);
            lemma_obj_get_closed(es, closed, ap, 0);
            lemma_obj_get_closed(es, closed, "type"@, 0);
            lemma_obj_get_closed(es, closed, "properties"@, 0);
            assert(is_object_schema(closed) == is_object_schema(es));
            // every closed entry satisfies its closure
            assert forall|k: int| 0 <= k < closed.len() implies entry_all_closed(
                (#[trigger] closed[k]).0, closed[k].1) by {
                lemma_close_entry_all_closed(es[k].0, es[k].1);
            }
            lemma_closed_entries_pred_pointwise(closed, closed.len() as int);
            if is_object_schema(es) {
                match obj_get(es, ap) {
                    None => {
                        let e = (ap, JsonV::Bool(false));
                        lemma_obj_get_push(closed, e, ap);
                        assert forall|k: int| 0 <= k < closed.push(e).len()
                            implies entry_all_closed((#[trigger] closed.push(e)[k]).0,
                            closed.push(e)[k].1) by {
                            if k < closed.len() {
                                lemma_closed_entries_pred_index(closed,
                                    closed.len() as int, k);
                            }
                        }
                        lemma_closed_entries_pred_pointwise(closed.push(e),
                            closed.push(e).len() as int);
                    },
                    Some(JsonV::Bool(false)) => {},
                    Some(JsonV::Obj(sub)) => {
                        assert(close_entry_val(ap, JsonV::Obj(sub))
                            == close_v(JsonV::Obj(sub)));
                        assert(close_v(JsonV::Obj(sub)) is Obj);
                    },
                    Some(apv) => {
                        let rs = replace_first(closed, ap, JsonV::Bool(false),
                            closed.len() as int);
                        lemma_replace_first_pointwise(closed, ap, JsonV::Bool(false),
                            closed.len() as int);
                        lemma_obj_get_replaced(closed, rs, ap, JsonV::Bool(false), 0);
                        assert forall|k: int| 0 <= k < rs.len() implies
                            entry_all_closed((#[trigger] rs[k]).0, rs[k].1) by {
                            lemma_closed_entries_pred_index(closed,
                                closed.len() as int, k);
                        }
                        lemma_closed_entries_pred_pointwise(rs, rs.len() as int);
                    },
                }
            }
        },
        _ => {},
    }
}

/// The strict pass makes each entry satisfy its closure.
proof fn lemma_close_entry_all_closed(key: Seq<char>, value: JsonV)
    ensures
        entry_all_closed(key, close_entry_val(key, value)),
    decreases value, 5int,
{
    if key == "properties"@ || is_defs_key(key) {
        match value {
            JsonV::Obj(pes) => {
                lemma_close_vals_all_closed(pes, pes.len() as int);
            },
            _ => {},
        }
    } else if key == "items"@ || key == "additionalProperties"@ {
        lemma_close_all_closed(value);
    } else if is_composition_key(key) {
        match value {
            JsonV::Arr(items) => {
                lemma_close_arr_all_closed(items, items.len() as int);
            },
            _ => {},
        }
    }
}

proof fn lemma_close_vals_all_closed(pes: Seq<(Seq<char>, JsonV)>, i: int)
    requires
        0 <= i <= pes.len(),
    ensures
        vals_all_closed(close_vals(pes, i), close_vals(pes, i).len() as int),
        close_vals(pes, i).len() == i,
    decreases pes, i,
{
    if i > 0 {
        lemma_close_vals_all_closed(pes, i - 1);
        assert(decreases_to!(pes => pes[i - 1]));
        assert(decreases_to!(pes[i - 1] => pes[i - 1].1));
        lemma_close_all_closed(pes[i - 1].1);
        let x = close_vals(pes, i - 1);
        let e = (pes[i - 1].0, close_v(pes[i - 1].1));
        lemma_vals_all_closed_push(x, e);
    }
}

proof fn lemma_vals_all_closed_push(x: Seq<(Seq<char>, JsonV)>, e: (Seq<char>, JsonV))
    requires
        vals_all_closed(x, x.len() as int),
        all_closed(e.1),
    ensures
        vals_all_closed(x.push(e), x.len() as int + 1),
{
    lemma_vals_all_closed_prefix(x.push(e), x, x.len() as int);
}

proof fn lemma_vals_all_closed_prefix(a: Seq<(Seq<char>, JsonV)>, b: Seq<(Seq<char>, JsonV)>,
    i: int)
    requires
        0 <= i <= a.len(),
        i <= b.len(),
        forall|k: int| 0 <= k < i ==> a[k] == b[k],
    ensures
        vals_all_closed(a, i) == vals_all_closed(b, i),
    decreases i,
{
    if i > 0 {
        lemma_vals_all_closed_prefix(a, b, i - 1);
    }
}

proof fn lemma_close_arr_all_closed(items: Seq<JsonV>, i: int)
    requires
        0 <= i <= items.len(),
    ensures
        arr_all_closed(close_arr(items, i), close_arr(items, i).len() as int),
        close_arr(items, i).len() == i,
    decreases items, i,
{
    if i > 0 {
        lemma_close_arr_all_closed(items, i - 1);
        assert(decreases_to!(items => items[i - 1]));
        lemma_close_all_closed(items[i - 1]);
        let x = close_arr(items, i - 1);
        lemma_arr_all_closed_prefix(x.push(close_v(items[i - 1])), x, x.len() as int);
    }
}

proof fn lemma_arr_all_closed_prefix(a: Seq<JsonV>, b: Seq<JsonV>, i: int)
    requires
        0 <= i <= a.len(),
        i <= b.len(),
        forall|k: int| 0 <= k < i ==> a[k] == b[k],
    ensures
        arr_all_closed(a, i) == arr_all_closed(b, i),
    decreases i,
{
    if i > 0 {
        lemma_arr_all_closed_prefix(a, b, i - 1);
    }
}

} // verus!
