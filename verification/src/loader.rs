//! Reference resolution: fragment navigation and `$ref` bundling.
//!
//! Bundling works against a store of already-loaded documents keyed by
//! path; a caller loads a document whenever bundling reports it missing
//! and retries. Cycle detection keys each resolution step by target
//! path and fragment, scoped to the call stack, so diamond-shaped
//! sharing of one target is legal while true cycles are rejected.

use vstd::prelude::*;

use crate::error::{ResolveErrV, ResolveError};
use crate::json::{
    arr_view, json_view, obj_entries_view, obj_get, obj_has, Json, JsonV,
};
use crate::resolver::{has_key_before, has_name};
use crate::strutil::{
    index_of_from, is_prefix, rindex_of, trim_leading, unescape_pointer,
};

verus! {

/// Whether a string looks like a URL: it starts with `http://` or
/// `https://`.
pub open spec fn is_url_spec(s: Seq<char>) -> bool {
    is_prefix("http://"@, s) || is_prefix("https://"@, s)
}

/// Check if a string looks like a URL (starts with http:// or https://).
pub fn is_url(s: &str) -> (r: bool)
    ensures
        r == is_url_spec(s@),
{
    crate::strutil::starts_with(s, "http://") || crate::strutil::starts_with(s, "https://")
}

// ------------------------------------------------------------------
// Fragment navigation
// ------------------------------------------------------------------

/// Walks `v` along the `/`-separated tokens of `path`, unescaping each
/// token, key by key through objects.
pub open spec fn nav_tokens(v: JsonV, path: Seq<char>) -> Option<JsonV>
    decreases path.len() via nav_tokens_dec
{
    match index_of_from(path, '/', 0) {
        Some(idx) => {
            let key = unescape_pointer(path.subrange(0, idx));
            match v {
                JsonV::Obj(es) => match obj_get(es, key) {
                    Some(child) => nav_tokens(child, path.subrange(idx + 1, path.len() as int)),
                    None => None,
                },
                _ => None,
            }
        },
        None => {
            let key = unescape_pointer(path);
            match v {
                JsonV::Obj(es) => obj_get(es, key),
                _ => None,
            }
        },
    }
}

#[via_fn]
proof fn nav_tokens_dec(v: JsonV, path: Seq<char>) {
    crate::strutil::lemma_index_of_from_range(path, '/', 0);
}

/// Navigation of a fragment: leading `#` and `/` characters are
/// trimmed; an empty remainder designates the whole document.
pub open spec fn navigate_spec(v: JsonV, fragment: Seq<char>) -> Option<JsonV> {
    let path = trim_leading(trim_leading(fragment, '#'), '/');
    if path.len() == 0 {
        Some(v)
    } else {
        nav_tokens(v, path)
    }
}

/// Walks the document along pointer tokens; errors name the original
/// fragment string.
fn nav_tokens_exec(v: &Json, path: &str, fragment: &str) -> (r: Result<Json, ResolveError>)
    ensures
        match r {
            Ok(out) => nav_tokens(v@, path@) == Some(out@),
            Err(e) => nav_tokens(v@, path@) is None && e@ == (ResolveErrV::BundleError {
                message: "fragment not found: "@ + fragment@,
            }),
        },
    decreases path@.len(),
{
    let len = path.unicode_len();
    match crate::strutil::find_char_from(path, '/', 0) {
        Some(idx) => {
            let token = path.substring_char(0, idx);
            let key = crate::strutil::unescape_from(token, 0);
            proof {
                assert(token@.subrange(0, token@.len() as int) =~= token@);
                assert(token@ =~= path@.subrange(0, idx as int));
            }
            match v.get(key.as_str()) {
                Some(child) => {
                    let rest = path.substring_char(idx + 1, len);
                    nav_tokens_exec(child, rest, fragment)
                },
                None => Err(ResolveError::BundleError {
                    message: crate::strutil::str_concat("fragment not found: ", fragment),
                }),
            }
        },
        None => {
            let key = crate::strutil::unescape_from(path, 0);
            proof {
                assert(path@.subrange(0, path@.len() as int) =~= path@);
            }
            match v.get(key.as_str()) {
                Some(child) => Ok(child.deep_copy()),
                None => Err(ResolveError::BundleError {
                    message: crate::strutil::str_concat("fragment not found: ", fragment),
                }),
            }
        },
    }
}

/// Navigate a JSON Pointer fragment (e.g. `#/$defs/foo`).
///
/// Returns the value at the given pointer path within the schema; the
/// fragment should start with `#`. An empty path (`#` alone) returns
/// the whole document.
pub fn navigate_fragment(schema: &Json, fragment: &str) -> (r: Result<Json, ResolveError>)
    ensures
        match r {
            Ok(out) => navigate_spec(schema@, fragment@) == Some(out@),
            Err(e) => navigate_spec(schema@, fragment@) is None && e@
                == (ResolveErrV::BundleError { message: "fragment not found: "@ + fragment@ }),
        },
{
    let t1 = crate::strutil::trim_leading_char(fragment, '#');
    let path = crate::strutil::trim_leading_char(t1, '/');
    if path.unicode_len() == 0 {
        Ok(schema.deep_copy())
    } else {
        nav_tokens_exec(schema, path, fragment)
    }
}

// ------------------------------------------------------------------
// Parsing
// ------------------------------------------------------------------

#[verifier::external_type_specification]
#[verifier::external_body]
pub struct ExSerdeValue(serde_json::Value);

/// Relies on serde_json::Value: each variant is carried over one for
/// one, numbers as their decimal text.
#[verifier::external_body]
fn from_serde(v: &serde_json::Value) -> Json {
    match v {
        serde_json::Value::Null => Json::Null,
        serde_json::Value::Bool(b) => Json::Bool(*b),
        serde_json::Value::Number(n) => Json::Num(n.to_string()),
        serde_json::Value::String(s) => Json::Str(s.clone()),
        serde_json::Value::Array(a) => Json::Arr(a.iter().map(from_serde).collect()),
        serde_json::Value::Object(m) => Json::Obj(
            m.iter().map(|(k, val)| (k.clone(), from_serde(val))).collect(),
        ),
    }
}

/// Load a schema from a JSON string.
///
/// Relies on serde_json::from_str for parsing; a parse failure is
/// reported as `InvalidJson` carrying the parser's message.
#[verifier::external_body]
pub fn load_schema_str(content: &str) -> Result<Json, ResolveError> {
    match serde_json::from_str::<serde_json::Value>(content) {
        Ok(v) => Ok(from_serde(&v)),
        Err(e) => Err(ResolveError::InvalidJson { message: e.to_string() }),
    }
}

// ------------------------------------------------------------------
// The document store
// ------------------------------------------------------------------

/// A store of loaded documents, keyed by path; the first entry for a
/// path wins, so the store behaves like a map.
pub struct DocStore {
    pub docs: Vec<(String, Json)>,
}

impl View for DocStore {
    type V = Seq<(Seq<char>, JsonV)>;

    open spec fn view(&self) -> Seq<(Seq<char>, JsonV)> {
        obj_entries_view(self.docs@)
    }
}

impl DocStore {
    /// An empty store.
    pub fn new() -> (r: DocStore)
        ensures
            r@ == Seq::<(Seq<char>, JsonV)>::empty(),
    {
        let r = DocStore { docs: Vec::new() };
        proof {
            assert(r@ =~= Seq::<(Seq<char>, JsonV)>::empty());
        }
        r
    }

    /// Adds a document under a path; an earlier entry for the same
    /// path keeps priority.
    pub fn insert(&mut self, path: String, doc: Json)
        ensures
            final(self)@ == old(self)@.push((path@, doc@)),
    {
        crate::json::push_entry(&mut self.docs, path, doc);
    }

    /// Looks a document up by path.
    pub fn get<'a>(&'a self, path: &str) -> (r: Option<&'a Json>)
        ensures
            match r {
                Some(d) => obj_get(self@, path@) == Some(d@),
                None => obj_get(self@, path@) is None,
            },
    {
        crate::json::entries_get(&self.docs, path)
    }
}

// ------------------------------------------------------------------
// Paths
// ------------------------------------------------------------------

/// Joining of two path components: an absolute right side wins, an
/// empty left side disappears, and exactly one separator stands
/// between the two otherwise.
pub open spec fn join_path(a: Seq<char>, b: Seq<char>) -> Seq<char> {
    if b.len() > 0 && b[0] == '/' {
        b
    } else if a.len() == 0 {
        b
    } else if a[a.len() - 1] == '/' {
        a + b
    } else {
        a + "/"@ + b
    }
}

/// The directory part of a path: everything before the last `/`, or
/// empty when there is none.
pub open spec fn parent_dir(p: Seq<char>) -> Seq<char> {
    match rindex_of(p, '/', p.len() as int) {
        Some(i) => p.subrange(0, i),
        None => Seq::empty(),
    }
}

/// The spec-level form of an optional borrowed string.
pub open spec fn opt_str_view(o: Option<&str>) -> Option<Seq<char>> {
    match o {
        Some(s) => Some(s@),
        None => None,
    }
}

/// Mapping of a `$ref` value to a loadable path: a URL under the
/// configured remote base maps below the local base, everything else
/// resolves relative to the current directory.
pub open spec fn ref_to_path(ref_val: Seq<char>, base_dir: Seq<char>,
    local_base: Option<Seq<char>>, remote_base: Option<Seq<char>>) -> Seq<char> {
    if local_base is Some && remote_base is Some && is_prefix(remote_base->0, ref_val) {
        join_path(local_base->0, trim_leading(ref_val.skip(remote_base->0.len() as int), '/'))
    } else {
        join_path(base_dir, ref_val)
    }
}

/// Joins two path components.
pub fn join_path_str(a: &str, b: &str) -> (r: String)
    ensures
        r@ == join_path(a@, b@),
{
    let blen = b.unicode_len();
    if blen > 0 && b.get_char(0) == '/' {
        crate::strutil::str_copy(b)
    } else {
        let alen = a.unicode_len();
        if alen == 0 {
            crate::strutil::str_copy(b)
        } else if a.get_char(alen - 1) == '/' {
            crate::strutil::str_concat(a, b)
        } else {
            crate::strutil::str_concat3(a, "/", b)
        }
    }
}

/// Resolve a `$ref` value to a local file path.
///
/// If URL mapping is configured and the ref starts with the remote
/// base, that prefix is stripped and the rest is joined below the
/// local base; otherwise the ref resolves relative to `base_dir`.
pub fn resolve_ref_to_path(ref_val: &str, base_dir: &str, url_local_base: Option<&str>,
    url_remote_base: Option<&str>) -> (r: String)
    ensures
        r@ == ref_to_path(ref_val@, base_dir@, opt_str_view(url_local_base),
            opt_str_view(url_remote_base)),
{
    if let (Some(local_base), Some(remote_base)) = (url_local_base, url_remote_base) {
        if crate::strutil::starts_with(ref_val, remote_base) {
            let rlen = remote_base.unicode_len();
            let remainder = ref_val.substring_char(rlen, ref_val.unicode_len());
            proof {
                assert(remainder@ =~= ref_val@.skip(remote_base@.len() as int));
            }
            let trimmed = crate::strutil::trim_leading_char(remainder, '/');
            return join_path_str(local_base, trimmed);
        }
    }
    join_path_str(base_dir, ref_val)
}

/// The directory part of a path.
pub fn parent_dir_str(p: &str) -> (r: &str)
    ensures
        r@ == parent_dir(p@),
{
    match crate::strutil::rfind_char(p, '/') {
        Some(i) => p.substring_char(0, i),
        None => {
            proof {
                reveal_strlit("");
                assert(""@ =~= Seq::<char>::empty());
            }
            ""
        },
    }
}

// ------------------------------------------------------------------
// Bundling
// ------------------------------------------------------------------

/// The key under which one resolution step is recorded on the visit
/// stack: the target path in lexical normal form, and the fragment, so
/// that one target spelled two ways still counts as one step.
pub open spec fn visit_key_of(path: Seq<char>, fragment: Seq<char>) -> Seq<char> {
    crate::strutil::normalize_path(path) + "|"@ + fragment
}

/// An object's entries without the first `$ref` entry.
pub open spec fn remove_first_key(es: Seq<(Seq<char>, JsonV)>, key: Seq<char>, i: int)
    -> Seq<(Seq<char>, JsonV)>
    decreases i,
{
    if i <= 0 || i > es.len() {
        Seq::empty()
    } else {
        let rest = remove_first_key(es, key, i - 1);
        if es[i - 1].0 == key && !has_key_before(es, key, i - 1) {
            rest
        } else {
            rest.push(es[i - 1])
        }
    }
}

/// `acc` extended by the first `i` entries of `extra` whose keys it
/// does not yet carry (existing keys win over inlined keys).
pub open spec fn merge_entries(acc: Seq<(Seq<char>, JsonV)>, extra: Seq<(Seq<char>, JsonV)>,
    i: int) -> Seq<(Seq<char>, JsonV)>
    decreases i,
{
    if i <= 0 || i > extra.len() {
        acc
    } else {
        let acc2 = merge_entries(acc, extra, i - 1);
        if obj_has(acc2, extra[i - 1].0) {
            acc2
        } else {
            acc2.push(extra[i - 1])
        }
    }
}

/// The referencing object after inlining: its `$ref` entry is removed
/// and, when the target is an object, the target's entries are merged
/// in without overwriting existing keys.
pub open spec fn inline_result(es: Seq<(Seq<char>, JsonV)>, target: JsonV) -> JsonV {
    let base = remove_first_key(es, "$ref"@, es.len() as int);
    match target {
        JsonV::Obj(tes) => JsonV::Obj(merge_entries(base, tes, tes.len() as int)),
        _ => JsonV::Obj(base),
    }
}

/// Bundling of one node.
///
/// `file_root` is the externally-loaded document (with its path) whose
/// internal references are resolvable; at the top-level document it is
/// `None` and internal references are left for the conformance
/// validator. `visited` is the stack of resolution steps in progress;
/// `fuel` bounds the depth of reference-following.
pub open spec fn bundle_v(v: JsonV, base_dir: Seq<char>, file_root: Option<(Seq<char>, JsonV)>,
    local_base: Option<Seq<char>>, remote_base: Option<Seq<char>>,
    store: Seq<(Seq<char>, JsonV)>, visited: Seq<Seq<char>>, fuel: nat)
    -> Result<JsonV, ResolveErrV>
    decreases fuel, v, 1int,
{
    match v {
        JsonV::Obj(es) => {
            match obj_get(es, "$ref"@) {
                Some(JsonV::Str(rv)) => {
                    if rv == "#"@ {
                        bundle_obj_plain(es, base_dir, file_root, local_base, remote_base,
                            store, visited, fuel)
                    } else if rv.len() > 0 && rv[0] == '#' {
                        match file_root {
                            None => bundle_obj_plain(es, base_dir, file_root, local_base,
                                remote_base, store, visited, fuel),
                            Some((fpath, froot)) => {
                                if fuel == 0 {
                                    Err(ResolveErrV::BundleError {
                                        message: "reference depth limit exceeded"@,
                                    })
                                } else {
                                    let key = visit_key_of(fpath, rv);
                                    if has_name(visited, key, visited.len() as int) {
                                        Err(ResolveErrV::BundleError {
                                            message: "circular reference detected: "@ + rv,
                                        })
                                    } else {
                                        match navigate_spec(froot, rv) {
                                            None => Err(ResolveErrV::BundleError {
                                                message: "fragment not found: "@ + rv,
                                            }),
                                            Some(target) => match bundle_v(target, base_dir,
                                                file_root, local_base, remote_base, store,
                                                visited.push(key), (fuel - 1) as nat) {
                                                Err(e) => Err(e),
                                                Ok(bt) => Ok(inline_result(es, bt)),
                                            },
                                        }
                                    }
                                }
                            },
                        }
                    } else {
                        if fuel == 0 {
                            Err(ResolveErrV::BundleError {
                                message: "reference depth limit exceeded"@,
                            })
                        } else {
                            let file_part = match index_of_from(rv, '#', 0) {
                                Some(idx) => rv.subrange(0, idx),
                                None => rv,
                            };
                            let fragment = match index_of_from(rv, '#', 0) {
                                Some(idx) => rv.subrange(idx, rv.len() as int),
                                None => Seq::<char>::empty(),
                            };
                            let ref_path = ref_to_path(file_part, base_dir, local_base,
                                remote_base);
                            let key = visit_key_of(ref_path, fragment);
                            if has_name(visited, key, visited.len() as int) {
                                Err(ResolveErrV::BundleError {
                                    message: "circular reference detected: "@ + rv,
                                })
                            } else {
                                match obj_get(store, ref_path) {
                                    None => Err(ResolveErrV::FileNotFound { path: ref_path }),
                                    Some(loaded) => {
                                        let target0 = if fragment.len() > 0 {
                                            navigate_spec(loaded, fragment)
                                        } else {
                                            Some(loaded)
                                        };
                                        match target0 {
                                            None => Err(ResolveErrV::BundleError {
                                                message: "fragment not found: "@ + fragment,
                                            }),
                                            Some(target) => match bundle_v(target,
                                                parent_dir(ref_path),
                                                Some((ref_path, loaded)), local_base,
                                                remote_base, store, visited.push(key),
                                                (fuel - 1) as nat) {
                                                Err(e) => Err(e),
                                                Ok(bt) => Ok(inline_result(es, bt)),
                                            },
                                        }
                                    },
                                }
                            }
                        }
                    }
                },
                _ => bundle_obj_plain(es, base_dir, file_root, local_base, remote_base, store,
                    visited, fuel),
            }
        },
        JsonV::Arr(items) => match bundle_arr(items, base_dir, file_root, local_base,
            remote_base, store, visited, fuel, items.len() as int) {
            Ok(bs) => Ok(JsonV::Arr(bs)),
            Err(e) => Err(e),
        },
        other => Ok(other),
    }
}

/// An object without a usable `$ref`: every entry value is bundled in
/// place.
pub open spec fn bundle_obj_plain(es: Seq<(Seq<char>, JsonV)>, base_dir: Seq<char>,
    file_root: Option<(Seq<char>, JsonV)>, local_base: Option<Seq<char>>,
    remote_base: Option<Seq<char>>, store: Seq<(Seq<char>, JsonV)>, visited: Seq<Seq<char>>,
    fuel: nat) -> Result<JsonV, ResolveErrV>
    decreases fuel, es, es.len() + 2int,
{
    match bundle_entries(es, base_dir, file_root, local_base, remote_base, store, visited,
        fuel, es.len() as int) {
        Ok(bs) => Ok(JsonV::Obj(bs)),
        Err(e) => Err(e),
    }
}

/// The first `i` entries, each value bundled.
pub open spec fn bundle_entries(es: Seq<(Seq<char>, JsonV)>, base_dir: Seq<char>,
    file_root: Option<(Seq<char>, JsonV)>, local_base: Option<Seq<char>>,
    remote_base: Option<Seq<char>>, store: Seq<(Seq<char>, JsonV)>, visited: Seq<Seq<char>>,
    fuel: nat, i: int) -> Result<Seq<(Seq<char>, JsonV)>, ResolveErrV>
    decreases fuel, es, i,
{
    if i <= 0 || i > es.len() {
        Ok(Seq::empty())
    } else {
        match bundle_entries(es, base_dir, file_root, local_base, remote_base, store, visited,
            fuel, i - 1) {
            Err(e) => Err(e),
            Ok(out) => match bundle_v(es[i - 1].1, base_dir, file_root, local_base,
                remote_base, store, visited, fuel) {
                Err(e) => Err(e),
                Ok(bv) => Ok(out.push((es[i - 1].0, bv))),
            },
        }
    }
}

/// The first `i` items, each bundled.
pub open spec fn bundle_arr(items: Seq<JsonV>, base_dir: Seq<char>,
    file_root: Option<(Seq<char>, JsonV)>, local_base: Option<Seq<char>>,
    remote_base: Option<Seq<char>>, store: Seq<(Seq<char>, JsonV)>, visited: Seq<Seq<char>>,
    fuel: nat, i: int) -> Result<Seq<JsonV>, ResolveErrV>
    decreases fuel, items, i,
{
    if i <= 0 || i > items.len() {
        Ok(Seq::empty())
    } else {
        match bundle_arr(items, base_dir, file_root, local_base, remote_base, store, visited,
            fuel, i - 1) {
            Err(e) => Err(e),
            Ok(out) => match bundle_v(items[i - 1], base_dir, file_root, local_base,
                remote_base, store, visited, fuel) {
                Err(e) => Err(e),
                Ok(bv) => Ok(out.push(bv)),
            },
        }
    }
}

/// The depth bound on reference-following; no realistic document
/// reaches it.
pub const REF_DEPTH_LIMIT: u64 = 4294967296;

/// The depth bound on reference-following, as the specifications use
/// it.
pub open spec fn bundle_fuel() -> nat {
    REF_DEPTH_LIMIT as nat
}

/// Top-level bundling of a document against a store, without URL
/// mapping.
pub open spec fn bundle_spec(v: JsonV, base_dir: Seq<char>, store: Seq<(Seq<char>, JsonV)>)
    -> Result<JsonV, ResolveErrV> {
    bundle_v(v, base_dir, None, None, None, store, Seq::empty(), bundle_fuel())
}

/// Top-level bundling of a document against a store, with URL mapping.
pub open spec fn bundle_mapped_spec(v: JsonV, base_dir: Seq<char>, local_base: Seq<char>,
    remote_base: Seq<char>, store: Seq<(Seq<char>, JsonV)>) -> Result<JsonV, ResolveErrV> {
    bundle_v(v, base_dir, None, Some(local_base), Some(remote_base), store, Seq::empty(),
        bundle_fuel())
}

// ------------------------------------------------------------------
// The executable bundler
// ------------------------------------------------------------------

/// The spec-level form of an optional file root.
pub open spec fn root_view(o: Option<&(String, Json)>) -> Option<(Seq<char>, JsonV)> {
    match o {
        Some(p) => Some((p.0@, p.1@)),
        None => None,
    }
}

proof fn lemma_bundle_entries_err(es: Seq<(Seq<char>, JsonV)>, base_dir: Seq<char>,
    file_root: Option<(Seq<char>, JsonV)>, local_base: Option<Seq<char>>,
    remote_base: Option<Seq<char>>, store: Seq<(Seq<char>, JsonV)>, visited: Seq<Seq<char>>,
    fuel: nat, i: int, j: int)
    requires
        0 <= i <= j <= es.len(),
        bundle_entries(es, base_dir, file_root, local_base, remote_base, store, visited, fuel,
            i) is Err,
    ensures
        bundle_entries(es, base_dir, file_root, local_base, remote_base, store, visited, fuel,
            j) == bundle_entries(es, base_dir, file_root, local_base, remote_base, store,
            visited, fuel, i),
    decreases j - i,
{
    if j > i {
        lemma_bundle_entries_err(es, base_dir, file_root, local_base, remote_base, store,
            visited, fuel, i, j - 1);
    }
}

proof fn lemma_bundle_arr_err(items: Seq<JsonV>, base_dir: Seq<char>,
    file_root: Option<(Seq<char>, JsonV)>, local_base: Option<Seq<char>>,
    remote_base: Option<Seq<char>>, store: Seq<(Seq<char>, JsonV)>, visited: Seq<Seq<char>>,
    fuel: nat, i: int, j: int)
    requires
        0 <= i <= j <= items.len(),
        bundle_arr(items, base_dir, file_root, local_base, remote_base, store, visited, fuel,
            i) is Err,
    ensures
        bundle_arr(items, base_dir, file_root, local_base, remote_base, store, visited, fuel,
            j) == bundle_arr(items, base_dir, file_root, local_base, remote_base, store,
            visited, fuel, i),
    decreases j - i,
{
    if j > i {
        lemma_bundle_arr_err(items, base_dir, file_root, local_base, remote_base, store,
            visited, fuel, i, j - 1);
    }
}

/// Whether a string starts with `#`.
fn starts_with_hash(s: &str) -> (r: bool)
    ensures
        r == (s@.len() > 0 && s@[0] == '#'),
{
    if s.unicode_len() > 0 {
        s.get_char(0) == '#'
    } else {
        false
    }
}

/// An entry list without its first `key` entry.
fn remove_key_exec(es: &Vec<(String, Json)>, key: &str) -> (r: Vec<(String, Json)>)
    ensures
        obj_entries_view(r@) == remove_first_key(obj_entries_view(es@), key@,
            es@.len() as int),
{
    broadcast use crate::json::group_json_view;

    let ghost es_v = obj_entries_view(es@);
    let n = es.len();
    let mut out: Vec<(String, Json)> = Vec::new();
    let mut done = false;
    let mut i: usize = 0;
    while i < n
        invariant
            n == es@.len(),
            es_v == obj_entries_view(es@),
            es_v.len() == n,
            i <= n,
            done == has_key_before(es_v, key@, i as int),
            obj_entries_view(out@) == remove_first_key(es_v, key@, i as int),
        decreases n - i,
    {
        proof {
            crate::json::obj_entries_view_len(es@);
            crate::json::obj_entries_view_index(es@, i as int);
        }
        if !done && crate::strutil::str_eq(es[i].0.as_str(), key) {
            done = true;
        } else {
            crate::json::push_entry(&mut out, es[i].0.clone(), es[i].1.deep_copy());
        }
        i += 1;
    }
    out
}

/// Inlining of a bundled target into the referencing object.
pub fn inline_entries_exec(entries: &Vec<(String, Json)>, target: &Json) -> (r: Json)
    ensures
        r@ == inline_result(obj_entries_view(entries@), target@),
{
    broadcast use crate::json::group_json_view;

    let mut base = remove_key_exec(entries, "$ref");
    let ghost base_v = obj_entries_view(base@);
    match target {
        Json::Obj(tes) => {
            let ghost tes_v = obj_entries_view(tes@);
            let n = tes.len();
            let mut i: usize = 0;
            while i < n
                invariant
                    n == tes@.len(),
                    tes_v == obj_entries_view(tes@),
                    tes_v.len() == n,
                    i <= n,
                    obj_entries_view(base@) == merge_entries(base_v, tes_v, i as int),
                decreases n - i,
            {
                proof {
                    crate::json::obj_entries_view_len(tes@);
                    crate::json::obj_entries_view_index(tes@, i as int);
                }
                if crate::json::entries_get(&base, tes[i].0.as_str()).is_none() {
                    crate::json::push_entry(&mut base, tes[i].0.clone(), tes[i].1.deep_copy());
                }
                i += 1;
            }
            Json::Obj(base)
        },
        _ => Json::Obj(base),
    }
}

/// Bundling of each entry value of an object without a usable `$ref`.
fn bundle_object_entries(entries: &Vec<(String, Json)>, base_dir: &str,
    file_root: Option<&(String, Json)>, url_local_base: Option<&str>,
    url_remote_base: Option<&str>, store: &DocStore, visited: &Vec<String>, fuel: u64)
    -> (r: Result<Vec<(String, Json)>, ResolveError>)
    ensures
        match r {
            Ok(out) => bundle_entries(obj_entries_view(entries@), base_dir@,
                root_view(file_root), opt_str_view(url_local_base),
                opt_str_view(url_remote_base), store@, visited.deep_view(), fuel as nat,
                entries@.len() as int) == Ok::<_, ResolveErrV>(obj_entries_view(out@)),
            Err(e) => bundle_entries(obj_entries_view(entries@), base_dir@,
                root_view(file_root), opt_str_view(url_local_base),
                opt_str_view(url_remote_base), store@, visited.deep_view(), fuel as nat,
                entries@.len() as int) == Err::<Seq<(Seq<char>, JsonV)>, ResolveErrV>(e@),
        },
    decreases fuel, entries@, 0int,
{
    broadcast use crate::json::group_json_view;

    let ghost es_v = obj_entries_view(entries@);
    let ghost bd = base_dir@;
    let ghost fr = root_view(file_root);
    let ghost lb = opt_str_view(url_local_base);
    let ghost rb = opt_str_view(url_remote_base);
    let ghost st = store@;
    let ghost vis = visited.deep_view();
    let n = entries.len();
    let mut out: Vec<(String, Json)> = Vec::new();
    let mut i: usize = 0;
    while i < n
        invariant
            n == entries@.len(),
            es_v == obj_entries_view(entries@),
            es_v.len() == n,
            i <= n,
            bd == base_dir@,
            fr == root_view(file_root),
            lb == opt_str_view(url_local_base),
            rb == opt_str_view(url_remote_base),
            st == store@,
            vis == visited.deep_view(),
            bundle_entries(es_v, bd, fr, lb, rb, st, vis, fuel as nat, i as int)
                == Ok::<_, ResolveErrV>(obj_entries_view(out@)),
        decreases n - i,
    {
        proof {
            crate::json::obj_entries_view_len(entries@);
            crate::json::obj_entries_view_index(entries@, i as int);
            assert(decreases_to!(entries@ => entries@[i as int]));
            assert(decreases_to!(entries@[i as int] => entries@[i as int].1));
        }
        match bundle_value(&entries[i].1, base_dir, file_root, url_local_base,
            url_remote_base, store, visited, fuel) {
            Err(e) => {
                proof {
                    lemma_bundle_entries_err(es_v, bd, fr, lb, rb, st, vis, fuel as nat,
                        i + 1, n as int);
                }
                return Err(e);
            },
            Ok(bv) => {
                crate::json::push_entry(&mut out, entries[i].0.clone(), bv);
            },
        }
        i += 1;
    }
    Ok(out)
}

/// Bundling of an object without a usable `$ref`: the object is
/// rebuilt with each entry value bundled.
fn bundle_plain(entries: &Vec<(String, Json)>, base_dir: &str,
    file_root: Option<&(String, Json)>, url_local_base: Option<&str>,
    url_remote_base: Option<&str>, store: &DocStore, visited: &Vec<String>, fuel: u64)
    -> (r: Result<Json, ResolveError>)
    ensures
        match r {
            Ok(out) => bundle_obj_plain(obj_entries_view(entries@), base_dir@,
                root_view(file_root), opt_str_view(url_local_base),
                opt_str_view(url_remote_base), store@, visited.deep_view(), fuel as nat)
                == Ok::<JsonV, ResolveErrV>(out@),
            Err(e) => bundle_obj_plain(obj_entries_view(entries@), base_dir@,
                root_view(file_root), opt_str_view(url_local_base),
                opt_str_view(url_remote_base), store@, visited.deep_view(), fuel as nat)
                == Err::<JsonV, ResolveErrV>(e@),
        },
    decreases fuel, entries@, 1int,
{
    proof {
        crate::json::obj_entries_view_len(entries@);
    }
    match bundle_object_entries(entries, base_dir, file_root, url_local_base,
        url_remote_base, store, visited, fuel) {
        Ok(out) => Ok(Json::Obj(out)),
        Err(e) => Err(e),
    }
}

/// Bundling of one node against the store.
fn bundle_value(v: &Json, base_dir: &str, file_root: Option<&(String, Json)>,
    url_local_base: Option<&str>, url_remote_base: Option<&str>, store: &DocStore,
    visited: &Vec<String>, fuel: u64) -> (r: Result<Json, ResolveError>)
    ensures
        match r {
            Ok(out) => bundle_v(v@, base_dir@, root_view(file_root),
                opt_str_view(url_local_base), opt_str_view(url_remote_base), store@,
                visited.deep_view(), fuel as nat) == Ok::<JsonV, ResolveErrV>(out@),
            Err(e) => bundle_v(v@, base_dir@, root_view(file_root),
                opt_str_view(url_local_base), opt_str_view(url_remote_base), store@,
                visited.deep_view(), fuel as nat) == Err::<JsonV, ResolveErrV>(e@),
        },
    decreases fuel, v,
{
    broadcast use crate::json::group_json_view;

    let ghost bd = base_dir@;
    let ghost fr = root_view(file_root);
    let ghost lb = opt_str_view(url_local_base);
    let ghost rb = opt_str_view(url_remote_base);
    let ghost st = store@;
    let ghost vis = visited.deep_view();
    match v {
        Json::Null => Ok(Json::Null),
        Json::Bool(b) => Ok(Json::Bool(*b)),
        Json::Num(s) => Ok(Json::Num(s.clone())),
        Json::Str(s) => Ok(Json::Str(s.clone())),
        Json::Arr(items) => {
            proof {
                crate::json::arr_view_len(items@);
                assert(*items == v->Arr_0);
                assert(decreases_to!(*v => v->Arr_0));
                assert(decreases_to!(*items => items@));
            }
            let ghost items_v = arr_view(items@);
            let n = items.len();
            let mut out: Vec<Json> = Vec::new();
            let mut i: usize = 0;
            while i < n
                invariant
                    n == items@.len(),
                    items_v == arr_view(items@),
                    items_v.len() == n,
                    i <= n,
                    bd == base_dir@,
                    fr == root_view(file_root),
                    lb == opt_str_view(url_local_base),
                    rb == opt_str_view(url_remote_base),
                    st == store@,
                    vis == visited.deep_view(),
                    *v == Json::Arr(*items),
                    bundle_arr(items_v, bd, fr, lb, rb, st, vis, fuel as nat, i as int)
                        == Ok::<_, ResolveErrV>(arr_view(out@)),
                decreases n - i,
            {
                proof {
                    crate::json::arr_view_len(items@);
                    crate::json::arr_view_index(items@, i as int);
                    assert(*items == v->Arr_0);
                    assert(decreases_to!(*v => v->Arr_0));
                    assert(decreases_to!(*items => items@));
                    assert(decreases_to!(items@ => items@[i as int]));
                }
                match bundle_value(&items[i], base_dir, file_root, url_local_base,
                    url_remote_base, store, visited, fuel) {
                    Err(e) => {
                        proof {
                            lemma_bundle_arr_err(items_v, bd, fr, lb, rb, st, vis,
                                fuel as nat, i + 1, n as int);
                        }
                        return Err(e);
                    },
                    Ok(bv) => {
                        crate::json::push_item(&mut out, bv);
                    },
                }
                i += 1;
            }
            let rr = Json::Arr(out);
            proof {
                assert(bundle_v(v@, bd, fr, lb, rb, st, vis, fuel as nat)
                    == Ok::<JsonV, ResolveErrV>(rr@));
            }
            Ok(rr)
        },
        Json::Obj(entries) => {
            proof {
                crate::json::obj_entries_view_len(entries@);
                assert(*entries == v->Obj_0);
                assert(decreases_to!(*v => v->Obj_0));
                assert(decreases_to!(*entries => entries@));
            }
            match crate::json::entries_get(entries, "$ref") {
                Some(Json::Str(rv)) => {
                    let rv_s = rv.as_str();
                    if crate::strutil::str_eq(rv_s, "#") {
                        bundle_plain(entries, base_dir, file_root, url_local_base,
                            url_remote_base, store, visited, fuel)
                    } else if starts_with_hash(rv_s) {
                        match file_root {
                            None => bundle_plain(entries, base_dir, file_root,
                                url_local_base, url_remote_base, store, visited, fuel),
                            Some(froot) => {
                                if fuel == 0 {
                                    return Err(ResolveError::BundleError {
                                        message: crate::strutil::str_copy(
                                            "reference depth limit exceeded"),
                                    });
                                }
                                let np = crate::strutil::normalize_path_str(
                                    froot.0.as_str());
                                let key = crate::strutil::str_concat3(np.as_str(), "|",
                                    rv_s);
                                if crate::resolver::has_name_exec(visited, key.as_str()) {
                                    return Err(ResolveError::BundleError {
                                        message: crate::strutil::str_concat(
                                            "circular reference detected: ", rv_s),
                                    });
                                }
                                match navigate_fragment(&froot.1, rv_s) {
                                    Err(e) => Err(e),
                                    Ok(target) => {
                                        let mut v2 = crate::strutil::copy_names(visited);
                                        v2.push(key);
                                        proof {
                                            assert(v2.deep_view() =~= vis.push(
                                                visit_key_of(froot.0@, rv@)));
                                        }
                                        match bundle_value(&target, base_dir, file_root,
                                            url_local_base, url_remote_base, store, &v2,
                                            fuel - 1) {
                                            Err(e) => Err(e),
                                            Ok(bt) => {
                                                let rr = inline_entries_exec(entries, &bt);
                                                proof {
                                                    assert(bundle_v(v@, bd, fr, lb, rb, st,
                                                        vis, fuel as nat)
                                                        == Ok::<JsonV, ResolveErrV>(rr@));
                                                }
                                                Ok(rr)
                                            },
                                        }
                                    },
                                }
                            },
                        }
                    } else {
                        if fuel == 0 {
                            return Err(ResolveError::BundleError {
                                message: crate::strutil::str_copy(
                                    "reference depth limit exceeded"),
                            });
                        }
                        let rv_len = rv_s.unicode_len();
                        let (file_part, fragment) = match crate::strutil::find_char_from(rv_s,
                            '#', 0) {
                            Some(idx) => (
                                crate::strutil::str_copy(rv_s.substring_char(0, idx)),
                                crate::strutil::str_copy(rv_s.substring_char(idx, rv_len)),
                            ),
                            None => (crate::strutil::str_copy(rv_s), String::new()),
                        };
                        let ref_path = resolve_ref_to_path(file_part.as_str(), base_dir,
                            url_local_base, url_remote_base);
                        let np = crate::strutil::normalize_path_str(ref_path.as_str());
                        let key = crate::strutil::str_concat3(np.as_str(), "|",
                            fragment.as_str());
                        if crate::resolver::has_name_exec(visited, key.as_str()) {
                            return Err(ResolveError::BundleError {
                                message: crate::strutil::str_concat(
                                    "circular reference detected: ", rv_s),
                            });
                        }
                        match store.get(ref_path.as_str()) {
                            None => Err(ResolveError::FileNotFound { path: ref_path }),
                            Some(loaded) => {
                                let target = if fragment.unicode_len() > 0 {
                                    match navigate_fragment(loaded, fragment.as_str()) {
                                        Err(e) => {
                                            return Err(e);
                                        },
                                        Ok(t) => t,
                                    }
                                } else {
                                    loaded.deep_copy()
                                };
                                let fr_pair = (ref_path, loaded.deep_copy());
                                let new_dir = parent_dir_str(fr_pair.0.as_str());
                                let mut v2 = crate::strutil::copy_names(visited);
                                v2.push(key);
                                proof {
                                    assert(v2.deep_view() =~= vis.push(
                                        visit_key_of(fr_pair.0@, fragment@)));
                                }
                                match bundle_value(&target, new_dir, Some(&fr_pair),
                                    url_local_base, url_remote_base, store, &v2, fuel - 1) {
                                    Err(e) => Err(e),
                                    Ok(bt) => {
                                        let rr = inline_entries_exec(entries, &bt);
                                        proof {
                                            assert(bundle_v(v@, bd, fr, lb, rb, st, vis,
                                                fuel as nat) == Ok::<JsonV, ResolveErrV>(rr@));
                                        }
                                        Ok(rr)
                                    },
                                }
                            },
                        }
                    }
                },
                Some(Json::Null) | Some(Json::Bool(_)) | Some(Json::Num(_))
                    | Some(Json::Arr(_)) | Some(Json::Obj(_)) | None => {
                    bundle_plain(entries, base_dir, file_root, url_local_base,
                        url_remote_base, store, visited, fuel)
                },
            }
        },
    }
}

/// Recursively resolve and inline external `$ref` pointers.
///
/// Walks the schema tree, finds `$ref` values pointing to external
/// documents, takes them from the store, and inlines them. Internal
/// refs (`#/...`) in the top-level document are left for the
/// validator; internal refs in loaded documents resolve against that
/// document. Self-root refs (`$ref: "#"`) are left as they stand.
/// A reference to a document absent from the store is reported as
/// `FileNotFound` naming the path the caller should load.
pub fn bundle_refs(schema: &Json, base_dir: &str, store: &DocStore)
    -> (r: Result<Json, ResolveError>)
    ensures
        match r {
            Ok(out) => bundle_spec(schema@, base_dir@, store@)
                == Ok::<JsonV, ResolveErrV>(out@),
            Err(e) => bundle_spec(schema@, base_dir@, store@)
                == Err::<JsonV, ResolveErrV>(e@),
        },
{
    let visited: Vec<String> = Vec::new();
    proof {
        assert(visited.deep_view() =~= Seq::<Seq<char>>::empty());
    }
    bundle_value(schema, base_dir, None, None, None, store, &visited, REF_DEPTH_LIMIT)
}

/// Bundle external `$ref` pointers with URL-to-local-path mapping.
///
/// Like `bundle_refs`, but refs starting with `remote_base` have that
/// prefix stripped and the rest joined below `local_base`.
pub fn bundle_refs_with_url_mapping(schema: &Json, base_dir: &str, local_base: &str,
    remote_base: &str, store: &DocStore) -> (r: Result<Json, ResolveError>)
    ensures
        match r {
            Ok(out) => bundle_mapped_spec(schema@, base_dir@, local_base@, remote_base@,
                store@) == Ok::<JsonV, ResolveErrV>(out@),
            Err(e) => bundle_mapped_spec(schema@, base_dir@, local_base@, remote_base@,
                store@) == Err::<JsonV, ResolveErrV>(e@),
        },
{
    let visited: Vec<String> = Vec::new();
    proof {
        assert(visited.deep_view() =~= Seq::<Seq<char>>::empty());
    }
    bundle_value(schema, base_dir, None, Some(local_base), Some(remote_base), store, &visited,
        REF_DEPTH_LIMIT)
}

} // verus!
