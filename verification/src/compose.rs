//! Schema composition from capability metadata.
//!
//! Payloads are self-describing: they embed capability metadata that
//! declares which schemas apply, either inline (`ucp.capabilities`) or
//! through a profile URL (`ucp.meta.profile`). This module extracts
//! that metadata, validates the capability graph, and composes one
//! schema from the extension fragments.

use vstd::prelude::*;

use crate::error::{compose_err_msg, resolve_err_msg, ComposeErrV, ComposeError, ResolveErrV, ResolveError};
use crate::json::{arr_view, obj_entries_view, obj_get, Json, JsonV};
use crate::loader::DocStore;
use crate::strutil::{index_of_from, is_prefix};

verus! {

/// Configuration for mapping schema URLs to local paths.
///
/// When both `local_base` and `remote_base` are set, URLs starting
/// with `remote_base` have that prefix stripped before joining below
/// `local_base`.
#[derive(Debug, Clone, Copy)]
pub struct SchemaBaseConfig<'a> {
    /// Local directory containing schema files.
    pub local_base: Option<&'a str>,
    /// URL prefix to strip when mapping to local paths.
    pub remote_base: Option<&'a str>,
}

impl<'a> Default for SchemaBaseConfig<'a> {
    /// A configuration with no mapping at all.
    fn default() -> (r: Self)
        ensures
            r.local_base is None && r.remote_base is None,
    {
        SchemaBaseConfig { local_base: None, remote_base: None }
    }
}

/// Mathematical view of a capability declaration.
#[verifier::ext_equal]
pub struct CapabilityV {
    pub name: Seq<char>,
    pub version: Seq<char>,
    pub schema_url: Seq<char>,
    pub extends: Option<Seq<Seq<char>>>,
}

/// Capability declaration extracted from payload metadata.
#[derive(Debug, Clone)]
pub struct Capability {
    /// Reverse-domain capability name.
    pub name: String,
    /// Version string.
    pub version: String,
    /// URL of the JSON Schema for this capability.
    pub schema_url: String,
    /// Parent capability names this extends; `None` for roots.
    pub extends: Option<Vec<String>>,
}

impl View for Capability {
    type V = CapabilityV;

    open spec fn view(&self) -> CapabilityV {
        CapabilityV {
            name: self.name@,
            version: self.version@,
            schema_url: self.schema_url@,
            extends: match self.extends {
                Some(v) => Some(v.deep_view()),
                None => None,
            },
        }
    }
}

impl DeepView for Capability {
    type V = CapabilityV;

    open spec fn deep_view(&self) -> CapabilityV {
        self.view()
    }
}

/// Detected payload direction based on metadata structure.
#[derive(Debug, Clone, Copy, PartialEq, Eq, Structural)]
pub enum DetectedDirection {
    /// The payload carries `ucp.capabilities` inline (response pattern).
    Response,
    /// The payload carries a `ucp.meta.profile` URL (request pattern).
    Request,
}

/// A field of a value, when the value is an object.
pub open spec fn get_field(v: JsonV, key: Seq<char>) -> Option<JsonV> {
    match v {
        JsonV::Obj(es) => obj_get(es, key),
        _ => None,
    }
}

/// Direction detection: an object at `ucp.capabilities` marks a
/// response, a string at `ucp.meta.profile` marks a request, anything
/// else is undetermined.
pub open spec fn detect_direction_spec(p: JsonV) -> Option<DetectedDirection> {
    match get_field(p, "ucp"@) {
        None => None,
        Some(ucp) => {
            if get_field(ucp, "capabilities"@) matches Some(c) && c is Obj {
                Some(DetectedDirection::Response)
            } else {
                match get_field(ucp, "meta"@) {
                    Some(meta) => match get_field(meta, "profile"@) {
                        Some(JsonV::Str(purl)) => Some(DetectedDirection::Request),
                        _ => None,
                    },
                    None => None,
                }
            }
        },
    }
}

/// Detect direction from payload structure.
///
/// Returns `Some(Response)` if `ucp.capabilities` is an object,
/// `Some(Request)` if `ucp.meta.profile` is a string, `None` otherwise.
pub fn detect_direction(payload: &Json) -> (r: Option<DetectedDirection>)
    ensures
        r == detect_direction_spec(payload@),
{
    let ucp = match payload.get("ucp") {
        None => {
            return None;
        },
        Some(u) => u,
    };
    match ucp.get("capabilities") {
        Some(Json::Obj(_)) => {
            return Some(DetectedDirection::Response);
        },
        Some(Json::Null) | Some(Json::Bool(_)) | Some(Json::Num(_)) | Some(Json::Str(_))
            | Some(Json::Arr(_)) | None => {},
    }
    match ucp.get("meta") {
        Some(meta) => match meta.get("profile") {
            Some(Json::Str(_)) => Some(DetectedDirection::Request),
            Some(Json::Null) | Some(Json::Bool(_)) | Some(Json::Num(_)) | Some(Json::Obj(_))
                | Some(Json::Arr(_)) | None => None,
        },
        None => None,
    }
}

// ------------------------------------------------------------------
// Capability parsing
// ------------------------------------------------------------------

/// The first `i` items of an `extends` array as names; `None` when a
/// non-string item occurs.
pub open spec fn parse_extends(items: Seq<JsonV>, i: int) -> Option<Seq<Seq<char>>>
    decreases i,
{
    if i <= 0 || i > items.len() {
        Some(Seq::empty())
    } else {
        match parse_extends(items, i - 1) {
            None => None,
            Some(ps) => match items[i - 1] {
                JsonV::Str(s) => Some(ps.push(s)),
                _ => None,
            },
        }
    }
}

/// Parsing of one capability from its name and version-entry list:
/// the first entry must carry `version` and `schema` strings, and
/// `extends` may be a string or a list of strings.
pub open spec fn parse_capability(name: Seq<char>, versions: JsonV)
    -> Result<CapabilityV, ComposeErrV> {
    match versions {
        JsonV::Arr(items) => {
            if items.len() == 0 {
                Err(ComposeErrV::InvalidCapability {
                    name,
                    message: "empty capability array"@,
                })
            } else {
                let entry = items[0];
                match get_field(entry, "version"@) {
                    Some(JsonV::Str(ver)) => match get_field(entry, "schema"@) {
                        Some(JsonV::Str(su)) => match get_field(entry, "extends"@) {
                            None => Ok(CapabilityV { name, version: ver, schema_url: su,
                                extends: None }),
                            Some(JsonV::Str(p)) => Ok(CapabilityV { name, version: ver,
                                schema_url: su, extends: Some(seq![p]) }),
                            Some(JsonV::Arr(ps)) => match parse_extends(ps, ps.len() as int) {
                                Some(l) => Ok(CapabilityV { name, version: ver,
                                    schema_url: su, extends: Some(l) }),
                                None => Err(ComposeErrV::InvalidCapability {
                                    name,
                                    message: "extends array must contain strings"@,
                                }),
                            },
                            Some(_) => Err(ComposeErrV::InvalidCapability {
                                name,
                                message: "extends must be string or array of strings"@,
                            }),
                        },
                        _ => Err(ComposeErrV::InvalidCapability {
                            name,
                            message: "missing schema field"@,
                        }),
                    },
                    _ => Err(ComposeErrV::InvalidCapability {
                        name,
                        message: "missing version field"@,
                    }),
                }
            }
        },
        _ => Err(ComposeErrV::InvalidCapability {
            name,
            message: "expected array of capability entries"@,
        }),
    }
}

/// The first `i` capability entries parsed in order.
pub open spec fn parse_caps_entries(es: Seq<(Seq<char>, JsonV)>, i: int)
    -> Result<Seq<CapabilityV>, ComposeErrV>
    decreases i,
{
    if i <= 0 || i > es.len() {
        Ok(Seq::empty())
    } else {
        match parse_caps_entries(es, i - 1) {
            Err(e) => Err(e),
            Ok(out) => match parse_capability(es[i - 1].0, es[i - 1].1) {
                Err(e) => Err(e),
                Ok(c) => Ok(out.push(c)),
            },
        }
    }
}

/// Parsing of a whole capabilities object; an empty or non-object
/// mapping is an error.
pub open spec fn parse_caps(caps: JsonV) -> Result<Seq<CapabilityV>, ComposeErrV> {
    match caps {
        JsonV::Obj(es) => if es.len() == 0 {
            Err(ComposeErrV::EmptyCapabilities)
        } else {
            parse_caps_entries(es, es.len() as int)
        },
        _ => Err(ComposeErrV::EmptyCapabilities),
    }
}

proof fn lemma_parse_caps_err(es: Seq<(Seq<char>, JsonV)>, i: int, j: int)
    requires
        0 <= i <= j <= es.len(),
        parse_caps_entries(es, i) is Err,
    ensures
        parse_caps_entries(es, j) == parse_caps_entries(es, i),
    decreases j - i,
{
    if j > i {
        lemma_parse_caps_err(es, i, j - 1);
    }
}

/// Parsing of one capability's version-entry list.
fn parse_capability_exec(name: &String, versions: &Json) -> (r: Result<Capability, ComposeError>)
    ensures
        match r {
            Ok(c) => parse_capability(name@, versions@) == Ok::<CapabilityV, ComposeErrV>(c@),
            Err(e) => parse_capability(name@, versions@)
                == Err::<CapabilityV, ComposeErrV>(e@),
        },
{
    broadcast use crate::json::group_json_view;

    let items = match versions {
        Json::Arr(items) => items,
        _ => {
            return Err(ComposeError::InvalidCapability {
                name: name.clone(),
                message: crate::strutil::str_copy("expected array of capability entries"),
            });
        },
    };
    if items.len() == 0 {
        proof {
            crate::json::arr_view_len(items@);
        }
        return Err(ComposeError::InvalidCapability {
            name: name.clone(),
            message: crate::strutil::str_copy("empty capability array"),
        });
    }
    proof {
        crate::json::arr_view_len(items@);
        crate::json::arr_view_index(items@, 0);
    }
    let entry = &items[0];
    let version = match entry.get("version") {
        Some(Json::Str(s)) => s.clone(),
        _ => {
            return Err(ComposeError::InvalidCapability {
                name: name.clone(),
                message: crate::strutil::str_copy("missing version field"),
            });
        },
    };
    let schema_url = match entry.get("schema") {
        Some(Json::Str(s)) => s.clone(),
        _ => {
            return Err(ComposeError::InvalidCapability {
                name: name.clone(),
                message: crate::strutil::str_copy("missing schema field"),
            });
        },
    };
    let extends: Option<Vec<String>> = match entry.get("extends") {
        None => None,
        Some(Json::Str(p)) => {
            let mut l: Vec<String> = Vec::new();
            l.push(p.clone());
            proof {
                assert(l.deep_view() =~= seq![p@]);
            }
            Some(l)
        },
        Some(Json::Arr(ps)) => {
            let ghost ps_v = arr_view(ps@);
            let n = ps.len();
            let mut l: Vec<String> = Vec::new();
            let mut i: usize = 0;
            proof {
                assert(l.deep_view() =~= Seq::<Seq<char>>::empty());
            }
            while i < n
                invariant
                    n == ps@.len(),
                    ps_v == arr_view(ps@),
                    ps_v.len() == n,
                    i <= n,
                    parse_extends(ps_v, i as int) == Some(l.deep_view()),
                    match parse_extends(ps_v, n as int) {
                        Some(full) => parse_capability(name@, versions@)
                            == Ok::<CapabilityV, ComposeErrV>(CapabilityV {
                                name: name@,
                                version: version@,
                                schema_url: schema_url@,
                                extends: Some(full),
                            }),
                        None => parse_capability(name@, versions@)
                            == Err::<CapabilityV, ComposeErrV>(ComposeErrV::InvalidCapability {
                                name: name@,
                                message: "extends array must contain strings"@,
                            }),
                    },
                decreases n - i,
            {
                proof {
                    crate::json::arr_view_len(ps@);
                    crate::json::arr_view_index(ps@, i as int);
                }
                match &ps[i] {
                    Json::Str(s) => {
                        let ghost pre = l.deep_view();
                        l.push(s.clone());
                        proof {
                            assert(l.deep_view() =~= pre.push(s@));
                        }
                    },
                    _ => {
                        proof {
                            lemma_parse_extends_none(ps_v, i + 1, n as int);
                        }
                        return Err(ComposeError::InvalidCapability {
                            name: name.clone(),
                            message: crate::strutil::str_copy(
                                "extends array must contain strings"),
                        });
                    },
                }
                i += 1;
            }
            Some(l)
        },
        Some(_) => {
            return Err(ComposeError::InvalidCapability {
                name: name.clone(),
                message: crate::strutil::str_copy(
                    "extends must be string or array of strings"),
            });
        },
    };
    Ok(Capability { name: name.clone(), version, schema_url, extends })
}

proof fn lemma_parse_extends_none(items: Seq<JsonV>, i: int, j: int)
    requires
        0 <= i <= j <= items.len(),
        parse_extends(items, i) is None,
    ensures
        parse_extends(items, j) is None,
    decreases j - i,
{
    if j > i {
        lemma_parse_extends_none(items, i, j - 1);
    }
}

/// Parse a capabilities object into a list of capability declarations.
pub fn parse_capabilities_object(caps: &Json) -> (r: Result<Vec<Capability>, ComposeError>)
    ensures
        match r {
            Ok(cs) => parse_caps(caps@) == Ok::<Seq<CapabilityV>, ComposeErrV>(cs.deep_view()),
            Err(e) => parse_caps(caps@) == Err::<Seq<CapabilityV>, ComposeErrV>(e@),
        },
{
    broadcast use crate::json::group_json_view;

    let entries = match caps {
        Json::Obj(entries) => entries,
        _ => {
            return Err(ComposeError::EmptyCapabilities);
        },
    };
    proof {
        crate::json::obj_entries_view_len(entries@);
    }
    if entries.len() == 0 {
        return Err(ComposeError::EmptyCapabilities);
    }
    let ghost es_v = obj_entries_view(entries@);
    let n = entries.len();
    let mut out: Vec<Capability> = Vec::new();
    let mut i: usize = 0;
    proof {
        assert(out.deep_view() =~= Seq::<CapabilityV>::empty());
    }
    while i < n
        invariant
            n == entries@.len(),
            es_v == obj_entries_view(entries@),
            es_v.len() == n,
            0 < n,
            caps@ == JsonV::Obj(es_v),
            i <= n,
            parse_caps_entries(es_v, i as int) == Ok::<Seq<CapabilityV>, ComposeErrV>(
                out.deep_view(),
            ),
        decreases n - i,
    {
        proof {
            crate::json::obj_entries_view_len(entries@);
            crate::json::obj_entries_view_index(entries@, i as int);
        }
        match parse_capability_exec(&entries[i].0, &entries[i].1) {
            Err(e) => {
                proof {
                    lemma_parse_caps_err(es_v, i + 1, n as int);
                }
                return Err(e);
            },
            Ok(c) => {
                let ghost pre = out.deep_view();
                let ghost cv = c@;
                out.push(c);
                proof {
                    assert(out.deep_view() =~= pre.push(cv));
                }
            },
        }
        i += 1;
    }
    Ok(out)
}

// ------------------------------------------------------------------
// Schema URL resolution
// ------------------------------------------------------------------

/// The path portion of a URL: everything after the host, or the whole
/// string when it carries no scheme.
pub open spec fn extract_url_path_spec(url: Seq<char>) -> Result<Seq<char>, ComposeErrV> {
    if is_prefix("https://"@, url) {
        let after = url.skip("https://"@.len() as int);
        match index_of_from(after, '/', 0) {
            Some(i) => Ok(after.skip(i)),
            None => Err(ComposeErrV::InvalidUrl {
                url,
                message: "could not extract path from URL"@,
            }),
        }
    } else if is_prefix("http://"@, url) {
        let after = url.skip("http://"@.len() as int);
        match index_of_from(after, '/', 0) {
            Some(i) => Ok(after.skip(i)),
            None => Err(ComposeErrV::InvalidUrl {
                url,
                message: "could not extract path from URL"@,
            }),
        }
    } else {
        Ok(url)
    }
}

/// Extract the path portion from a URL.
pub fn extract_url_path(url: &str) -> (r: Result<String, ComposeError>)
    ensures
        match r {
            Ok(p) => extract_url_path_spec(url@) == Ok::<Seq<char>, ComposeErrV>(p@),
            Err(e) => extract_url_path_spec(url@) == Err::<Seq<char>, ComposeErrV>(e@),
        },
{
    let len = url.unicode_len();
    if crate::strutil::starts_with(url, "https://") {
        let plen = "https://".unicode_len();
        let after = url.substring_char(plen, len);
        proof {
            assert(after@ =~= url@.skip("https://"@.len() as int));
        }
        match crate::strutil::find_char_from(after, '/', 0) {
            Some(i) => {
                let p = after.substring_char(i, after.unicode_len());
                proof {
                    assert(p@ =~= after@.skip(i as int));
                }
                Ok(crate::strutil::str_copy(p))
            },
            None => Err(ComposeError::InvalidUrl {
                url: crate::strutil::str_copy(url),
                message: crate::strutil::str_copy("could not extract path from URL"),
            }),
        }
    } else if crate::strutil::starts_with(url, "http://") {
        let plen = "http://".unicode_len();
        let after = url.substring_char(plen, len);
        proof {
            assert(after@ =~= url@.skip("http://"@.len() as int));
        }
        match crate::strutil::find_char_from(after, '/', 0) {
            Some(i) => {
                let p = after.substring_char(i, after.unicode_len());
                proof {
                    assert(p@ =~= after@.skip(i as int));
                }
                Ok(crate::strutil::str_copy(p))
            },
            None => Err(ComposeError::InvalidUrl {
                url: crate::strutil::str_copy(url),
                message: crate::strutil::str_copy("could not extract path from URL"),
            }),
        }
    } else {
        Ok(crate::strutil::str_copy(url))
    }
}

/// Resolution of a schema URL to a bundled document: the URL is mapped
/// to a store path (through the local/remote bases when configured),
/// the document is taken from the store, and its references are
/// bundled.
pub open spec fn resolve_schema_url_spec(url: Seq<char>, local_base: Option<Seq<char>>,
    remote_base: Option<Seq<char>>, store: Seq<(Seq<char>, JsonV)>)
    -> Result<JsonV, ComposeErrV> {
    match local_base {
        Some(base) => {
            let path_r: Result<Seq<char>, ComposeErrV> = match remote_base {
                Some(rb) => if is_prefix(rb, url) {
                    Ok(url.skip(rb.len() as int))
                } else {
                    extract_url_path_spec(url)
                },
                None => extract_url_path_spec(url),
            };
            match path_r {
                Err(e) => Err(e),
                Ok(path) => {
                    let local_path = crate::loader::join_path(base,
                        crate::strutil::trim_leading(path, '/'));
                    match obj_get(store, local_path) {
                        None => Err(ComposeErrV::SchemaFetch {
                            url,
                            message: "file not found: "@ + local_path,
                        }),
                        Some(schema) => {
                            let dir = crate::loader::parent_dir(local_path);
                            let br = match remote_base {
                                Some(rb) => crate::loader::bundle_mapped_spec(schema, dir,
                                    base, rb, store),
                                None => crate::loader::bundle_spec(schema, dir, store),
                            };
                            match br {
                                Err(e) => Err(ComposeErrV::SchemaFetch {
                                    url,
                                    message: "bundling refs: "@ + resolve_err_msg(e),
                                }),
                                Ok(b) => Ok(b),
                            }
                        },
                    }
                },
            }
        },
        None => {
            if crate::loader::is_url_spec(url) {
                match obj_get(store, url) {
                    Some(s) => Ok(s),
                    None => Err(ComposeErrV::SchemaFetch {
                        url,
                        message: "file not found: "@ + url,
                    }),
                }
            } else {
                match obj_get(store, url) {
                    None => Err(ComposeErrV::SchemaFetch {
                        url,
                        message: resolve_err_msg(ResolveErrV::FileNotFound { path: url }),
                    }),
                    Some(schema) => match crate::loader::bundle_spec(schema,
                        crate::loader::parent_dir(url), store) {
                        Err(e) => Err(ComposeErrV::SchemaFetch {
                            url,
                            message: "bundling refs: "@ + resolve_err_msg(e),
                        }),
                        Ok(b) => Ok(b),
                    },
                }
            }
        },
    }
}

/// Resolves a schema URL against the store and bundles its references.
fn resolve_schema_url(url: &str, schema_base: &SchemaBaseConfig, store: &DocStore)
    -> (r: Result<Json, ComposeError>)
    ensures
        match r {
            Ok(out) => resolve_schema_url_spec(url@,
                crate::loader::opt_str_view(schema_base.local_base),
                crate::loader::opt_str_view(schema_base.remote_base), store@)
                == Ok::<JsonV, ComposeErrV>(out@),
            Err(e) => resolve_schema_url_spec(url@,
                crate::loader::opt_str_view(schema_base.local_base),
                crate::loader::opt_str_view(schema_base.remote_base), store@)
                == Err::<JsonV, ComposeErrV>(e@),
        },
{
    match schema_base.local_base {
        Some(base) => {
            let path: String = match schema_base.remote_base {
                Some(rb) => {
                    if crate::strutil::starts_with(url, rb) {
                        let rem = url.substring_char(rb.unicode_len(), url.unicode_len());
                        proof {
                            assert(rem@ =~= url@.skip(rb@.len() as int));
                        }
                        crate::strutil::str_copy(rem)
                    } else {
                        match extract_url_path(url) {
                            Ok(p) => p,
                            Err(e) => {
                                return Err(e);
                            },
                        }
                    }
                },
                None => match extract_url_path(url) {
                    Ok(p) => p,
                    Err(e) => {
                        return Err(e);
                    },
                },
            };
            let trimmed = crate::strutil::trim_leading_char(path.as_str(), '/');
            let local_path = crate::loader::join_path_str(base, trimmed);
            match store.get(local_path.as_str()) {
                None => Err(ComposeError::SchemaFetch {
                    url: crate::strutil::str_copy(url),
                    message: crate::strutil::str_concat("file not found: ",
                        local_path.as_str()),
                }),
                Some(schema) => {
                    let dir = crate::loader::parent_dir_str(local_path.as_str());
                    let br = match schema_base.remote_base {
                        Some(rb) => crate::loader::bundle_refs_with_url_mapping(schema, dir,
                            base, rb, store),
                        None => crate::loader::bundle_refs(schema, dir, store),
                    };
                    match br {
                        Err(e) => {
                            let m = e.to_message();
                            Err(ComposeError::SchemaFetch {
                                url: crate::strutil::str_copy(url),
                                message: crate::strutil::str_concat("bundling refs: ",
                                    m.as_str()),
                            })
                        },
                        Ok(b) => Ok(b),
                    }
                },
            }
        },
        None => {
            if crate::loader::is_url(url) {
                match store.get(url) {
                    Some(s) => Ok(s.deep_copy()),
                    None => Err(ComposeError::SchemaFetch {
                        url: crate::strutil::str_copy(url),
                        message: crate::strutil::str_concat("file not found: ", url),
                    }),
                }
            } else {
                match store.get(url) {
                    None => {
                        let fe = ResolveError::FileNotFound {
                            path: crate::strutil::str_copy(url),
                        };
                        let m = fe.to_message();
                        Err(ComposeError::SchemaFetch {
                            url: crate::strutil::str_copy(url),
                            message: m,
                        })
                    },
                    Some(schema) => {
                        let dir = crate::loader::parent_dir_str(url);
                        match crate::loader::bundle_refs(schema, dir, store) {
                            Err(e) => {
                                let m = e.to_message();
                                Err(ComposeError::SchemaFetch {
                                    url: crate::strutil::str_copy(url),
                                    message: crate::strutil::str_concat("bundling refs: ",
                                        m.as_str()),
                                })
                            },
                            Ok(b) => Ok(b),
                        }
                    },
                }
            }
        },
    }
}

// ------------------------------------------------------------------
// Capability extraction
// ------------------------------------------------------------------

/// Extraction through the profile indirection: the profile document is
/// taken from the store and must itself carry `ucp.capabilities`.
pub open spec fn profile_caps_spec(ucp: JsonV, local_base: Option<Seq<char>>,
    remote_base: Option<Seq<char>>, store: Seq<(Seq<char>, JsonV)>)
    -> Result<Seq<CapabilityV>, ComposeErrV> {
    match get_field(ucp, "meta"@) {
        Some(meta) => match get_field(meta, "profile"@) {
            Some(JsonV::Str(purl)) => match resolve_schema_url_spec(purl, local_base,
                remote_base, store) {
                Err(e) => Err(ComposeErrV::ProfileFetch {
                    url: purl,
                    message: compose_err_msg(e),
                }),
                Ok(profile) => match get_field(profile, "ucp"@) {
                    Some(pucp) => match get_field(pucp, "capabilities"@) {
                        Some(c) => parse_caps(c),
                        None => Err(ComposeErrV::ProfileFetch {
                            url: purl,
                            message: "profile missing ucp.capabilities"@,
                        }),
                    },
                    None => Err(ComposeErrV::ProfileFetch {
                        url: purl,
                        message: "profile missing ucp.capabilities"@,
                    }),
                },
            },
            _ => Err(ComposeErrV::NotSelfDescribing),
        },
        None => Err(ComposeErrV::NotSelfDescribing),
    }
}

/// Extraction of the capability list from a payload: an object at
/// `ucp.capabilities` is read inline; otherwise the profile
/// indirection applies; with neither, the payload is not
/// self-describing.
pub open spec fn extract_caps_spec(payload: JsonV, local_base: Option<Seq<char>>,
    remote_base: Option<Seq<char>>, store: Seq<(Seq<char>, JsonV)>)
    -> Result<Seq<CapabilityV>, ComposeErrV> {
    match get_field(payload, "ucp"@) {
        None => Err(ComposeErrV::NotSelfDescribing),
        Some(ucp) => match get_field(ucp, "capabilities"@) {
            Some(caps) => if caps is Obj {
                parse_caps(caps)
            } else {
                profile_caps_spec(ucp, local_base, remote_base, store)
            },
            None => profile_caps_spec(ucp, local_base, remote_base, store),
        },
    }
}

/// Extract capabilities from a self-describing payload.
///
/// A response carries `ucp.capabilities` inline; a request names a
/// profile document (taken from the store) shaped the same way.
pub fn extract_capabilities(payload: &Json, schema_base: &SchemaBaseConfig, store: &DocStore)
    -> (r: Result<Vec<Capability>, ComposeError>)
    ensures
        match r {
            Ok(cs) => extract_caps_spec(payload@,
                crate::loader::opt_str_view(schema_base.local_base),
                crate::loader::opt_str_view(schema_base.remote_base), store@)
                == Ok::<Seq<CapabilityV>, ComposeErrV>(cs.deep_view()),
            Err(e) => extract_caps_spec(payload@,
                crate::loader::opt_str_view(schema_base.local_base),
                crate::loader::opt_str_view(schema_base.remote_base), store@)
                == Err::<Seq<CapabilityV>, ComposeErrV>(e@),
        },
{
    let ucp = match payload.get("ucp") {
        None => {
            return Err(ComposeError::NotSelfDescribing);
        },
        Some(u) => u,
    };
    match ucp.get("capabilities") {
        Some(caps) => match caps {
            Json::Obj(_) => {
                return parse_capabilities_object(caps);
            },
            Json::Null | Json::Bool(_) | Json::Num(_) | Json::Str(_) | Json::Arr(_) => {},
        },
        None => {},
    }
    let meta = match ucp.get("meta") {
        None => {
            return Err(ComposeError::NotSelfDescribing);
        },
        Some(m) => m,
    };
    match meta.get("profile") {
        Some(Json::Str(purl)) => {
            let profile = match resolve_schema_url(purl.as_str(), schema_base, store) {
                Err(e) => {
                    let m = e.to_message();
                    return Err(ComposeError::ProfileFetch { url: purl.clone(), message: m });
                },
                Ok(p) => p,
            };
            match profile.get("ucp") {
                Some(pucp) => match pucp.get("capabilities") {
                    Some(c) => parse_capabilities_object(c),
                    None => Err(ComposeError::ProfileFetch {
                        url: purl.clone(),
                        message: crate::strutil::str_copy("profile missing ucp.capabilities"),
                    }),
                },
                None => Err(ComposeError::ProfileFetch {
                    url: purl.clone(),
                    message: crate::strutil::str_copy("profile missing ucp.capabilities"),
                }),
            }
        },
        Some(Json::Null) | Some(Json::Bool(_)) | Some(Json::Num(_)) | Some(Json::Arr(_))
            | Some(Json::Obj(_)) | None => Err(ComposeError::NotSelfDescribing),
    }
}

// ------------------------------------------------------------------
// Graph reachability
// ------------------------------------------------------------------

/// The first capability named `name`, searching from index `i`.
pub open spec fn find_cap_from(caps: Seq<CapabilityV>, name: Seq<char>, i: int)
    -> Option<CapabilityV>
    decreases caps.len() - i,
{
    if i < 0 || i >= caps.len() {
        None
    } else if caps[i].name == name {
        Some(caps[i])
    } else {
        find_cap_from(caps, name, i + 1)
    }
}

/// Whether the capability named `name` reaches the root within `k`
/// lookup steps.
pub open spec fn reaches_in(caps: Seq<CapabilityV>, name: Seq<char>, root: Seq<char>, k: int)
    -> bool
    decreases k, 1int, 0int,
{
    if k <= 0 {
        false
    } else {
        match find_cap_from(caps, name, 0) {
            None => false,
            Some(c) => match c.extends {
                None => false,
                Some(ps) => parents_reach(caps, ps, root, k, 0),
            },
        }
    }
}

/// Whether some parent from index `j` on is the root or reaches it.
pub open spec fn parents_reach(caps: Seq<CapabilityV>, ps: Seq<Seq<char>>, root: Seq<char>,
    k: int, j: int) -> bool
    decreases k, 0int, ps.len() - j,
{
    if j < 0 || j >= ps.len() {
        false
    } else if ps[j] == root {
        true
    } else if k > 0 && find_cap_from(caps, ps[j], 0) is Some {
        reaches_in(caps, ps[j], root, k - 1) || parents_reach(caps, ps, root, k, j + 1)
    } else {
        parents_reach(caps, ps, root, k, j + 1)
    }
}

/// Whether a capability transitively reaches the root through its
/// `extends` chain; a chain through declared capabilities needs at
/// most one step per capability.
pub open spec fn reaches_spec(caps: Seq<CapabilityV>, cap: CapabilityV, root: Seq<char>)
    -> bool {
    match cap.extends {
        None => false,
        Some(ps) => parents_reach(caps, ps, root, caps.len() as int, 0),
    }
}

/// The first capability with the given name.
fn find_cap<'a>(caps: &'a Vec<Capability>, name: &str) -> (r: Option<&'a Capability>)
    ensures
        match r {
            Some(c) => find_cap_from(caps.deep_view(), name@, 0) == Some(c@),
            None => find_cap_from(caps.deep_view(), name@, 0) is None,
        },
{
    let ghost cv = caps.deep_view();
    let n = caps.len();
    let mut i: usize = 0;
    while i < n
        invariant
            n == caps@.len(),
            cv == caps.deep_view(),
            cv.len() == n,
            i <= n,
            find_cap_from(cv, name@, 0) == find_cap_from(cv, name@, i as int),
        decreases n - i,
    {
        if crate::strutil::str_eq(caps[i].name.as_str(), name) {
            return Some(&caps[i]);
        }
        i += 1;
    }
    None
}

/// Whether the named capability reaches the root within `k` steps.
fn reaches_in_exec(caps: &Vec<Capability>, name: &str, root: &str, k: usize) -> (r: bool)
    ensures
        r == reaches_in(caps.deep_view(), name@, root@, k as int),
    decreases k, 1int, 0int,
{
    if k == 0 {
        return false;
    }
    match find_cap(caps, name) {
        None => false,
        Some(c) => match &c.extends {
            None => false,
            Some(ps) => parents_reach_exec(caps, ps, root, k, 0),
        },
    }
}

/// Whether some parent from index `j` on is the root or reaches it.
fn parents_reach_exec(caps: &Vec<Capability>, ps: &Vec<String>, root: &str, k: usize,
    j: usize) -> (r: bool)
    ensures
        r == parents_reach(caps.deep_view(), ps.deep_view(), root@, k as int, j as int),
    decreases k, 0int, ps@.len() - j,
{
    if j >= ps.len() {
        return false;
    }
    let p = ps[j].as_str();
    if crate::strutil::str_eq(p, root) {
        return true;
    }
    if find_cap(caps, p).is_some() && k > 0 && reaches_in_exec(caps, p, root, k - 1) {
        return true;
    }
    parents_reach_exec(caps, ps, root, k, j + 1)
}

/// Check if a capability transitively reaches the root via its
/// `extends` chain (multi-parent diamond extension included).
pub fn reaches_root(cap: &Capability, capabilities: &Vec<Capability>, root_name: &str)
    -> (r: bool)
    ensures
        r == reaches_spec(capabilities.deep_view(), cap@, root_name@),
{
    proof {
        assert(capabilities.deep_view().len() == capabilities@.len());
    }
    match &cap.extends {
        None => false,
        Some(ps) => parents_reach_exec(capabilities, ps, root_name, capabilities.len(), 0),
    }
}

// ------------------------------------------------------------------
// Internal reference inlining
// ------------------------------------------------------------------

/// Inlining of `#/$defs/...` references within an extracted fragment,
/// against the `$defs` map of its origin document. A reference whose
/// definition is on the visit stack, or missing, is left as it stands.
pub open spec fn inline_refs_v(v: JsonV, defs: JsonV, visited: Seq<Seq<char>>, fuel: nat)
    -> JsonV
    decreases fuel, v, 1int,
{
    match v {
        JsonV::Obj(es) => {
            match obj_get(es, "$ref"@) {
                Some(JsonV::Str(rv)) => {
                    if is_prefix("#/$defs/"@, rv) {
                        let def_name = rv.skip("#/$defs/"@.len() as int);
                        if crate::resolver::has_name(visited, def_name,
                            visited.len() as int) {
                            v
                        } else {
                            match get_field(defs, def_name) {
                                Some(def) => if fuel == 0 {
                                    v
                                } else {
                                    crate::loader::inline_result(es, inline_refs_v(def, defs,
                                        visited.push(def_name), (fuel - 1) as nat))
                                },
                                None => JsonV::Obj(inline_entries(es, defs, visited, fuel,
                                    es.len() as int)),
                            }
                        }
                    } else {
                        JsonV::Obj(inline_entries(es, defs, visited, fuel, es.len() as int))
                    }
                },
                _ => JsonV::Obj(inline_entries(es, defs, visited, fuel, es.len() as int)),
            }
        },
        JsonV::Arr(items) => JsonV::Arr(inline_arr(items, defs, visited, fuel,
            items.len() as int)),
        other => other,
    }
}

/// The first `i` entries with each value inlined.
pub open spec fn inline_entries(es: Seq<(Seq<char>, JsonV)>, defs: JsonV,
    visited: Seq<Seq<char>>, fuel: nat, i: int) -> Seq<(Seq<char>, JsonV)>
    decreases fuel, es, i,
{
    if i <= 0 || i > es.len() {
        Seq::empty()
    } else {
        inline_entries(es, defs, visited, fuel, i - 1).push(
            (es[i - 1].0, inline_refs_v(es[i - 1].1, defs, visited, fuel)),
        )
    }
}

/// The first `i` items with each item inlined.
pub open spec fn inline_arr(items: Seq<JsonV>, defs: JsonV, visited: Seq<Seq<char>>,
    fuel: nat, i: int) -> Seq<JsonV>
    decreases fuel, items, i,
{
    if i <= 0 || i > items.len() {
        Seq::empty()
    } else {
        inline_arr(items, defs, visited, fuel, i - 1).push(
            inline_refs_v(items[i - 1], defs, visited, fuel),
        )
    }
}

/// Inlining of one fragment's internal references.
fn inline_refs_exec(v: &Json, defs: &Json, visited: &Vec<String>, fuel: u64) -> (r: Json)
    ensures
        r@ == inline_refs_v(v@, defs@, visited.deep_view(), fuel as nat),
    decreases fuel, v, 1int,
{
    broadcast use crate::json::group_json_view;

    let ghost vis = visited.deep_view();
    match v {
        Json::Null => Json::Null,
        Json::Bool(b) => Json::Bool(*b),
        Json::Num(s) => Json::Num(s.clone()),
        Json::Str(s) => Json::Str(s.clone()),
        Json::Arr(items) => {
            proof {
                crate::json::arr_view_len(items@);
                assert(*items == v->Arr_0);
                assert(decreases_to!(*v => v->Arr_0));
                assert(decreases_to!(*items => items@));
            }
            let ghost items_v = arr_view(items@);
            let n = items.len();
            let mut out: Vec<Json> = Vec::new();
            let mut i: usize = 0;
            while i < n
                invariant
                    n == items@.len(),
                    items_v == arr_view(items@),
                    items_v.len() == n,
                    i <= n,
                    *v == Json::Arr(*items),
                    vis == visited.deep_view(),
                    arr_view(out@) == inline_arr(items_v, defs@, vis, fuel as nat, i as int),
                decreases n - i,
            {
                proof {
                    crate::json::arr_view_len(items@);
                    crate::json::arr_view_index(items@, i as int);
                    assert(*items == v->Arr_0);
                    assert(decreases_to!(*v => v->Arr_0));
                    assert(decreases_to!(*items => items@));
                    assert(decreases_to!(items@ => items@[i as int]));
                }
                let c = inline_refs_exec(&items[i], defs, visited, fuel);
                crate::json::push_item(&mut out, c);
                i += 1;
            }
            Json::Arr(out)
        },
        Json::Obj(entries) => {
            proof {
                crate::json::obj_entries_view_len(entries@);
                assert(*entries == v->Obj_0);
                assert(decreases_to!(*v => v->Obj_0));
                assert(decreases_to!(*entries => entries@));
            }
            let mut follow: Option<String> = None;
            match crate::json::entries_get(entries, "$ref") {
                Some(Json::Str(rv)) => {
                    if crate::strutil::starts_with(rv.as_str(), "#/$defs/") {
                        let plen = "#/$defs/".unicode_len();
                        let dn = rv.as_str().substring_char(plen, rv.as_str().unicode_len());
                        proof {
                            assert(dn@ =~= rv@.skip("#/$defs/"@.len() as int));
                        }
                        follow = Some(crate::strutil::str_copy(dn));
                    }
                },
                _ => {},
            }
            match follow {
                Some(def_name) => {
                    if crate::resolver::has_name_exec(visited, def_name.as_str()) {
                        return v.deep_copy();
                    }
                    match defs.get(def_name.as_str()) {
                        Some(def) => {
                            if fuel == 0 {
                                return v.deep_copy();
                            }
                            let mut v2 = crate::strutil::copy_names(visited);
                            let ghost dnv = def_name@;
                            v2.push(def_name);
                            proof {
                                assert(v2.deep_view() =~= vis.push(dnv));
                            }
                            let inlined = inline_refs_exec(def, defs, &v2, fuel - 1);
                            crate::loader::inline_entries_exec(entries, &inlined)
                        },
                        None => inline_children(entries, defs, visited, fuel),
                    }
                },
                None => inline_children(entries, defs, visited, fuel),
            }
        },
    }
}

/// Inlining of each entry value of an object that is not itself a
/// definition reference.
fn inline_children(entries: &Vec<(String, Json)>, defs: &Json, visited: &Vec<String>,
    fuel: u64) -> (r: Json)
    ensures
        r@ == JsonV::Obj(inline_entries(obj_entries_view(entries@), defs@,
            visited.deep_view(), fuel as nat, entries@.len() as int)),
    decreases fuel, entries@, 0int,
{
    broadcast use crate::json::group_json_view;

    let ghost es_v = obj_entries_view(entries@);
    let ghost vis = visited.deep_view();
    let n = entries.len();
    let mut out: Vec<(String, Json)> = Vec::new();
    let mut i: usize = 0;
    proof {
        crate::json::obj_entries_view_len(entries@);
    }
    while i < n
        invariant
            n == entries@.len(),
            es_v == obj_entries_view(entries@),
            es_v.len() == n,
            i <= n,
            vis == visited.deep_view(),
            obj_entries_view(out@) == inline_entries(es_v, defs@, vis, fuel as nat, i as int),
        decreases n - i,
    {
        proof {
            crate::json::obj_entries_view_len(entries@);
            crate::json::obj_entries_view_index(entries@, i as int);
            assert(decreases_to!(entries@ => entries@[i as int]));
            assert(decreases_to!(entries@[i as int] => entries@[i as int].1));
        }
        let c = inline_refs_exec(&entries[i].1, defs, visited, fuel);
        crate::json::push_entry(&mut out, entries[i].0.clone(), c);
        i += 1;
    }
    Json::Obj(out)
}

// ------------------------------------------------------------------
// Composition
// ------------------------------------------------------------------

/// The capabilities without an `extends` entry, among the first `i`.
pub open spec fn roots_of(caps: Seq<CapabilityV>, i: int) -> Seq<CapabilityV>
    decreases i,
{
    if i <= 0 || i > caps.len() {
        Seq::empty()
    } else if caps[i - 1].extends is None {
        roots_of(caps, i - 1).push(caps[i - 1])
    } else {
        roots_of(caps, i - 1)
    }
}

/// The capabilities with an `extends` entry, among the first `i`.
pub open spec fn extensions_of(caps: Seq<CapabilityV>, i: int) -> Seq<CapabilityV>
    decreases i,
{
    if i <= 0 || i > caps.len() {
        Seq::empty()
    } else if caps[i - 1].extends is Some {
        extensions_of(caps, i - 1).push(caps[i - 1])
    } else {
        extensions_of(caps, i - 1)
    }
}

/// The names of the first `i` capabilities.
pub open spec fn names_of(caps: Seq<CapabilityV>, i: int) -> Seq<Seq<char>>
    decreases i,
{
    if i <= 0 || i > caps.len() {
        Seq::empty()
    } else {
        names_of(caps, i - 1).push(caps[i - 1].name)
    }
}

/// The first parent among `ps` (from index `j`) that is not declared.
pub open spec fn first_missing_parent(caps: Seq<CapabilityV>, ps: Seq<Seq<char>>, j: int)
    -> Option<Seq<char>>
    decreases ps.len() - j,
{
    if j < 0 || j >= ps.len() {
        None
    } else if find_cap_from(caps, ps[j], 0) is None {
        Some(ps[j])
    } else {
        first_missing_parent(caps, ps, j + 1)
    }
}

/// The first capability (among the first `i`) with an undeclared
/// parent, together with that parent.
pub open spec fn first_unknown_parent(caps: Seq<CapabilityV>, i: int)
    -> Option<(Seq<char>, Seq<char>)>
    decreases i,
{
    if i <= 0 || i > caps.len() {
        None
    } else {
        match first_unknown_parent(caps, i - 1) {
            Some(x) => Some(x),
            None => match caps[i - 1].extends {
                None => None,
                Some(ps) => match first_missing_parent(caps, ps, 0) {
                    Some(p) => Some((caps[i - 1].name, p)),
                    None => None,
                },
            },
        }
    }
}

/// The first extension (among the first `i`) that does not reach the
/// root.
pub open spec fn first_orphan(caps: Seq<CapabilityV>, root: Seq<char>, i: int)
    -> Option<Seq<char>>
    decreases i,
{
    if i <= 0 || i > caps.len() {
        None
    } else {
        match first_orphan(caps, root, i - 1) {
            Some(x) => Some(x),
            None => if caps[i - 1].extends is Some && !reaches_spec(caps, caps[i - 1], root) {
                Some(caps[i - 1].name)
            } else {
                None
            },
        }
    }
}

/// The `allOf` branches contributed by the first `i` extensions: each
/// extension's schema is fetched and bundled, its `$defs` entry for
/// the root is extracted, and internal references are inlined.
pub open spec fn compose_exts(exts: Seq<CapabilityV>, root_name: Seq<char>,
    local_base: Option<Seq<char>>, remote_base: Option<Seq<char>>,
    store: Seq<(Seq<char>, JsonV)>, i: int) -> Result<Seq<JsonV>, ComposeErrV>
    decreases i,
{
    if i <= 0 || i > exts.len() {
        Ok(Seq::empty())
    } else {
        match compose_exts(exts, root_name, local_base, remote_base, store, i - 1) {
            Err(e) => Err(e),
            Ok(out) => {
                let ext = exts[i - 1];
                match resolve_schema_url_spec(ext.schema_url, local_base, remote_base,
                    store) {
                    Err(e) => Err(ComposeErrV::SchemaFetch {
                        url: ext.schema_url,
                        message: compose_err_msg(e),
                    }),
                    Ok(es) => match get_field(es, "$defs"@) {
                        None => Err(ComposeErrV::MissingDefEntry {
                            extension: ext.name,
                            expected_key: root_name,
                        }),
                        Some(defs) => match get_field(defs, root_name) {
                            None => Err(ComposeErrV::MissingDefEntry {
                                extension: ext.name,
                                expected_key: root_name,
                            }),
                            Some(ed) => Ok(out.push(inline_refs_v(ed, defs, Seq::empty(),
                                crate::loader::bundle_fuel()))),
                        },
                    },
                }
            },
        }
    }
}

/// Composition of one schema from capability declarations: the graph
/// is validated (one root, all parents declared, every extension
/// reaches the root), then the extensions' fragments are combined in
/// an `allOf`; with no extensions, the root's own schema is returned.
pub open spec fn compose_spec(caps: Seq<CapabilityV>, local_base: Option<Seq<char>>,
    remote_base: Option<Seq<char>>, store: Seq<(Seq<char>, JsonV)>)
    -> Result<JsonV, ComposeErrV> {
    if caps.len() == 0 {
        Err(ComposeErrV::EmptyCapabilities)
    } else {
        let roots = roots_of(caps, caps.len() as int);
        if roots.len() == 0 {
            Err(ComposeErrV::NoRootCapability)
        } else if roots.len() > 1 {
            Err(ComposeErrV::MultipleRootCapabilities {
                names: names_of(roots, roots.len() as int),
            })
        } else {
            let root = roots[0];
            match first_unknown_parent(caps, caps.len() as int) {
                Some((ext, parent)) => Err(ComposeErrV::UnknownParent { extension: ext,
                    parent }),
                None => match first_orphan(caps, root.name, caps.len() as int) {
                    Some(ext) => Err(ComposeErrV::OrphanExtension { extension: ext,
                        root: root.name }),
                    None => {
                        let exts = extensions_of(caps, caps.len() as int);
                        if exts.len() == 0 {
                            match resolve_schema_url_spec(root.schema_url, local_base,
                                remote_base, store) {
                                Err(e) => Err(ComposeErrV::SchemaFetch {
                                    url: root.schema_url,
                                    message: compose_err_msg(e),
                                }),
                                Ok(s) => Ok(s),
                            }
                        } else {
                            match compose_exts(exts, root.name, local_base, remote_base,
                                store, exts.len() as int) {
                                Err(e) => Err(e),
                                Ok(branches) => Ok(JsonV::Obj(seq![
                                    ("allOf"@, JsonV::Arr(branches)),
                                ])),
                            }
                        }
                    },
                },
            }
        }
    }
}

proof fn lemma_fup_some(caps: Seq<CapabilityV>, i: int, j: int)
    requires
        0 <= i <= j <= caps.len(),
        first_unknown_parent(caps, i) is Some,
    ensures
        first_unknown_parent(caps, j) == first_unknown_parent(caps, i),
    decreases j - i,
{
    if j > i {
        lemma_fup_some(caps, i, j - 1);
    }
}

proof fn lemma_orphan_some(caps: Seq<CapabilityV>, root: Seq<char>, i: int, j: int)
    requires
        0 <= i <= j <= caps.len(),
        first_orphan(caps, root, i) is Some,
    ensures
        first_orphan(caps, root, j) == first_orphan(caps, root, i),
    decreases j - i,
{
    if j > i {
        lemma_orphan_some(caps, root, i, j - 1);
    }
}

/// A copy of a capability.
fn cap_copy(c: &Capability) -> (r: Capability)
    ensures
        r@ == c@,
{
    Capability {
        name: c.name.clone(),
        version: c.version.clone(),
        schema_url: c.schema_url.clone(),
        extends: match &c.extends {
            Some(v) => Some(crate::strutil::copy_names(v)),
            None => None,
        },
    }
}

/// Compose a schema from capability declarations.
///
/// Finds the root capability, validates the graph, fetches and
/// bundles each extension schema, and combines the extensions'
/// `$defs` fragments in an `allOf`.
pub fn compose_schema(capabilities: &Vec<Capability>, schema_base: &SchemaBaseConfig,
    store: &DocStore) -> (r: Result<Json, ComposeError>)
    ensures
        match r {
            Ok(out) => compose_spec(capabilities.deep_view(),
                crate::loader::opt_str_view(schema_base.local_base),
                crate::loader::opt_str_view(schema_base.remote_base), store@)
                == Ok::<JsonV, ComposeErrV>(out@),
            Err(e) => compose_spec(capabilities.deep_view(),
                crate::loader::opt_str_view(schema_base.local_base),
                crate::loader::opt_str_view(schema_base.remote_base), store@)
                == Err::<JsonV, ComposeErrV>(e@),
        },
{
    let ghost caps_v = capabilities.deep_view();
    let ghost lb = crate::loader::opt_str_view(schema_base.local_base);
    let ghost rb = crate::loader::opt_str_view(schema_base.remote_base);
    let n = capabilities.len();
    proof {
        assert(caps_v.len() == n);
    }
    if n == 0 {
        return Err(ComposeError::EmptyCapabilities);
    }

    // Find the root: the capability without an extends entry.
    let mut roots: Vec<Capability> = Vec::new();
    let mut i: usize = 0;
    proof {
        assert(roots.deep_view() =~= Seq::<CapabilityV>::empty());
    }
    while i < n
        invariant
            n == capabilities@.len(),
            caps_v == capabilities.deep_view(),
            caps_v.len() == n,
            i <= n,
            roots.deep_view() == roots_of(caps_v, i as int),
        decreases n - i,
    {
        if capabilities[i].extends.is_none() {
            let ghost pre = roots.deep_view();
            let c = cap_copy(&capabilities[i]);
            let ghost cv = c@;
            roots.push(c);
            proof {
                assert(roots.deep_view() =~= pre.push(cv));
            }
        }
        i += 1;
    }
    if roots.len() == 0 {
        return Err(ComposeError::NoRootCapability);
    }
    if roots.len() > 1 {
        let ghost rv_ = roots.deep_view();
        let m = roots.len();
        let mut names: Vec<String> = Vec::new();
        let mut j: usize = 0;
        proof {
            assert(names.deep_view() =~= Seq::<Seq<char>>::empty());
        }
        while j < m
            invariant
                m == roots@.len(),
                rv_ == roots.deep_view(),
                rv_.len() == m,
                j <= m,
                names.deep_view() == names_of(rv_, j as int),
            decreases m - j,
        {
            let ghost pre = names.deep_view();
            names.push(roots[j].name.clone());
            proof {
                assert(names.deep_view() =~= pre.push(rv_[j as int].name));
            }
            j += 1;
        }
        return Err(ComposeError::MultipleRootCapabilities { names });
    }
    let root = &roots[0];
    let ghost root_v = caps_v_root(caps_v);

    proof {
        assert(roots_of(caps_v, n as int).len() == 1);
        assert(root@ == root_v);
    }

    // Validate the graph: every parent must be declared.
    let mut i: usize = 0;
    while i < n
        invariant
            n == capabilities@.len(),
            caps_v == capabilities.deep_view(),
            caps_v.len() == n,
            0 < n,
            i <= n,
            roots_of(caps_v, n as int).len() == 1,
            root_v == caps_v_root(caps_v),
            first_unknown_parent(caps_v, i as int) is None,
        decreases n - i,
    {
        match &capabilities[i].extends {
            None => {},
            Some(ps) => {
                let ghost ps_v = ps.deep_view();
                let m = ps.len();
                let mut j: usize = 0;
                proof {
                    assert(ps_v.len() == m);
                }
                while j < m
                    invariant
                        m == ps@.len(),
                        ps_v == ps.deep_view(),
                        ps_v.len() == m,
                        j <= m,
                        n == capabilities@.len(),
                        caps_v == capabilities.deep_view(),
                        caps_v.len() == n,
                        0 < n,
                        i < n,
                        roots_of(caps_v, n as int).len() == 1,
                        caps_v[i as int].extends == Some(ps_v),
                        first_unknown_parent(caps_v, i as int) is None,
                        first_missing_parent(caps_v, ps_v, 0)
                            == first_missing_parent(caps_v, ps_v, j as int),
                    decreases m - j,
                {
                    if find_cap(capabilities, ps[j].as_str()).is_none() {
                        proof {
                            assert(first_unknown_parent(caps_v, i + 1)
                                == Some((caps_v[i as int].name, ps_v[j as int])));
                            lemma_fup_some(caps_v, i + 1, n as int);
                        }
                        return Err(ComposeError::UnknownParent {
                            extension: capabilities[i].name.clone(),
                            parent: ps[j].clone(),
                        });
                    }
                    j += 1;
                }
            },
        }
        i += 1;
    }

    // Validate connectivity: every extension must reach the root.
    let mut i: usize = 0;
    while i < n
        invariant
            n == capabilities@.len(),
            caps_v == capabilities.deep_view(),
            caps_v.len() == n,
            0 < n,
            i <= n,
            root@ == root_v,
            root_v == caps_v_root(caps_v),
            roots_of(caps_v, n as int).len() == 1,
            first_unknown_parent(caps_v, n as int) is None,
            first_orphan(caps_v, root_v.name, i as int) is None,
        decreases n - i,
    {
        if capabilities[i].extends.is_some() && !reaches_root(&capabilities[i], capabilities,
            root.name.as_str()) {
            proof {
                assert(first_orphan(caps_v, root_v.name, i + 1)
                    == Some(caps_v[i as int].name));
                lemma_orphan_some(caps_v, root_v.name, i + 1, n as int);
            }
            return Err(ComposeError::OrphanExtension {
                extension: capabilities[i].name.clone(),
                root: root.name.clone(),
            });
        }
        i += 1;
    }

    // Collect extensions (all non-root capabilities).
    let mut exts: Vec<Capability> = Vec::new();
    let mut i: usize = 0;
    proof {
        assert(exts.deep_view() =~= Seq::<CapabilityV>::empty());
    }
    while i < n
        invariant
            n == capabilities@.len(),
            caps_v == capabilities.deep_view(),
            caps_v.len() == n,
            i <= n,
            exts.deep_view() == extensions_of(caps_v, i as int),
        decreases n - i,
    {
        if capabilities[i].extends.is_some() {
            let ghost pre = exts.deep_view();
            let c = cap_copy(&capabilities[i]);
            let ghost cv = c@;
            exts.push(c);
            proof {
                assert(exts.deep_view() =~= pre.push(cv));
            }
        }
        i += 1;
    }
    proof {
        assert(first_unknown_parent(caps_v, n as int) is None);
        assert(first_orphan(caps_v, root_v.name, n as int) is None);
    }

    if exts.len() == 0 {
        return match resolve_schema_url(root.schema_url.as_str(), schema_base, store) {
            Err(e) => {
                let m = e.to_message();
                Err(ComposeError::SchemaFetch { url: root.schema_url.clone(), message: m })
            },
            Ok(s) => Ok(s),
        };
    }

    // Compose: for each extension, extract $defs[root name] and inline
    // its internal references.
    let ghost exts_v = exts.deep_view();
    let m = exts.len();
    let mut branches: Vec<Json> = Vec::new();
    let mut j: usize = 0;
    proof {
        assert(arr_view(branches@) =~= Seq::<JsonV>::empty());
    }
    while j < m
        invariant
            m == exts@.len(),
            exts_v == exts.deep_view(),
            exts_v.len() == m,
            0 < m,
            j <= m,
            n == capabilities@.len(),
            caps_v == capabilities.deep_view(),
            caps_v.len() == n,
            0 < n,
            root@ == root_v,
            root_v == caps_v_root(caps_v),
            roots_of(caps_v, n as int).len() == 1,
            first_unknown_parent(caps_v, n as int) is None,
            first_orphan(caps_v, root_v.name, n as int) is None,
            exts_v == extensions_of(caps_v, n as int),
            lb == crate::loader::opt_str_view(schema_base.local_base),
            rb == crate::loader::opt_str_view(schema_base.remote_base),
            compose_exts(exts_v, root_v.name, lb, rb, store@, j as int)
                == Ok::<Seq<JsonV>, ComposeErrV>(arr_view(branches@)),
        decreases m - j,
    {
        let ext = &exts[j];
        let ext_schema = match resolve_schema_url(ext.schema_url.as_str(), schema_base,
            store) {
            Err(e) => {
                proof {
                    lemma_compose_exts_err(exts_v, root_v.name, lb, rb, store@, j + 1,
                        m as int);
                }
                let msg = e.to_message();
                return Err(ComposeError::SchemaFetch {
                    url: ext.schema_url.clone(),
                    message: msg,
                });
            },
            Ok(s) => s,
        };
        let defs = match ext_schema.get("$defs") {
            None => {
                proof {
                    lemma_compose_exts_err(exts_v, root_v.name, lb, rb, store@, j + 1,
                        m as int);
                }
                return Err(ComposeError::MissingDefEntry {
                    extension: ext.name.clone(),
                    expected_key: root.name.clone(),
                });
            },
            Some(d) => d,
        };
        let ext_def = match defs.get(root.name.as_str()) {
            None => {
                proof {
                    lemma_compose_exts_err(exts_v, root_v.name, lb, rb, store@, j + 1,
                        m as int);
                }
                return Err(ComposeError::MissingDefEntry {
                    extension: ext.name.clone(),
                    expected_key: root.name.clone(),
                });
            },
            Some(d) => d,
        };
        let empty_visited: Vec<String> = Vec::new();
        proof {
            assert(empty_visited.deep_view() =~= Seq::<Seq<char>>::empty());
        }
        let inlined = inline_refs_exec(ext_def, defs, &empty_visited,
            crate::loader::REF_DEPTH_LIMIT);
        crate::json::push_item(&mut branches, inlined);
        j += 1;
    }
    let ghost br_v = arr_view(branches@);
    let mut out: Vec<(String, Json)> = Vec::new();
    proof {
        assert(obj_entries_view(out@) =~= Seq::<(Seq<char>, JsonV)>::empty());
    }
    crate::json::push_entry(&mut out, crate::strutil::str_copy("allOf"), Json::Arr(branches));
    let r = Json::Obj(out);
    proof {
        assert(obj_entries_view(out@) =~= seq![("allOf"@, JsonV::Arr(br_v))]);
    }
    Ok(r)
}

/// The single root of a declared capability set.
pub open spec fn caps_v_root(caps: Seq<CapabilityV>) -> CapabilityV {
    roots_of(caps, caps.len() as int)[0]
}

proof fn lemma_compose_exts_err(exts: Seq<CapabilityV>, root_name: Seq<char>,
    local_base: Option<Seq<char>>, remote_base: Option<Seq<char>>,
    store: Seq<(Seq<char>, JsonV)>, i: int, j: int)
    requires
        0 <= i <= j <= exts.len(),
        compose_exts(exts, root_name, local_base, remote_base, store, i) is Err,
    ensures
        compose_exts(exts, root_name, local_base, remote_base, store, j)
            == compose_exts(exts, root_name, local_base, remote_base, store, i),
    decreases j - i,
{
    if j > i {
        lemma_compose_exts_err(exts, root_name, local_base, remote_base, store, i, j - 1);
    }
}

/// Convenience: extract capabilities and compose the schema in one
/// call.
pub fn compose_from_payload(payload: &Json, schema_base: &SchemaBaseConfig, store: &DocStore)
    -> (r: Result<Json, ComposeError>)
    ensures
        match r {
            Ok(out) => match extract_caps_spec(payload@,
                crate::loader::opt_str_view(schema_base.local_base),
                crate::loader::opt_str_view(schema_base.remote_base), store@) {
                Err(_) => false,
                Ok(cs) => compose_spec(cs, crate::loader::opt_str_view(
                    schema_base.local_base), crate::loader::opt_str_view(
                    schema_base.remote_base), store@) == Ok::<JsonV, ComposeErrV>(out@),
            },
            Err(e) => match extract_caps_spec(payload@,
                crate::loader::opt_str_view(schema_base.local_base),
                crate::loader::opt_str_view(schema_base.remote_base), store@) {
                Err(ee) => ee == e@,
                Ok(cs) => compose_spec(cs, crate::loader::opt_str_view(
                    schema_base.local_base), crate::loader::opt_str_view(
                    schema_base.remote_base), store@) == Err::<JsonV, ComposeErrV>(e@),
            },
        },
{
    match extract_capabilities(payload, schema_base, store) {
        Err(e) => Err(e),
        Ok(capabilities) => compose_schema(&capabilities, schema_base, store),
    }
}

} // verus!
