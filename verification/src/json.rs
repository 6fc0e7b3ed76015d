//! The JSON tree model.
//!
//! `Json` is the executable tree; `JsonV` is its mathematical view.
//! Objects are ordered lists of key/value pairs (authored order is
//! preserved); numbers are carried as their decimal text so that no
//! numeric interpretation is baked into the model.

use vstd::prelude::*;

verus! {

/// Mathematical model of a JSON value.
#[verifier::ext_equal]
pub enum JsonV {
    Null,
    Bool(bool),
    Num(Seq<char>),
    Str(Seq<char>),
    Arr(Seq<JsonV>),
    Obj(Seq<(Seq<char>, JsonV)>),
}

/// A JSON value: the tree all subsystems operate on.
#[derive(Debug, PartialEq, Eq)]
pub enum Json {
    Null,
    Bool(bool),
    /// A number, carried as its decimal text.
    Num(String),
    Str(String),
    Arr(Vec<Json>),
    Obj(Vec<(String, Json)>),
}

/// The view of an executable JSON tree.
pub open spec fn json_view(j: Json) -> JsonV
    decreases j, 1int via json_view_dec
{
    match j {
        Json::Null => JsonV::Null,
        Json::Bool(b) => JsonV::Bool(b),
        Json::Num(s) => JsonV::Num(s@),
        Json::Str(s) => JsonV::Str(s@),
        Json::Arr(items) => JsonV::Arr(arr_view(items@)),
        Json::Obj(entries) => JsonV::Obj(obj_entries_view(entries@)),
    }
}

/// The views of a sequence of JSON values.
pub open spec fn arr_view(items: Seq<Json>) -> Seq<JsonV>
    decreases items, 0int via arr_view_dec
{
    if items.len() == 0 {
        Seq::empty()
    } else {
        arr_view(items.subrange(0, items.len() - 1)).push(json_view(items[items.len() - 1]))
    }
}

/// The views of an object's entry list.
pub open spec fn obj_entries_view(es: Seq<(String, Json)>) -> Seq<(Seq<char>, JsonV)>
    decreases es, 0int via obj_entries_view_dec
{
    if es.len() == 0 {
        Seq::empty()
    } else {
        obj_entries_view(es.subrange(0, es.len() - 1)).push(
            (es[es.len() - 1].0@, json_view(es[es.len() - 1].1)),
        )
    }
}

#[via_fn]
proof fn json_view_dec(j: Json) {
    match j {
        Json::Arr(items) => {
            assert(decreases_to!(j => items));
            assert(decreases_to!(items => items@));
        },
        Json::Obj(entries) => {
            assert(decreases_to!(j => entries));
            assert(decreases_to!(entries => entries@));
        },
        _ => {},
    }
}

#[via_fn]
proof fn arr_view_dec(items: Seq<Json>) {
    if items.len() > 0 {
        assert(decreases_to!(items => items.subrange(0, items.len() - 1)));
        assert(decreases_to!(items => items[items.len() - 1]));
    }
}

#[via_fn]
proof fn obj_entries_view_dec(es: Seq<(String, Json)>) {
    if es.len() > 0 {
        assert(decreases_to!(es => es.subrange(0, es.len() - 1)));
        assert(decreases_to!(es => es[es.len() - 1]));
        assert(decreases_to!(es[es.len() - 1] => es[es.len() - 1].1));
    }
}

impl View for Json {
    type V = JsonV;

    open spec fn view(&self) -> JsonV {
        json_view(*self)
    }
}

/// `arr_view` keeps the length.
pub broadcast proof fn arr_view_len(items: Seq<Json>)
    ensures
        #[trigger] arr_view(items).len() == items.len(),
    decreases items.len(),
{
    if items.len() > 0 {
        arr_view_len(items.subrange(0, items.len() - 1));
    }
}

/// `arr_view` maps elements pointwise.
pub broadcast proof fn arr_view_index(items: Seq<Json>, i: int)
    requires
        0 <= i < items.len(),
    ensures
        #[trigger] arr_view(items)[i] == json_view(items[i]),
    decreases items.len(),
{
    arr_view_len(items);
    if i < items.len() - 1 {
        arr_view_index(items.subrange(0, items.len() - 1), i);
    }
}

/// `obj_entries_view` keeps the length.
pub broadcast proof fn obj_entries_view_len(es: Seq<(String, Json)>)
    ensures
        #[trigger] obj_entries_view(es).len() == es.len(),
    decreases es.len(),
{
    if es.len() > 0 {
        obj_entries_view_len(es.subrange(0, es.len() - 1));
    }
}

/// `obj_entries_view` maps entries pointwise.
pub broadcast proof fn obj_entries_view_index(es: Seq<(String, Json)>, i: int)
    requires
        0 <= i < es.len(),
    ensures
        #[trigger] obj_entries_view(es)[i] == (es[i].0@, json_view(es[i].1)),
    decreases es.len(),
{
    obj_entries_view_len(es);
    if i < es.len() - 1 {
        obj_entries_view_index(es.subrange(0, es.len() - 1), i);
    }
}

/// `arr_view` commutes with `push`.
pub broadcast proof fn arr_view_push(items: Seq<Json>, x: Json)
    ensures
        #[trigger] arr_view(items.push(x)) == arr_view(items).push(json_view(x)),
{
    let p = items.push(x);
    assert(p.subrange(0, p.len() - 1) =~= items);
}

/// `obj_entries_view` commutes with `push`.
pub broadcast proof fn obj_entries_view_push(es: Seq<(String, Json)>, e: (String, Json))
    ensures
        #[trigger] obj_entries_view(es.push(e)) == obj_entries_view(es).push(
            (e.0@, json_view(e.1)),
        ),
{
    let p = es.push(e);
    assert(p.subrange(0, p.len() - 1) =~= es);
}

pub broadcast group group_json_view {
    arr_view_len,
    arr_view_index,
    arr_view_push,
    obj_entries_view_len,
    obj_entries_view_index,
    obj_entries_view_push,
}

/// Appends an entry, tracking the view.
pub fn push_entry(out: &mut Vec<(String, Json)>, k: String, v: Json)
    ensures
        obj_entries_view(final(out)@) == obj_entries_view(old(out)@).push((k@, v@)),
        final(out)@.len() == old(out)@.len() + 1,
{
    let ghost pre = out@;
    let e = (k, v);
    let ghost ev = e;
    out.push(e);
    proof {
        obj_entries_view_push(pre, ev);
    }
}

/// Appends an item, tracking the view.
pub fn push_item(out: &mut Vec<Json>, v: Json)
    ensures
        arr_view(final(out)@) == arr_view(old(out)@).push(v@),
        final(out)@.len() == old(out)@.len() + 1,
{
    let ghost pre = out@;
    let ghost vv = v;
    out.push(v);
    proof {
        arr_view_push(pre, vv);
    }
}

/// Looks `key` up in an entry list; the first match wins.
pub fn entries_get<'a>(entries: &'a Vec<(String, Json)>, key: &str) -> (r: Option<&'a Json>)
    ensures
        match r {
            Some(v) => obj_get(obj_entries_view(entries@), key@) == Some(v@),
            None => obj_get(obj_entries_view(entries@), key@) is None,
        },
{
    broadcast use group_json_view;

    let ghost es = obj_entries_view(entries@);
    let n = entries.len();
    let mut i: usize = 0;
    while i < n
        invariant
            n == entries@.len(),
            es == obj_entries_view(entries@),
            i <= n,
            obj_get(es, key@) == obj_get_from(es, key@, i as int),
        decreases n - i,
    {
        proof {
            obj_entries_view_len(entries@);
            obj_entries_view_index(entries@, i as int);
        }
        if crate::strutil::str_eq(entries[i].0.as_str(), key) {
            return Some(&entries[i].1);
        }
        i += 1;
    }
    None
}

/// Looks a key up in an object's entry list, starting at index `i`;
/// the first match wins.
pub open spec fn obj_get_from(es: Seq<(Seq<char>, JsonV)>, key: Seq<char>, i: int) -> Option<JsonV>
    decreases es.len() - i,
{
    if i < 0 || i >= es.len() {
        None
    } else if es[i].0 == key {
        Some(es[i].1)
    } else {
        obj_get_from(es, key, i + 1)
    }
}

/// Looks a key up in an object's entry list; the first match wins.
pub open spec fn obj_get(es: Seq<(Seq<char>, JsonV)>, key: Seq<char>) -> Option<JsonV> {
    obj_get_from(es, key, 0)
}

/// Whether an object's entry list carries a key.
pub open spec fn obj_has(es: Seq<(Seq<char>, JsonV)>, key: Seq<char>) -> bool {
    obj_get(es, key) is Some
}

impl Json {
    /// Looks `key` up when `self` is an object; `None` otherwise.
    pub fn get<'a>(&'a self, key: &str) -> (r: Option<&'a Json>)
        ensures
            match r {
                Some(v) => self@ is Obj && obj_get(self@->Obj_0, key@) == Some(v@),
                None => !(self@ is Obj) || obj_get(self@->Obj_0, key@) is None,
            },
    {
        broadcast use group_json_view;

        match self {
            Json::Obj(entries) => {
                let ghost es = self@->Obj_0;
                let n = entries.len();
                let mut i: usize = 0;
                while i < n
                    invariant
                        n == entries@.len(),
                        *self == Json::Obj(*entries),
                        es == obj_entries_view(entries@),
                        i <= n,
                        obj_get(es, key@) == obj_get_from(es, key@, i as int),
                    decreases n - i,
                {
                    proof {
                        obj_entries_view_len(entries@);
                        obj_entries_view_index(entries@, i as int);
                    }
                    if crate::strutil::str_eq(entries[i].0.as_str(), key) {
                        return Some(&entries[i].1);
                    }
                    i += 1;
                }
                None
            },
            _ => None,
        }
    }

    /// A structurally identical copy of `self`.
    pub fn deep_copy(&self) -> (r: Json)
        ensures
            r@ == self@,
        decreases self,
    {
        broadcast use group_json_view;

        match self {
            Json::Null => Json::Null,
            Json::Bool(b) => Json::Bool(*b),
            Json::Num(s) => Json::Num(s.clone()),
            Json::Str(s) => Json::Str(s.clone()),
            Json::Arr(items) => {
                let n = items.len();
                let mut out: Vec<Json> = Vec::new();
                let mut i: usize = 0;
                while i < n
                    invariant
                        n == items@.len(),
                        *self == Json::Arr(*items),
                        i <= n,
                        out@.len() == i,
                        forall|k: int| 0 <= k < i ==> json_view(#[trigger] out@[k]) == json_view(
                            items@[k],
                        ),
                    decreases n - i,
                {
                    proof {
                        assert(*items == self->Arr_0);
                        assert(decreases_to!(*self => self->Arr_0));
                        assert(decreases_to!(*items => items@));
                        assert(decreases_to!(items@ => items@[i as int]));
                    }
                    let c = items[i].deep_copy();
                    out.push(c);
                    i += 1;
                }
                let r = Json::Arr(out);
                proof {
                    assert(arr_view(out@) =~= arr_view(items@));
                }
                r
            },
            Json::Obj(entries) => {
                let n = entries.len();
                let mut out: Vec<(String, Json)> = Vec::new();
                let mut i: usize = 0;
                while i < n
                    invariant
                        n == entries@.len(),
                        *self == Json::Obj(*entries),
                        i <= n,
                        out@.len() == i,
                        forall|k: int| 0 <= k < i ==> (#[trigger] out@[k]).0@ == entries@[k].0@
                            && json_view(out@[k].1) == json_view(entries@[k].1),
                    decreases n - i,
                {
                    proof {
                        assert(*entries == self->Obj_0);
                        assert(decreases_to!(*self => self->Obj_0));
                        assert(decreases_to!(*entries => entries@));
                        assert(decreases_to!(entries@ => entries@[i as int]));
                        assert(decreases_to!(entries@[i as int] => entries@[i as int].1));
                    }
                    let k = entries[i].0.clone();
                    let c = entries[i].1.deep_copy();
                    out.push((k, c));
                    i += 1;
                }
                let r = Json::Obj(out);
                proof {
                    assert(obj_entries_view(out@) =~= obj_entries_view(entries@));
                }
                r
            },
        }
    }
}

} // verus!
