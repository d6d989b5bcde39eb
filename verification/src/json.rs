//! JSON values as the dply API returns them, and the ways the CLI reads
//! them: fields by fallback names and dotted paths, table cells, rows, and
//! the `{"data": …}` envelope. Parsing and printing JSON text is the
//! caller's part; a value carries the compact text of each array and object
//! as it was given.

use vstd::prelude::*;

use crate::text::{from_chars, push_str, split_char, split_on, str_eq, to_chars, views};

verus! {

/// A JSON value.
pub enum Json {
    Null,
    Bool(bool),
    /// A number, as its text.
    Number(String),
    Str(String),
    /// The elements, and the array's compact JSON text.
    Array(Vec<Json>, String),
    /// The members in order, and the object's compact JSON text.
    Object(Vec<(String, Json)>, String),
}

/// The value under `key` among an object's members: the first with that key.
pub open spec fn member(ms: Seq<(String, Json)>, key: Seq<char>) -> Option<Json>
    decreases ms.len(),
{
    if ms.len() == 0 {
        None
    } else if ms[0].0@ == key {
        Some(ms[0].1)
    } else {
        member(ms.drop_first(), key)
    }
}

/// The value under `key` of an object (`Value::get`); `None` for anything
/// else.
pub open spec fn get_key(v: Json, key: Seq<char>) -> Option<Json> {
    match v {
        Json::Object(ms, _) => member(ms@, key),
        _ => None,
    }
}

/// Following dotted path segments through nested objects.
pub open spec fn dig_segments(v: Json, segs: Seq<Seq<char>>) -> Option<Json>
    decreases segs.len(),
{
    if segs.len() == 0 {
        Some(v)
    } else {
        match get_key(v, segs[0]) {
            Some(w) => dig_segments(w, segs.drop_first()),
            None => None,
        }
    }
}

/// Follow a dotted path like `build.framework` through nested objects.
pub open spec fn dig_path(v: Json, path: Seq<char>) -> Option<Json> {
    dig_segments(v, split_on(path, '.'))
}

/// The first of `names` (dotted paths) present and not null.
pub open spec fn first_field(v: Json, names: Seq<Seq<char>>) -> Option<Json>
    decreases names.len(),
{
    if names.len() == 0 {
        None
    } else {
        match dig_path(v, names[0]) {
            Some(w) => if w is Null {
                first_field(v, names.drop_first())
            } else {
                Some(w)
            },
            None => first_field(v, names.drop_first()),
        }
    }
}

/// A value as a table cell: strings unquoted, numbers and booleans as text,
/// absent and null as nothing, arrays and objects as compact JSON.
pub open spec fn cell_text(v: Option<Json>) -> Seq<char> {
    match v {
        None => Seq::empty(),
        Some(Json::Null) => Seq::empty(),
        Some(Json::Str(s)) => s@,
        Some(Json::Bool(b)) => if b {
            "true"@
        } else {
            "false"@
        },
        Some(Json::Number(n)) => n@,
        Some(Json::Array(_, t)) => t@,
        Some(Json::Object(_, t)) => t@,
    }
}

/// A payload as a list of rows: an array's elements, nothing for null, else
/// the value itself.
pub open spec fn rows_of(v: Json) -> Seq<Json> {
    match v {
        Json::Array(vs, _) => vs@,
        Json::Null => Seq::empty(),
        _ => seq![v],
    }
}

/// A payload without its `{"data": …}` envelope: `data` when it is an array
/// or an object, else the payload itself.
pub open spec fn unwrapped(v: Json) -> Json {
    match get_key(v, "data"@) {
        Some(inner) => match inner {
            Json::Array(..) => inner,
            Json::Object(..) => inner,
            _ => v,
        },
        None => v,
    }
}

/// The position of the first member with key `key`.
pub open spec fn member_index(ms: Seq<(String, Json)>, key: Seq<char>) -> Option<int>
    decreases ms.len(),
{
    if ms.len() == 0 {
        None
    } else if ms[0].0@ == key {
        Some(0)
    } else {
        match member_index(ms.drop_first(), key) {
            Some(k) => Some(k + 1),
            None => None,
        }
    }
}

proof fn lemma_member_index(ms: Seq<(String, Json)>, key: Seq<char>)
    ensures
        match member_index(ms, key) {
            Some(k) => 0 <= k < ms.len() && ms[k].0@ == key && member(ms, key) == Some(ms[k].1),
            None => member(ms, key) is None,
        },
    decreases ms.len(),
{
    if ms.len() > 0 && ms[0].0@ != key {
        lemma_member_index(ms.drop_first(), key);
    }
}

fn member_position(ms: &Vec<(String, Json)>, key: &str) -> (r: Option<usize>)
    ensures
        match r {
            Some(k) => member_index(ms@, key@) == Some(k as int),
            None => member_index(ms@, key@) is None,
        },
{
    let mut i: usize = 0;
    assert(ms@.skip(0) =~= ms@);
    while i < ms.len()
        invariant
            i <= ms.len(),
            forall|k: int| 0 <= k < i ==> (#[trigger] ms@[k]).0@ != key@,
        decreases ms.len() - i,
    {
        if str_eq(ms[i].0.as_str(), key) {
            proof {
                lemma_member_index_at(ms@, key@, i as int);
            }
            return Some(i);
        }
        i = i + 1;
    }
    proof {
        lemma_member_index_at(ms@, key@, ms@.len() as int);
    }
    None
}

proof fn lemma_member_index_at(ms: Seq<(String, Json)>, key: Seq<char>, i: int)
    requires
        0 <= i <= ms.len(),
        forall|k: int| 0 <= k < i ==> (#[trigger] ms[k]).0@ != key,
        i < ms.len() ==> ms[i].0@ == key,
    ensures
        member_index(ms, key) == if i < ms.len() {
            Some(i)
        } else {
            None::<int>
        },
    decreases i,
{
    if i > 0 {
        let t = ms.drop_first();
        assert forall|k: int| 0 <= k < i - 1 implies (#[trigger] t[k]).0@ != key by {
            assert(t[k] == ms[k + 1]);
        }
        if i < ms.len() {
            assert(t[i - 1] == ms[i]);
        }
        lemma_member_index_at(t, key, i - 1);
        assert(ms[0].0@ != key);
    }
}

/// The value under `key` of an object (see [`get_key`]).
pub fn get<'a>(v: &'a Json, key: &str) -> (r: Option<&'a Json>)
    ensures
        match r {
            Some(w) => get_key(*v, key@) == Some(*w),
            None => get_key(*v, key@) is None,
        },
{
    match v {
        Json::Object(ms, _) => {
            proof {
                lemma_member_index(ms@, key@);
            }
            match member_position(ms, key) {
                Some(k) => Some(&ms[k].1),
                None => None,
            }
        },
        _ => None,
    }
}

/// Follow a dotted path through nested objects (see [`dig_path`]).
pub fn dig<'a>(v: &'a Json, path: &str) -> (r: Option<&'a Json>)
    ensures
        match r {
            Some(w) => dig_path(*v, path@) == Some(*w),
            None => dig_path(*v, path@) is None,
        },
{
    let segs = split_char(&to_chars(path), '.');
    let ghost sv = views(segs@);
    assert(sv =~= split_on(path@, '.'));
    let mut cur: &'a Json = v;
    let mut i: usize = 0;
    assert(sv.skip(0) =~= sv);
    while i < segs.len()
        invariant
            i <= segs.len(),
            sv == views(segs@),
            dig_path(*v, path@) == dig_segments(*cur, sv.skip(i as int)),
            sv == split_on(path@, '.'),
        decreases segs.len() - i,
    {
        assert(sv.skip(i as int)[0] == segs@[i as int]@);
        assert(sv.skip(i as int).drop_first() =~= sv.skip(i + 1));
        let seg = from_chars(&segs[i]);
        match get(cur, seg.as_str()) {
            Some(w) => {
                cur = w;
            },
            None => {
                return None;
            },
        }
        i = i + 1;
    }
    assert(sv.skip(i as int) =~= Seq::<Seq<char>>::empty());
    Some(cur)
}

/// The first of `names` present and not null (see [`first_field`]).
pub fn field<'a>(v: &'a Json, names: &[&str]) -> (r: Option<&'a Json>)
    ensures
        match r {
            Some(w) => first_field(*v, names@.map_values(|n: &str| n@)) == Some(*w),
            None => first_field(*v, names@.map_values(|n: &str| n@)) is None,
        },
{
    let ghost nv = names@.map_values(|n: &str| n@);
    let mut i: usize = 0;
    assert(nv.skip(0) =~= nv);
    while i < names.len()
        invariant
            i <= names.len(),
            nv == names@.map_values(|n: &str| n@),
            first_field(*v, nv) == first_field(*v, nv.skip(i as int)),
        decreases names.len() - i,
    {
        assert(nv.skip(i as int)[0] == names@[i as int]@);
        assert(nv.skip(i as int).drop_first() =~= nv.skip(i + 1));
        match dig(v, names[i]) {
            Some(w) => {
                let null = match w {
                    Json::Null => true,
                    _ => false,
                };
                if !null {
                    return Some(w);
                }
            },
            None => {},
        }
        i = i + 1;
    }
    assert(nv.skip(i as int) =~= Seq::<Seq<char>>::empty());
    None
}

/// A value as a table cell (see [`cell_text`]).
pub fn cell(v: Option<&Json>) -> (r: String)
    ensures
        r@ == cell_text(
            match v {
                Some(w) => Some(*w),
                None => None,
            },
        ),
{
    match v {
        None => String::new(),
        Some(Json::Null) => String::new(),
        Some(Json::Str(s)) => String::from_str(s.as_str()),
        Some(Json::Bool(b)) => if *b {
            String::from_str("true")
        } else {
            String::from_str("false")
        },
        Some(Json::Number(n)) => String::from_str(n.as_str()),
        Some(Json::Array(_, t)) => String::from_str(t.as_str()),
        Some(Json::Object(_, t)) => String::from_str(t.as_str()),
    }
}

/// The cell of the first of `names` present and not null.
pub fn cell_of(v: &Json, names: &[&str]) -> (r: String)
    ensures
        r@ == cell_text(first_field(*v, names@.map_values(|n: &str| n@))),
{
    cell(field(v, names))
}

/// A payload as a list of rows (see [`rows_of`]).
pub fn rows(v: &Json) -> (r: Vec<&Json>)
    ensures
        r@.len() == rows_of(*v).len(),
        forall|i: int| 0 <= i < r@.len() ==> *(#[trigger] r@[i]) == rows_of(*v)[i],
{
    let mut out: Vec<&Json> = Vec::new();
    match v {
        Json::Array(vs, _) => {
            let mut i: usize = 0;
            while i < vs.len()
                invariant
                    i <= vs.len(),
                    out@.len() == i,
                    forall|k: int| 0 <= k < i ==> *(#[trigger] out@[k]) == vs@[k],
                decreases vs.len() - i,
            {
                out.push(&vs[i]);
                i = i + 1;
            }
        },
        Json::Null => {},
        _ => {
            out.push(v);
        },
    }
    out
}

/// A payload without its `{"data": …}` envelope (see [`unwrapped`]).
pub fn unwrap_data(v: Json) -> (r: Json)
    ensures
        r == unwrapped(v),
{
    let ghost v0 = v;
    match v {
        Json::Object(ms, t) => {
            proof {
                lemma_member_index(ms@, "data"@);
            }
            match member_position(&ms, "data") {
                Some(k) => {
                    let keep = match &ms[k].1 {
                        Json::Array(..) => true,
                        Json::Object(..) => true,
                        _ => false,
                    };
                    if keep {
                        let mut ms = ms;
                        let (_, inner) = ms.remove(k);
                        inner
                    } else {
                        Json::Object(ms, t)
                    }
                },
                None => Json::Object(ms, t),
            }
        },
        other => other,
    }
}

} // verus!
