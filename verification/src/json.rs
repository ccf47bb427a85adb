//! A JSON value as the library reads it, with the accessors that the
//! response handling uses.
use crate::text::str_eq;
use vstd::prelude::*;

verus! {

broadcast use vstd::std_specs::vec::group_vec_axioms;

/// A JSON value. Objects keep their fields in order, each key once.
pub enum Json {
    Null,
    Bool(bool),
    Number(JsonNumber),
    Str(String),
    Array(Vec<Json>),
    Object(Vec<(String, Json)>),
}

/// A JSON number: its text, its value when it is an integer that fits in a
/// `u64`, and whether it is a floating-point number (neither a signed nor an
/// unsigned integer).
pub struct JsonNumber {
    pub text: String,
    pub unsigned: Option<u64>,
    pub is_float: bool,
}

/// The mathematical content of a JSON value.
pub enum JsonView {
    Null,
    Bool(bool),
    Number(Seq<char>, Option<u64>, bool),
    Str(Seq<char>),
    Array(Seq<JsonView>),
    Object(Seq<(Seq<char>, JsonView)>),
}

pub open spec fn json_view(j: Json) -> JsonView
    decreases j,
{
    match j {
        Json::Null => JsonView::Null,
        Json::Bool(b) => JsonView::Bool(b),
        Json::Number(n) => JsonView::Number(n.text@, n.unsigned, n.is_float),
        Json::Str(s) => JsonView::Str(s@),
        Json::Array(v) => {
            proof { assert(decreases_to!(v => v@)); }
            JsonView::Array(json_seq_view(v@))
        },
        Json::Object(fs) => {
            proof { assert(decreases_to!(fs => fs@)); }
            JsonView::Object(json_fields_view(fs@))
        },
    }
}

pub open spec fn json_seq_view(s: Seq<Json>) -> Seq<JsonView>
    decreases s,
{
    if s.len() == 0 {
        Seq::empty()
    } else {
        proof {
            assert(decreases_to!(s => s[s.len() - 1]));
            assert(decreases_to!(s => s.subrange(0, s.len() - 1)));
        }
        json_seq_view(s.subrange(0, s.len() - 1)).push(json_view(s[s.len() - 1]))
    }
}

pub open spec fn json_fields_view(s: Seq<(String, Json)>) -> Seq<(Seq<char>, JsonView)>
    decreases s,
{
    if s.len() == 0 {
        Seq::empty()
    } else {
        proof {
            assert(decreases_to!(s => s[s.len() - 1]));
            assert(decreases_to!(s => s.subrange(0, s.len() - 1)));
        }
        json_fields_view(s.subrange(0, s.len() - 1)).push((s[s.len() - 1].0@, json_view(s[s.len() - 1].1)))
    }
}

pub proof fn lemma_json_seq_view(s: Seq<Json>)
    ensures
        json_seq_view(s).len() == s.len(),
        forall|k: int| 0 <= k < s.len() ==> #[trigger] json_seq_view(s)[k] == json_view(s[k]),
    decreases s.len(),
{
    if s.len() > 0 {
        lemma_json_seq_view(s.subrange(0, s.len() - 1));
    }
}

pub proof fn lemma_json_fields_view(s: Seq<(String, Json)>)
    ensures
        json_fields_view(s).len() == s.len(),
        forall|k: int| 0 <= k < s.len() ==> #[trigger] json_fields_view(s)[k] == (s[k].0@, json_view(s[k].1)),
    decreases s.len(),
{
    if s.len() > 0 {
        lemma_json_fields_view(s.subrange(0, s.len() - 1));
    }
}

/// A copy of a JSON value.
pub fn deep_clone(j: &Json) -> (r: Json)
    ensures json_view(r) == json_view(*j),
    decreases j,
{
    match j {
        Json::Null => Json::Null,
        Json::Bool(b) => Json::Bool(*b),
        Json::Number(n) => Json::Number(JsonNumber { text: n.text.clone(), unsigned: n.unsigned, is_float: n.is_float }),
        Json::Str(s) => Json::Str(s.clone()),
        Json::Array(v) => {
            let mut r: Vec<Json> = Vec::new();
            let mut i: usize = 0;
            while i < v.len()
                invariant
                    *j == Json::Array(*v),
                    i <= v@.len(),
                    r@.len() == i,
                    forall|k: int| 0 <= k < i ==> json_view(#[trigger] r@[k]) == json_view(v@[k]),
                decreases v@.len() - i,
            {
                proof {
                    assert(decreases_to!(*v => v[i as int]));
                    assert(decreases_to!(*j => (*j)->Array_0));
                    assert(decreases_to!(*j => v[i as int]));
                }
                let c = deep_clone(&v[i]);
                r.push(c);
                i += 1;
            }
            proof {
                lemma_json_seq_view(r@);
                lemma_json_seq_view(v@);
                assert(json_seq_view(r@) =~= json_seq_view(v@));
            }
            Json::Array(r)
        },
        Json::Object(fs) => {
            let mut r: Vec<(String, Json)> = Vec::new();
            let mut i: usize = 0;
            while i < fs.len()
                invariant
                    *j == Json::Object(*fs),
                    i <= fs@.len(),
                    r@.len() == i,
                    forall|k: int| 0 <= k < i ==> (#[trigger] r@[k]).0@ == fs@[k].0@ && json_view(r@[k].1) == json_view(fs@[k].1),
                decreases fs@.len() - i,
            {
                proof {
                    assert(decreases_to!(*fs => fs[i as int]));
                    assert(decreases_to!(*j => (*j)->Object_0));
                    assert(decreases_to!(*j => fs[i as int].1));
                }
                let c = deep_clone(&fs[i].1);
                r.push((fs[i].0.clone(), c));
                i += 1;
            }
            proof {
                lemma_json_fields_view(r@);
                lemma_json_fields_view(fs@);
                assert(json_fields_view(r@) =~= json_fields_view(fs@));
            }
            Json::Object(r)
        },
    }
}

/// The view of a JSON number.
pub open spec fn number_view(n: JsonNumber) -> JsonView {
    JsonView::Number(n.text@, n.unsigned, n.is_float)
}

/// The view of an optional JSON value.
pub open spec fn opt_json_view(o: Option<Json>) -> Option<JsonView> {
    match o {
        Some(j) => Some(json_view(j)),
        None => None,
    }
}

/// The view of an optional JSON number.
pub open spec fn opt_number_view(o: Option<JsonNumber>) -> Option<JsonView> {
    match o {
        Some(n) => Some(number_view(n)),
        None => None,
    }
}

/// The index of the first field from `i` on whose key is `key`.
pub open spec fn field_index(fs: Seq<(Seq<char>, JsonView)>, key: Seq<char>, i: nat) -> Option<nat>
    decreases fs.len() - i,
{
    if i >= fs.len() {
        None
    } else if fs[i as int].0 == key {
        Some(i)
    } else {
        field_index(fs, key, i + 1)
    }
}

/// The value of field `key` of an object (`Value::get`); `None` for a missing
/// field or a value that is not an object.
pub open spec fn json_get(j: JsonView, key: Seq<char>) -> Option<JsonView> {
    match j {
        JsonView::Object(fs) => match field_index(fs, key, 0) {
            Some(k) => Some(fs[k as int].1),
            None => None,
        },
        _ => None,
    }
}

/// The text of a string value (`Value::as_str`).
pub open spec fn json_as_str(j: JsonView) -> Option<Seq<char>> {
    match j {
        JsonView::Str(s) => Some(s),
        _ => None,
    }
}

/// The value of a non-negative integer that fits in a `u64` (`Value::as_u64`).
pub open spec fn json_as_u64(j: JsonView) -> Option<u64> {
    match j {
        JsonView::Number(_, u, _) => u,
        _ => None,
    }
}

/// The text of field `key` when it is a string.
pub open spec fn str_field(j: JsonView, key: Seq<char>) -> Option<Seq<char>> {
    match json_get(j, key) {
        Some(v) => json_as_str(v),
        None => None,
    }
}

/// The value of field `key` when it is a `u64` number.
pub open spec fn u64_field(j: JsonView, key: Seq<char>) -> Option<u64> {
    match json_get(j, key) {
        Some(v) => json_as_u64(v),
        None => None,
    }
}

/// Field `key` when it is a number.
pub open spec fn number_field(j: JsonView, key: Seq<char>) -> Option<JsonView> {
    match json_get(j, key) {
        Some(JsonView::Number(t, u, f)) => Some(JsonView::Number(t, u, f)),
        _ => None,
    }
}

/// The elements of field `key` when it is an array.
pub open spec fn array_field(j: JsonView, key: Seq<char>) -> Option<Seq<JsonView>> {
    match json_get(j, key) {
        Some(JsonView::Array(v)) => Some(v),
        _ => None,
    }
}

/// The first of `keys` whose field is a string, with that string (as
/// `keys.iter().find_map(|k| value.get(k).and_then(as_str))` finds it).
pub open spec fn str_any(j: JsonView, keys: Seq<Seq<char>>) -> Option<Seq<char>>
    decreases keys.len(),
{
    if keys.len() == 0 {
        None
    } else {
        match str_field(j, keys[0]) {
            Some(s) => Some(s),
            None => str_any(j, keys.drop_first()),
        }
    }
}

/// The first of `keys` whose field is a `u64` number, with that number.
pub open spec fn u64_any(j: JsonView, keys: Seq<Seq<char>>) -> Option<u64>
    decreases keys.len(),
{
    if keys.len() == 0 {
        None
    } else {
        match u64_field(j, keys[0]) {
            Some(n) => Some(n),
            None => u64_any(j, keys.drop_first()),
        }
    }
}

/// The first of `keys` whose field is a number, with that number.
pub open spec fn number_any(j: JsonView, keys: Seq<Seq<char>>) -> Option<JsonView>
    decreases keys.len(),
{
    if keys.len() == 0 {
        None
    } else {
        match number_field(j, keys[0]) {
            Some(n) => Some(n),
            None => number_any(j, keys.drop_first()),
        }
    }
}

/// The views of a list of keys.
pub open spec fn key_views(keys: Seq<&str>) -> Seq<Seq<char>> {
    keys.map_values(|k: &str| k@)
}

/// The value of field `key` of an object.
pub fn get<'a>(j: &'a Json, key: &str) -> (res: Option<&'a Json>)
    ensures
        match res {
            Some(v) => json_get(json_view(*j), key@) == Some(json_view(*v)),
            None => json_get(json_view(*j), key@) is None,
        },
{
    match j {
        Json::Object(fs) => {
            let ghost fv = json_fields_view(fs@);
            proof {
                lemma_json_fields_view(fs@);
            }
            let mut i: usize = 0;
            while i < fs.len()
                invariant
                    *j == Json::Object(*fs),
                    json_view(*j) == JsonView::Object(fv),
                    fv == json_fields_view(fs@),
                    fv.len() == fs@.len(),
                    forall|k: int| 0 <= k < fs@.len() ==> #[trigger] fv[k] == (fs@[k].0@, json_view(fs@[k].1)),
                    i <= fs@.len(),
                    field_index(fv, key@, 0) == field_index(fv, key@, i as nat),
                decreases fs@.len() - i,
            {
                if str_eq(fs[i].0.as_str(), key) {
                    proof {
                        assert(fv[i as int].0 == key@);
                    }
                    return Some(&fs[i].1);
                }
                proof {
                    assert(fv[i as int].0 != key@);
                }
                i += 1;
            }
            None
        },
        _ => None,
    }
}

/// The text of field `key` when it is a string.
pub fn get_str<'a>(j: &'a Json, key: &str) -> (res: Option<&'a String>)
    ensures
        match res {
            Some(s) => str_field(json_view(*j), key@) == Some(s@),
            None => str_field(json_view(*j), key@) is None,
        },
{
    match get(j, key) {
        Some(Json::Str(s)) => Some(s),
        _ => None,
    }
}

/// The value of field `key` when it is a `u64` number.
pub fn get_u64(j: &Json, key: &str) -> (res: Option<u64>)
    ensures
        res == u64_field(json_view(*j), key@),
{
    match get(j, key) {
        Some(Json::Number(n)) => n.unsigned,
        _ => None,
    }
}

/// Field `key` when it is a number.
pub fn get_number<'a>(j: &'a Json, key: &str) -> (res: Option<&'a JsonNumber>)
    ensures
        match res {
            Some(n) => number_field(json_view(*j), key@) == Some(number_view(*n)),
            None => number_field(json_view(*j), key@) is None,
        },
{
    match get(j, key) {
        Some(Json::Number(n)) => Some(n),
        _ => None,
    }
}

/// The elements of field `key` when it is an array.
pub fn get_array<'a>(j: &'a Json, key: &str) -> (res: Option<&'a Vec<Json>>)
    ensures
        match res {
            Some(v) => array_field(json_view(*j), key@) == Some(json_seq_view(v@)),
            None => array_field(json_view(*j), key@) is None,
        },
{
    match get(j, key) {
        Some(Json::Array(v)) => Some(v),
        _ => None,
    }
}

/// The first of `keys` whose field is a string, with that string.
pub fn get_str_any<'a>(j: &'a Json, keys: &[&str]) -> (res: Option<&'a String>)
    ensures
        match res {
            Some(s) => str_any(json_view(*j), key_views(keys@)) == Some(s@),
            None => str_any(json_view(*j), key_views(keys@)) is None,
        },
{
    let ghost jv = json_view(*j);
    let mut i: usize = 0;
    proof {
        assert(key_views(keys@).skip(0) =~= key_views(keys@));
    }
    while i < keys.len()
        invariant
            jv == json_view(*j),
            i <= keys@.len(),
            str_any(jv, key_views(keys@)) == str_any(jv, key_views(keys@).skip(i as int)),
        decreases keys@.len() - i,
    {
        proof {
            let rest = key_views(keys@).skip(i as int);
            assert(rest[0] == keys@[i as int]@);
            assert(rest.drop_first() =~= key_views(keys@).skip(i + 1));
        }
        match get_str(j, keys[i]) {
            Some(s) => {
                return Some(s);
            },
            None => {},
        }
        i += 1;
    }
    proof {
        assert(key_views(keys@).skip(i as int) =~= Seq::<Seq<char>>::empty());
    }
    None
}

/// The first of `keys` whose field is a `u64` number, with that number.
pub fn get_u64_any(j: &Json, keys: &[&str]) -> (res: Option<u64>)
    ensures
        res == u64_any(json_view(*j), key_views(keys@)),
{
    let ghost jv = json_view(*j);
    let mut i: usize = 0;
    proof {
        assert(key_views(keys@).skip(0) =~= key_views(keys@));
    }
    while i < keys.len()
        invariant
            jv == json_view(*j),
            i <= keys@.len(),
            u64_any(jv, key_views(keys@)) == u64_any(jv, key_views(keys@).skip(i as int)),
        decreases keys@.len() - i,
    {
        proof {
            let rest = key_views(keys@).skip(i as int);
            assert(rest[0] == keys@[i as int]@);
            assert(rest.drop_first() =~= key_views(keys@).skip(i + 1));
        }
        match get_u64(j, keys[i]) {
            Some(n) => {
                return Some(n);
            },
            None => {},
        }
        i += 1;
    }
    proof {
        assert(key_views(keys@).skip(i as int) =~= Seq::<Seq<char>>::empty());
    }
    None
}

/// The first of `keys` whose field is a number, with that number.
pub fn get_number_any<'a>(j: &'a Json, keys: &[&str]) -> (res: Option<&'a JsonNumber>)
    ensures
        match res {
            Some(n) => number_any(json_view(*j), key_views(keys@)) == Some(number_view(*n)),
            None => number_any(json_view(*j), key_views(keys@)) is None,
        },
{
    let ghost jv = json_view(*j);
    let mut i: usize = 0;
    proof {
        assert(key_views(keys@).skip(0) =~= key_views(keys@));
    }
    while i < keys.len()
        invariant
            jv == json_view(*j),
            i <= keys@.len(),
            number_any(jv, key_views(keys@)) == number_any(jv, key_views(keys@).skip(i as int)),
        decreases keys@.len() - i,
    {
        proof {
            let rest = key_views(keys@).skip(i as int);
            assert(rest[0] == keys@[i as int]@);
            assert(rest.drop_first() =~= key_views(keys@).skip(i + 1));
        }
        match get_number(j, keys[i]) {
            Some(n) => {
                return Some(n);
            },
            None => {},
        }
        i += 1;
    }
    proof {
        assert(key_views(keys@).skip(i as int) =~= Seq::<Seq<char>>::empty());
    }
    None
}

/// A copy of a JSON number.
pub fn clone_number(n: &JsonNumber) -> (res: JsonNumber)
    ensures
        res == *n,
{
    JsonNumber { text: n.text.clone(), unsigned: n.unsigned, is_float: n.is_float }
}

/// Copies of JSON values.
pub fn clone_all(v: &Vec<Json>) -> (res: Vec<Json>)
    ensures
        json_seq_view(res@) == json_seq_view(v@),
{
    let mut r: Vec<Json> = Vec::new();
    let mut i: usize = 0;
    while i < v.len()
        invariant
            i <= v@.len(),
            r@.len() == i,
            forall|k: int| 0 <= k < i ==> json_view(#[trigger] r@[k]) == json_view(v@[k]),
        decreases v@.len() - i,
    {
        let c = deep_clone(&v[i]);
        r.push(c);
        i += 1;
    }
    proof {
        lemma_json_seq_view(r@);
        lemma_json_seq_view(v@);
        assert(json_seq_view(r@) =~= json_seq_view(v@));
    }
    r
}

} // verus!
