//! JSON documents as the library reads and builds them.
use vstd::prelude::*;

verus! {

broadcast use vstd::std_specs::vec::axiom_vec_decreases_to_view;

/// A JSON document. An object lists its members; a key occurs in it at most once.
#[derive(Debug)]
pub enum Json {
    Null,
    Bool(bool),
    /// A number, by its text.
    Number(String),
    Str(String),
    Array(Vec<Json>),
    Object(Vec<(String, Json)>),
}

/// The contents of a JSON document.
pub enum JsonV {
    Null,
    Bool(bool),
    Number(Seq<char>),
    Str(Seq<char>),
    Array(Seq<JsonV>),
    Object(Seq<(Seq<char>, JsonV)>),
}

/// The contents of a document.
pub open spec fn jv(j: Json) -> JsonV
    decreases j, 0nat,
{
    match j {
        Json::Null => JsonV::Null,
        Json::Bool(b) => JsonV::Bool(b),
        Json::Number(n) => JsonV::Number(n@),
        Json::Str(s) => JsonV::Str(s@),
        Json::Array(items) => JsonV::Array(jv_items(items@)),
        Json::Object(fields) => JsonV::Object(jv_fields(fields@)),
    }
}

/// The contents of the elements of an array.
pub open spec fn jv_items(items: Seq<Json>) -> Seq<JsonV>
    decreases items, 1nat,
{
    if items.len() == 0 {
        Seq::empty()
    } else {
        jv_items(items.drop_last()).push(jv(items.last()))
    }
}

/// The contents of the members of an object.
pub open spec fn jv_fields(fields: Seq<(String, Json)>) -> Seq<(Seq<char>, JsonV)>
    decreases fields, 1nat,
{
    if fields.len() == 0 {
        Seq::empty()
    } else {
        jv_fields(fields.drop_last()).push((fields.last().0@, jv(fields.last().1)))
    }
}


pub proof fn lemma_jv_items(items: Seq<Json>)
    ensures
        jv_items(items).len() == items.len(),
        forall|k: int| 0 <= k < items.len() ==> #[trigger] jv_items(items)[k] == jv(items[k]),
    decreases items.len(),
{
    if items.len() > 0 {
        lemma_jv_items(items.drop_last());
        assert forall|k: int| 0 <= k < items.len() implies #[trigger] jv_items(items)[k] == jv(items[k]) by {
            if k < items.len() - 1 {
                assert(jv_items(items.drop_last())[k] == jv(items.drop_last()[k]));
            }
        }
    }
}

pub proof fn lemma_jv_fields(fields: Seq<(String, Json)>)
    ensures
        jv_fields(fields).len() == fields.len(),
        forall|k: int| 0 <= k < fields.len() ==> #[trigger] jv_fields(fields)[k] == (fields[k].0@, jv(fields[k].1)),
    decreases fields.len(),
{
    if fields.len() > 0 {
        lemma_jv_fields(fields.drop_last());
        assert forall|k: int| 0 <= k < fields.len() implies #[trigger] jv_fields(fields)[k] == (fields[k].0@, jv(fields[k].1)) by {
            if k < fields.len() - 1 {
                assert(jv_fields(fields.drop_last())[k] == (fields.drop_last()[k].0@, jv(fields.drop_last()[k].1)));
            }
        }
    }
}

/// Two element lists with the same contents element by element have the same contents.
pub proof fn lemma_jv_items_ext(a: Seq<Json>, b: Seq<Json>)
    requires
        a.len() == b.len(),
        forall|k: int| 0 <= k < a.len() ==> jv(#[trigger] a[k]) == jv(b[k]),
    ensures
        jv_items(a) == jv_items(b),
{
    lemma_jv_items(a);
    lemma_jv_items(b);
    assert(jv_items(a) =~= jv_items(b));
}

/// Two member lists with the same keys and contents have the same contents.
pub proof fn lemma_jv_fields_ext(a: Seq<(String, Json)>, b: Seq<(String, Json)>)
    requires
        a.len() == b.len(),
        forall|k: int| 0 <= k < a.len() ==> (#[trigger] a[k]).0@ == b[k].0@ && jv(a[k].1) == jv(b[k].1),
    ensures
        jv_fields(a) == jv_fields(b),
{
    lemma_jv_fields(a);
    lemma_jv_fields(b);
    assert(jv_fields(a) =~= jv_fields(b));
}

/// A copy of a document.
pub fn json_clone(j: &Json) -> (r: Json)
    ensures
        jv(r) == jv(*j),
    decreases *j,
{
    match j {
        Json::Null => Json::Null,
        Json::Bool(b) => Json::Bool(*b),
        Json::Number(n) => Json::Number(n.clone()),
        Json::Str(s) => Json::Str(s.clone()),
        Json::Array(items) => {
            let mut out: Vec<Json> = Vec::new();
            let mut k: usize = 0;
            while k < items.len()
                invariant
                    k <= items@.len(),
                    *j is Array,
                    (*j)->Array_0 == *items,
                    out@.len() == k,
                    forall|m: int| 0 <= m < k ==> jv(#[trigger] out@[m]) == jv(items@[m]),
                decreases items@.len() - k,
            {
                proof {
                    assert(decreases_to!(*j => (*j)->Array_0));
                    assert(decreases_to!(*items => items@));
                    assert(decreases_to!(items@ => items@[k as int]));
                    assert(decreases_to!(*j => items@[k as int]));
                }
                let c = json_clone(&items[k]);
                out.push(c);
                k += 1;
            }
            proof {
                lemma_jv_items_ext(out@, items@);
            }
            Json::Array(out)
        },
        Json::Object(fields) => {
            let mut out: Vec<(String, Json)> = Vec::new();
            let mut k: usize = 0;
            while k < fields.len()
                invariant
                    k <= fields@.len(),
                    *j is Object,
                    (*j)->Object_0 == *fields,
                    out@.len() == k,
                    forall|m: int| 0 <= m < k ==> (#[trigger] out@[m]).0@ == fields@[m].0@ && jv(out@[m].1) == jv(fields@[m].1),
                decreases fields@.len() - k,
            {
                proof {
                    assert(decreases_to!(*j => (*j)->Object_0));
                    assert(decreases_to!(*fields => fields@));
                    assert(decreases_to!(fields@ => fields@[k as int]));
                    assert(decreases_to!(fields@[k as int] => fields@[k as int].1));
                    assert(decreases_to!(*j => fields@[k as int].1));
                }
                let c = json_clone(&fields[k].1);
                out.push((fields[k].0.clone(), c));
                k += 1;
            }
            proof {
                lemma_jv_fields_ext(out@, fields@);
            }
            Json::Object(out)
        },
    }
}

/// The position of the first member with a key, or -1.
pub open spec fn member_index(fields: Seq<(Seq<char>, JsonV)>, key: Seq<char>) -> int
    decreases fields.len(),
{
    if fields.len() == 0 {
        -1
    } else {
        let i = member_index(fields.drop_last(), key);
        if i >= 0 {
            i
        } else if fields.last().0 == key {
            fields.len() - 1
        } else {
            -1
        }
    }
}

pub proof fn lemma_member_index(fields: Seq<(Seq<char>, JsonV)>, key: Seq<char>)
    ensures
        -1 <= member_index(fields, key) < fields.len(),
        member_index(fields, key) >= 0 ==> fields[member_index(fields, key)].0 == key,
        forall|m: int| 0 <= m < fields.len() && (m < member_index(fields, key) || member_index(fields, key) == -1) ==> (
        #[trigger] fields[m]).0 != key,
    decreases fields.len(),
{
    if fields.len() > 0 {
        lemma_member_index(fields.drop_last(), key);
        assert forall|m: int| 0 <= m < fields.len() && (m < member_index(fields, key) || member_index(fields, key) == -1) implies (
        #[trigger] fields[m]).0 != key by {
            if m < fields.len() - 1 {
                assert(fields.drop_last()[m] == fields[m]);
            }
        }
    }
}

/// The value of the first member with a key.
pub open spec fn member(fields: Seq<(Seq<char>, JsonV)>, key: Seq<char>) -> Option<JsonV> {
    let i = member_index(fields, key);
    if i >= 0 {
        Some(fields[i].1)
    } else {
        None
    }
}

/// The members with `key` set to `value`: the first member with the key takes the value, or the
/// member is added at the end.
pub open spec fn with_member(fields: Seq<(Seq<char>, JsonV)>, key: Seq<char>, value: JsonV) -> Seq<(Seq<char>, JsonV)> {
    let i = member_index(fields, key);
    if i >= 0 {
        fields.update(i, (key, value))
    } else {
        fields.push((key, value))
    }
}

/// The members with `key` added unless present (`entry(key).or_insert(value)`).
pub open spec fn with_default_member(fields: Seq<(Seq<char>, JsonV)>, key: Seq<char>, value: JsonV) -> Seq<(Seq<char>, JsonV)> {
    if member_index(fields, key) >= 0 {
        fields
    } else {
        fields.push((key, value))
    }
}

/// Where the first member with a key is.
pub fn find_member(fields: &Vec<(String, Json)>, key: &str) -> (r: Option<usize>)
    ensures
        match r {
            Some(i) => i == member_index(jv_fields(fields@), key@) && i < fields@.len(),
            None => member_index(jv_fields(fields@), key@) == -1,
        },
{
    proof {
        lemma_jv_fields(fields@);
        lemma_member_index(jv_fields(fields@), key@);
    }
    let ghost fv = jv_fields(fields@);
    let mut k: usize = 0;
    while k < fields.len()
        invariant
            k <= fields@.len(),
            fv == jv_fields(fields@),
            fv.len() == fields@.len(),
            forall|m: int| 0 <= m < fields@.len() ==> #[trigger] fv[m] == (fields@[m].0@, jv(fields@[m].1)),
            -1 <= member_index(fv, key@) < fv.len(),
            member_index(fv, key@) >= 0 ==> fv[member_index(fv, key@)].0 == key@,
            forall|m: int| 0 <= m < fv.len() && (m < member_index(fv, key@) || member_index(fv, key@) == -1) ==> (#[trigger] fv[m]).0 != key@,
            forall|m: int| 0 <= m < k ==> (#[trigger] fv[m]).0 != key@,
        decreases fields@.len() - k,
    {
        if crate::text::text_eq(fields[k].0.as_str(), key) {
            proof {
                assert(fv[k as int].0 == key@);
            }
            return Some(k);
        }
        proof {
            assert(fv[k as int].0 != key@);
        }
        k += 1;
    }
    None
}

/// The value of the first member with a key.
pub fn get_member<'a>(fields: &'a Vec<(String, Json)>, key: &str) -> (r: Option<&'a Json>)
    ensures
        match r {
            Some(v) => member(jv_fields(fields@), key@) == Some(jv(*v)),
            None => member(jv_fields(fields@), key@) is None,
        },
{
    proof {
        lemma_jv_fields(fields@);
    }
    match find_member(fields, key) {
        Some(i) => Some(&fields[i].1),
        None => None,
    }
}

/// Sets a member.
pub fn set_member(fields: &mut Vec<(String, Json)>, key: String, value: Json)
    ensures
        jv_fields(final(fields)@) == with_member(jv_fields(old(fields)@), key@, jv(value)),
{
    proof {
        lemma_jv_fields(fields@);
    }
    let ghost before = fields@;
    let ghost kv = key@;
    let ghost vv = jv(value);
    match find_member(fields, key.as_str()) {
        Some(i) => {
            fields.set(i, (key, value));
            proof {
                lemma_jv_fields(fields@);
                assert(jv_fields(fields@) =~= jv_fields(before).update(i as int, (kv, vv)));
            }
        },
        None => {
            fields.push((key, value));
            proof {
                lemma_jv_fields(fields@);
                assert(jv_fields(fields@) =~= jv_fields(before).push((kv, vv)));
            }
        },
    }
}

/// Adds a member unless its key is present.
pub fn set_default_member(fields: &mut Vec<(String, Json)>, key: String, value: Json)
    ensures
        jv_fields(final(fields)@) == with_default_member(jv_fields(old(fields)@), key@, jv(value)),
{
    let ghost before = fields@;
    let ghost kv = key@;
    let ghost vv = jv(value);
    match find_member(fields, key.as_str()) {
        Some(_) => {},
        None => {
            fields.push((key, value));
            proof {
                lemma_jv_fields(before);
                lemma_jv_fields(fields@);
                assert(jv_fields(fields@) =~= jv_fields(before).push((kv, vv)));
            }
        },
    }
}

/// A string value.
pub fn jstr(s: &str) -> (r: Json)
    ensures
        jv(r) == JsonV::Str(s@),
{
    Json::Str(crate::text::owned(s))
}

/// The text of a string value.
pub open spec fn as_str_of(j: Option<JsonV>) -> Option<Seq<char>> {
    match j {
        Some(JsonV::Str(s)) => Some(s),
        _ => None,
    }
}

/// The text of a document that is a string.
pub fn json_as_str(j: Option<&Json>) -> (r: Option<&String>)
    ensures
        match r {
            Some(s) => as_str_of(match j { Some(v) => Some(jv(*v)), None => None }) == Some(s@),
            None => as_str_of(match j { Some(v) => Some(jv(*v)), None => None }) is None,
        },
{
    match j {
        Some(Json::Str(s)) => Some(s),
        _ => None,
    }
}

/// A member of a document that is an object (what indexing a JSON value gives, null aside).
pub open spec fn field_of(body: JsonV, key: Seq<char>) -> Option<JsonV> {
    match body {
        JsonV::Object(f) => member(f, key),
        _ => None,
    }
}

/// The text of a member that is a string.
pub open spec fn str_field(body: JsonV, key: Seq<char>) -> Option<Seq<char>> {
    as_str_of(field_of(body, key))
}

/// A member of a document that is an object.
pub fn body_field<'a>(body: &'a Json, key: &str) -> (r: Option<&'a Json>)
    ensures
        match r {
            Some(v) => field_of(jv(*body), key@) == Some(jv(*v)),
            None => field_of(jv(*body), key@) is None,
        },
{
    match body {
        Json::Object(fields) => get_member(fields, key),
        _ => None,
    }
}

/// The text of a member that is a string.
pub fn body_str<'a>(body: &'a Json, key: &str) -> (r: Option<&'a String>)
    ensures
        match r {
            Some(s) => str_field(jv(*body), key@) == Some(s@),
            None => str_field(jv(*body), key@) is None,
        },
{
    json_as_str(body_field(body, key))
}

} // verus!
