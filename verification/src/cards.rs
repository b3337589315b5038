//! Finding the card in a provider payload, so that it can be rendered before the payload is
//! handed to the provider.
use vstd::prelude::*;
use crate::json::{Json, JsonV, body_field, field_of, find_member, jv, json_clone, member, set_member, with_member};
use crate::text::owned;
use crate::demo::input::{json_parsed, parse_json};

verus! {

/// Where a card may be, in order of preference.
pub open spec fn card_paths() -> Seq<Seq<Seq<char>>> {
    seq![seq!["message_card"@], seq!["card"@], seq!["payload"@, "message_card"@], seq!["payload"@, "card"@]]
}

/// The value at a path of object members.
pub open spec fn at_path(j: JsonV, path: Seq<Seq<char>>) -> Option<JsonV>
    decreases path.len(),
{
    if path.len() == 0 {
        Some(j)
    } else {
        match field_of(j, path[0]) {
            Some(v) => at_path(v, path.drop_first()),
            None => None,
        }
    }
}

/// Whether an object is at a path.
pub open spec fn has_object_at(j: JsonV, path: Seq<Seq<char>>) -> bool {
    match at_path(j, path) {
        Some(JsonV::Object(_)) => true,
        _ => false,
    }
}

/// The first of the card paths at which the payload holds an object.
pub open spec fn card_path(j: JsonV) -> Option<int> {
    if has_object_at(j, card_paths()[0]) {
        Some(0)
    } else if has_object_at(j, card_paths()[1]) {
        Some(1)
    } else if has_object_at(j, card_paths()[2]) {
        Some(2)
    } else if has_object_at(j, card_paths()[3]) {
        Some(3)
    } else {
        None
    }
}

/// The value at a path with `v` put in its place, the objects on the way keeping their other
/// members.
pub open spec fn replaced_at(j: JsonV, path: Seq<Seq<char>>, v: JsonV) -> JsonV
    decreases path.len(),
{
    if path.len() == 0 {
        v
    } else {
        match j {
            JsonV::Object(f) => match member(f, path[0]) {
                Some(c) => JsonV::Object(with_member(f, path[0], replaced_at(c, path.drop_first(), v))),
                None => j,
            },
            _ => j,
        }
    }
}

fn object_at1(j: &Json, k1: &str) -> (r: bool)
    ensures
        r == has_object_at(jv(*j), seq![k1@]),
{
    proof {
        reveal_with_fuel(at_path, 2);
        assert(seq![k1@].drop_first() =~= Seq::<Seq<char>>::empty());
    }
    match body_field(j, k1) {
        Some(Json::Object(_)) => true,
        _ => false,
    }
}

fn object_at2(j: &Json, k1: &str, k2: &str) -> (r: bool)
    ensures
        r == has_object_at(jv(*j), seq![k1@, k2@]),
{
    proof {
        reveal_with_fuel(at_path, 3);
        assert(seq![k1@, k2@].drop_first() =~= seq![k2@]);
        assert(seq![k2@].drop_first() =~= Seq::<Seq<char>>::empty());
    }
    match body_field(j, k1) {
        Some(inner) => match body_field(inner, k2) {
            Some(Json::Object(_)) => true,
            _ => false,
        },
        None => false,
    }
}

/// Where the card of a payload is (see `card_path`): an index into the card paths.
pub fn find_card_path(payload: &Json) -> (r: Option<usize>)
    ensures
        match r {
            Some(i) => card_path(jv(*payload)) == Some(i as int),
            None => card_path(jv(*payload)) is None,
        },
{
    if object_at1(payload, "message_card") {
        Some(0)
    } else if object_at1(payload, "card") {
        Some(1)
    } else if object_at2(payload, "payload", "message_card") {
        Some(2)
    } else if object_at2(payload, "payload", "card") {
        Some(3)
    } else {
        None
    }
}

fn replace_member(j: Json, key: &str, v: Json) -> (r: Json)
    ensures
        jv(r) == replaced_at(jv(j), seq![key@], jv(v)),
{
    proof {
        reveal_with_fuel(replaced_at, 2);
        assert(seq![key@].drop_first() =~= Seq::<Seq<char>>::empty());
    }
    match j {
        Json::Object(mut f) => {
            match find_member(&f, key) {
                Some(_) => {
                    set_member(&mut f, owned(key), v);
                    Json::Object(f)
                },
                None => Json::Object(f),
            }
        },
        other => other,
    }
}

/// The payload with the card at one of the card paths replaced by the rendered one.
pub fn replace_card(payload: Json, path: usize, card: Json) -> (r: Json)
    requires
        path < 4,
    ensures
        jv(r) == replaced_at(jv(payload), card_paths()[path as int], jv(card)),
{
    proof {
        reveal_with_fuel(replaced_at, 3);
    }
    if path == 0 {
        replace_member(payload, "message_card", card)
    } else if path == 1 {
        replace_member(payload, "card", card)
    } else {
        let key = if path == 2 { "message_card" } else { "card" };
        proof {
            assert(card_paths()[path as int] =~= seq!["payload"@, key@]);
            assert(seq!["payload"@, key@].drop_first() =~= seq![key@]);
        }
        match payload {
            Json::Object(mut f) => {
                let inner = match crate::json::get_member(&f, "payload") {
                    Some(inner) => Some(json_clone(inner)),
                    None => None,
                };
                match inner {
                    Some(inner) => {
                        let replaced = replace_member(inner, key, card);
                        set_member(&mut f, owned("payload"), replaced);
                        Json::Object(f)
                    },
                    None => Json::Object(f),
                }
            },
            other => other,
        }
    }
}

/// The card of a payload at a card path.
pub fn card_at(payload: &Json, path: usize) -> (r: Option<&Json>)
    requires
        path < 4,
    ensures
        match r {
            Some(c) => at_path(jv(*payload), card_paths()[path as int]) == Some(jv(*c)),
            None => at_path(jv(*payload), card_paths()[path as int]) is None,
        },
{
    proof {
        reveal_with_fuel(at_path, 3);
    }
    if path < 2 {
        let key = if path == 0 { "message_card" } else { "card" };
        proof {
            assert(card_paths()[path as int] =~= seq![key@]);
            assert(seq![key@].drop_first() =~= Seq::<Seq<char>>::empty());
        }
        body_field(payload, key)
    } else {
        let key = if path == 2 { "message_card" } else { "card" };
        proof {
            assert(card_paths()[path as int] =~= seq!["payload"@, key@]);
            assert(seq!["payload"@, key@].drop_first() =~= seq![key@]);
            assert(seq![key@].drop_first() =~= Seq::<Seq<char>>::empty());
        }
        match body_field(payload, "payload") {
            Some(inner) => body_field(inner, key),
            None => None,
        }
    }
}

/// What a raw payload gives to render: the JSON document it parses to and where its card is;
/// none when it is not JSON or holds no card, and then the payload goes on unchanged.
pub open spec fn card_target(payload: Seq<char>) -> Option<(JsonV, int)> {
    match json_parsed(payload) {
        Err(_) => None,
        Ok(v) => match card_path(v) {
            Some(i) => Some((v, i)),
            None => None,
        },
    }
}

/// Parses a raw payload and finds its card (see `card_target`).
pub fn card_to_render(payload: &str) -> (r: Option<(Json, usize)>)
    ensures
        match card_target(payload@) {
            None => r is None,
            Some((v, i)) => r matches Some((j, k)) && jv(j) == v && k == i,
        },
{
    let doc = match parse_json(payload) {
        Ok(d) => d,
        Err(_) => return None,
    };
    match find_card_path(&doc) {
        Some(i) => Some((doc, i)),
        None => None,
    }
}

} // verus!
