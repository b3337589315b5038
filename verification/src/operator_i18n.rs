//! Translations of the operator's command-line messages.
use vstd::prelude::*;
use crate::text::{concat2, owned, replace_first, text_eq, text_replace_first, text_trim, texts, trimmed};
use crate::textmap::TextMap;
use crate::demo::input::{json_parsed, parse_json};
use crate::json::{Json, JsonV, jv, jv_fields, lemma_jv_fields};
use crate::onboard::wizard::text_values;

verus! {

/// The locale taken from the environment: the first of `LC_ALL`, `LC_MESSAGES` and `LANG`
/// that is set, unless it is blank, `C` or `POSIX` (then none, whatever the others hold).
pub open spec fn env_locale_of(lc_all: Option<Seq<char>>, lc_messages: Option<Seq<char>>, lang: Option<Seq<char>>) -> Option<
    Seq<char>,
> {
    let first = match lc_all {
        Some(v) => Some(v),
        None => match lc_messages {
            Some(v) => Some(v),
            None => lang,
        },
    };
    match first {
        Some(v) => if trimmed(v).len() > 0 && trimmed(v) != "C"@ && trimmed(v) != "POSIX"@ {
            Some(v)
        } else {
            None
        },
        None => None,
    }
}

/// The locale the environment asks for (see `env_locale_of`).
pub fn env_locale(lc_all: Option<String>, lc_messages: Option<String>, lang: Option<String>) -> (r: Option<String>)
    ensures
        crate::text::opt_text(r) == env_locale_of(
            crate::text::opt_text(lc_all),
            crate::text::opt_text(lc_messages),
            crate::text::opt_text(lang),
        ),
{
    let first = match lc_all {
        Some(v) => Some(v),
        None => match lc_messages {
            Some(v) => Some(v),
            None => lang,
        },
    };
    match first {
        Some(v) => {
            let t = text_trim(v.as_str());
            if t.as_str().unicode_len() > 0 && !text_eq(t.as_str(), "C") && !text_eq(t.as_str(), "POSIX") {
                Some(v)
            } else {
                None
            }
        },
        None => None,
    }
}

/// The sequence without later repetitions: each element kept where it first occurs.
pub open spec fn first_occurrences(s: Seq<Seq<char>>) -> Seq<Seq<char>>
    decreases s.len(),
{
    if s.len() == 0 {
        s
    } else {
        let r = first_occurrences(s.drop_last());
        if r.contains(s.last()) {
            r
        } else {
            r.push(s.last())
        }
    }
}

proof fn lemma_first_occurrences_first(s: Seq<Seq<char>>)
    requires
        s.len() > 0,
    ensures
        first_occurrences(s).len() > 0,
        first_occurrences(s)[0] == s[0],
    decreases s.len(),
{
    if s.len() == 1 {
        assert(s.drop_last() =~= Seq::<Seq<char>>::empty());
        assert(first_occurrences(s.drop_last()) == Seq::<Seq<char>>::empty());
    } else {
        lemma_first_occurrences_first(s.drop_last());
    }
}

proof fn lemma_first_occurrences_keeps(s: Seq<Seq<char>>, x: Seq<char>)
    requires
        s.contains(x),
    ensures
        first_occurrences(s).contains(x),
    decreases s.len(),
{
    let r = first_occurrences(s.drop_last());
    if s.last() == x {
        if !r.contains(x) {
            assert(first_occurrences(s) == r.push(x));
            assert(r.push(x)[r.len() as int] == x);
        }
    } else {
        let k = choose|k: int| 0 <= k < s.len() && s[k] == x;
        assert(s.drop_last()[k] == x);
        lemma_first_occurrences_keeps(s.drop_last(), x);
        if !r.contains(s.last()) {
            let j = choose|j: int| 0 <= j < r.len() && r[j] == x;
            assert(r.push(s.last())[j] == x);
        }
    }
}

/// The catalog files tried for a locale, in order: the locale as given (trimmed), its
/// normalized form `primary`, then English; each once.
pub open spec fn candidate_files(locale: Seq<char>, primary: Seq<char>) -> Seq<Seq<char>> {
    let t = trimmed(locale);
    let asked = if t.len() == 0 {
        Seq::<Seq<char>>::empty()
    } else {
        seq![t + ".json"@, primary + ".json"@]
    };
    first_occurrences(asked.push("en.json"@))
}

fn push_candidate(out: &mut Vec<String>, candidate: String)
    ensures
        texts(final(out)@) == if texts(old(out)@).contains(candidate@) {
            texts(old(out)@)
        } else {
            texts(old(out)@).push(candidate@)
        },
{
    let mut i: usize = 0;
    while i < out.len()
        invariant
            i <= out@.len(),
            forall|k: int| 0 <= k < i ==> out@[k]@ != candidate@,
        decreases out@.len() - i,
    {
        if text_eq(out[i].as_str(), candidate.as_str()) {
            proof {
                assert(texts(out@)[i as int] == candidate@);
            }
            return;
        }
        i += 1;
    }
    proof {
        if texts(out@).contains(candidate@) {
            let k = choose|k: int| 0 <= k < texts(out@).len() && texts(out@)[k] == candidate@;
            assert(out@[k]@ == candidate@);
        }
    }
    let ghost before = out@;
    out.push(candidate);
    proof {
        assert(texts(out@) =~= texts(before).push(candidate@));
    }
}

/// The catalog files tried for `locale`, given `primary`, the normalized form of the trimmed
/// locale (see `candidate_files`).
pub fn locale_candidates(locale: &str, primary: &str) -> (r: Vec<String>)
    ensures
        texts(r@) == candidate_files(locale@, primary@),
{
    let mut out: Vec<String> = Vec::new();
    let t = text_trim(locale);
    let ghost asked = if t@.len() == 0 {
        Seq::<Seq<char>>::empty()
    } else {
        seq![t@ + ".json"@, primary@ + ".json"@]
    };
    if t.as_str().unicode_len() > 0 {
        push_candidate(&mut out, concat2(t.as_str(), ".json"));
        proof {
            assert(first_occurrences(seq![t@ + ".json"@]) =~= seq![t@ + ".json"@]) by {
                assert(seq![t@ + ".json"@].drop_last() =~= Seq::<Seq<char>>::empty());
                assert(first_occurrences(Seq::<Seq<char>>::empty()) == Seq::<Seq<char>>::empty());
            }
            assert(texts(out@) =~= seq![t@ + ".json"@]);
        }
        push_candidate(&mut out, concat2(primary, ".json"));
        proof {
            assert(asked.drop_last() =~= seq![t@ + ".json"@]);
            assert(texts(out@) == first_occurrences(asked));
        }
    } else {
        proof {
            assert(first_occurrences(Seq::<Seq<char>>::empty()) == Seq::<Seq<char>>::empty());
            assert(texts(out@) =~= first_occurrences(asked));
        }
    }
    push_candidate(&mut out, owned("en.json"));
    proof {
        assert(asked.push("en.json"@).drop_last() =~= asked);
    }
    out
}

/// A message: the catalog's text for the key, else the fallback; the fallback too when no
/// catalog could be loaded.
pub open spec fn translated(key: Seq<char>, fallback: Seq<char>, catalog: Option<TextMap<String>>) -> Seq<char> {
    match catalog {
        Some(m) => if m@.contains_key(key) {
            m@[key]@
        } else {
            fallback
        },
        None => fallback,
    }
}

/// The message for `key` in a locale's catalog (None when it could not be loaded).
pub fn tr_for_locale(key: &str, fallback: &str, catalog: &Option<TextMap<String>>) -> (r: String)
    ensures
        r@ == translated(key@, fallback@, *catalog),
{
    match catalog {
        Some(map) => match map.get(key) {
            Some(text) => text.clone(),
            None => owned(fallback),
        },
        None => owned(fallback),
    }
}

/// The operator's locale and the message catalog loaded for it (None when it could not be
/// loaded).
#[derive(Debug)]
pub struct LocaleState {
    pub locale: String,
    pub catalog: Option<TextMap<String>>,
}

impl LocaleState {
    /// English, before any catalog is loaded.
    pub fn new() -> (r: Self)
        ensures
            r.locale@ == "en"@,
            r.catalog is None,
    {
        LocaleState { locale: owned("en"), catalog: None }
    }
}

/// Switches to a locale (already normalized) and its catalog.
pub fn set_locale(state: &mut LocaleState, normalized: String, catalog: Option<TextMap<String>>)
    ensures
        final(state).locale == normalized,
        final(state).catalog == catalog,
{
    state.locale = normalized;
    state.catalog = catalog;
}

/// The current locale.
pub fn current_locale(state: &LocaleState) -> (r: String)
    ensures
        r@ == state.locale@,
{
    state.locale.clone()
}

/// The message for `key` in the current locale.
pub fn tr(state: &LocaleState, key: &str, fallback: &str) -> (r: String)
    ensures
        r@ == translated(key@, fallback@, state.catalog),
{
    tr_for_locale(key, fallback, &state.catalog)
}

/// A template with its `{}` placeholders filled in order, one argument each.
pub open spec fn filled(template: Seq<char>, args: Seq<Seq<char>>) -> Seq<char>
    decreases args.len(),
{
    if args.len() == 0 {
        template
    } else {
        replace_first(filled(template, args.drop_last()), "{}"@, args.last())
    }
}

/// The message for `key` with its placeholders filled by `args`.
pub fn trf(key: &str, fallback: &str, args: &Vec<String>, catalog: &Option<TextMap<String>>) -> (r: String)
    ensures
        r@ == filled(translated(key@, fallback@, *catalog), texts(args@)),
{
    let mut rendered = tr_for_locale(key, fallback, catalog);
    let ghost template = rendered@;
    let mut i: usize = 0;
    proof {
        assert(texts(args@).take(0) =~= Seq::<Seq<char>>::empty());
    }
    while i < args.len()
        invariant
            i <= args@.len(),
            rendered@ == filled(template, texts(args@).take(i as int)),
        decreases args@.len() - i,
    {
        rendered = text_replace_first(rendered.as_str(), "{}", args[i].as_str());
        proof {
            assert(texts(args@).take(i + 1).drop_last() =~= texts(args@).take(i as int));
        }
        i += 1;
    }
    proof {
        assert(texts(args@).take(i as int) =~= texts(args@));
    }
    rendered
}


/// English is always tried: whatever the locale, the candidates include `en.json`, after the
/// requested locale's own file when one was asked for.
pub proof fn law_english_is_always_a_candidate(locale: Seq<char>, primary: Seq<char>)
    ensures
        candidate_files(locale, primary).contains("en.json"@),
        trimmed(locale).len() > 0 ==> candidate_files(locale, primary)[0] == trimmed(locale) + ".json"@,
{
    let t = trimmed(locale);
    let asked = if t.len() == 0 {
        Seq::<Seq<char>>::empty()
    } else {
        seq![t + ".json"@, primary + ".json"@]
    };
    let all = asked.push("en.json"@);
    assert(all[all.len() - 1] == "en.json"@);
    lemma_first_occurrences_keeps(all, "en.json"@);
    if t.len() > 0 {
        lemma_first_occurrences_first(all);
    }
}

/// The string members of an object, set in turn (a later member with the same key wins), or
/// none when a member is not a string.
pub open spec fn string_members(f: Seq<(Seq<char>, JsonV)>) -> Option<Map<Seq<char>, Seq<char>>>
    decreases f.len(),
{
    if f.len() == 0 {
        Some(Map::empty())
    } else {
        match (string_members(f.drop_last()), f.last().1) {
            (Some(m), JsonV::Str(v)) => Some(m.insert(f.last().0, v)),
            _ => None,
        }
    }
}

/// The message of a catalog that is JSON but not an object of strings.
pub open spec fn not_a_catalog() -> Seq<char> {
    "expected a map of strings"@
}

/// The catalog a text holds: the JSON object of strings it parses to, as a map; the parser's
/// message when it is not JSON; `not_a_catalog` when it is JSON of another shape.
pub open spec fn catalog_of(text: Seq<char>) -> Result<Map<Seq<char>, Seq<char>>, Seq<char>> {
    match json_parsed(text) {
        Err(e) => Err(e),
        Ok(JsonV::Object(f)) => match string_members(f) {
            Some(m) => Ok(m),
            None => Err(not_a_catalog()),
        },
        Ok(_) => Err(not_a_catalog()),
    }
}

/// Reads a catalog file's text (see `catalog_of`).
pub fn catalog_from_text(text: &str) -> (r: Result<TextMap<String>, String>)
    ensures
        match catalog_of(text@) {
            Ok(m) => r matches Ok(c) && text_values(c@) == m,
            Err(e) => r matches Err(x) && x@ == e,
        },
{
    let doc = match parse_json(text) {
        Ok(d) => d,
        Err(e) => return Err(e),
    };
    let members = match doc {
        Json::Object(members) => members,
        _ => return Err(owned("expected a map of strings")),
    };
    let ghost mv = jv_fields(members@);
    let mut out: TextMap<String> = TextMap::new();
    proof {
        lemma_jv_fields(members@);
        assert(mv.take(0) =~= Seq::<(Seq<char>, JsonV)>::empty());
        assert(text_values(out@) =~= Map::<Seq<char>, Seq<char>>::empty());
    }
    let mut i: usize = 0;
    while i < members.len()
        invariant
            i <= members@.len(),
            mv == jv_fields(members@),
            mv.len() == members@.len(),
            forall|k: int| 0 <= k < members@.len() ==> #[trigger] mv[k] == (members@[k].0@, jv(members@[k].1)),
            string_members(mv.take(i as int)) == Some(text_values(out@)),
            json_parsed(text@) == Ok::<JsonV, Seq<char>>(JsonV::Object(mv)),
        decreases members@.len() - i,
    {
        proof {
            assert(mv.take(i + 1).drop_last() =~= mv.take(i as int));
        }
        match &members[i].1 {
            Json::Str(v) => {
                let ghost before = out@;
                out.insert(members[i].0.clone(), v.clone());
                proof {
                    assert(text_values(out@) =~= text_values(before).insert(members@[i as int].0@, v@));
                }
            },
            _ => {
                proof {
                    assert(string_members(mv.take(i + 1)) is None);
                    lemma_string_members_stays_none(mv, i as int + 1);
                    assert(mv.take(mv.len() as int) =~= mv);
                }
                return Err(owned("expected a map of strings"));
            },
        }
        i += 1;
    }
    proof {
        assert(mv.take(i as int) =~= mv);
    }
    Ok(out)
}

proof fn lemma_string_members_stays_none(f: Seq<(Seq<char>, JsonV)>, n: int)
    requires
        0 <= n <= f.len(),
        string_members(f.take(n)) is None,
    ensures
        string_members(f) is None,
    decreases f.len() - n,
{
    if n < f.len() {
        assert(f.take(n + 1).drop_last() =~= f.take(n));
        lemma_string_members_stays_none(f, n + 1);
    } else {
        assert(f.take(n) =~= f);
    }
}

/// The first of some file names that a set of files holds.
pub open spec fn first_held(names: Seq<Seq<char>>, files: Map<Seq<char>, String>) -> Option<Seq<char>>
    decreases names.len(),
{
    if names.len() == 0 {
        None
    } else if files.contains_key(names[0]) {
        Some(names[0])
    } else {
        first_held(names.drop_first(), files)
    }
}

/// The catalog loaded for a locale from the catalog files, by name: that of the first
/// candidate file (see `candidate_files`) present, with its name in the message when it is not
/// a catalog; the empty catalog when none is present.
pub open spec fn loaded_catalog(locale: Seq<char>, primary: Seq<char>, files: Map<Seq<char>, String>) -> Result<
    Map<Seq<char>, Seq<char>>,
    Seq<char>,
> {
    match first_held(candidate_files(locale, primary), files) {
        None => Ok(Map::empty()),
        Some(name) => match catalog_of(files[name]@) {
            Ok(m) => Ok(m),
            Err(e) => Err("parse embedded operator cli i18n map "@ + name + ": "@ + e),
        },
    }
}

/// Loads the catalog of a locale from the catalog files (see `loaded_catalog`); `primary` is
/// the normalized locale.
pub fn load_cli(locale: &str, primary: &str, files: &TextMap<String>) -> (r: Result<TextMap<String>, String>)
    ensures
        match loaded_catalog(locale@, primary@, files@) {
            Ok(m) => r matches Ok(c) && text_values(c@) == m,
            Err(e) => r matches Err(x) && x@ == e,
        },
{
    let candidates = locale_candidates(locale, primary);
    let ghost names = texts(candidates@);
    assert(names.skip(0) =~= names);
    let mut i: usize = 0;
    while i < candidates.len()
        invariant
            i <= candidates@.len(),
            names == texts(candidates@),
            names == candidate_files(locale@, primary@),
            first_held(names, files@) == first_held(names.skip(i as int), files@),
        decreases candidates@.len() - i,
    {
        let name = &candidates[i];
        proof {
            assert(names.skip(i as int)[0] == name@);
            assert(names.skip(i as int).drop_first() =~= names.skip(i + 1));
        }
        match files.get(name.as_str()) {
            Some(text) => {
                return match catalog_from_text(text.as_str()) {
                    Ok(c) => Ok(c),
                    Err(e) => {
                        let head = concat2("parse embedded operator cli i18n map ", name.as_str());
                        let head2 = concat2(head.as_str(), ": ");
                        Err(concat2(head2.as_str(), e.as_str()))
                    },
                };
            },
            None => {},
        }
        i += 1;
    }
    proof {
        assert(names.skip(i as int) =~= Seq::<Seq<char>>::empty());
    }
    let out: TextMap<String> = TextMap::new();
    proof {
        assert(text_values(out@) =~= Map::<Seq<char>, Seq<char>>::empty());
    }
    Ok(out)
}

} // verus!
