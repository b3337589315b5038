//! Cards shown by a demo flow, and the summary the demo prints of one.
use vstd::prelude::*;
use crate::operator_i18n::{filled, translated, tr_for_locale, trf};
use crate::text::{concat2, texts};
use crate::textmap::TextMap;

verus! {

/// An input field of a card.
#[derive(Clone, Debug)]
pub struct CardInput {
    pub id: String,
    pub label: Option<String>,
    pub input_type: Option<String>,
    pub placeholder: Option<String>,
}

/// An action of a card.
#[derive(Clone, Debug)]
pub struct CardAction {
    pub id: String,
    pub title: Option<String>,
    pub action_type: Option<String>,
}

/// A card as the demo shows it.
#[derive(Clone, Debug)]
pub struct CardView {
    pub version: Option<String>,
    pub title: Option<String>,
    pub summary_text: Option<String>,
    pub body_texts: Vec<String>,
    pub inputs: Vec<CardInput>,
    pub actions: Vec<CardAction>,
}

/// The first text that is set, else the fallback.
pub open spec fn or_text(a: Option<String>, b: Option<String>, fallback: Seq<char>) -> Seq<char> {
    match a {
        Some(x) => x@,
        None => match b {
            Some(y) => y@,
            None => fallback,
        },
    }
}

/// The lines printed for an input.
pub open spec fn input_lines(i: CardInput, catalog: Option<TextMap<String>>) -> Seq<Seq<char>> {
    let label = or_text(i.label, None, i.id@);
    let kind = or_text(i.input_type, None, translated("demo.card.input"@, "input"@, catalog));
    let line = filled(
        translated("demo.card.input_line"@, "    - {} (id={}: type={})"@, catalog),
        seq![label, i.id@, kind],
    );
    match i.placeholder {
        Some(p) => seq![line, filled(translated("demo.card.placeholder"@, "      placeholder: {}"@, catalog), seq![p@])],
        None => seq![line],
    }
}

/// The line printed for an action.
pub open spec fn action_line(a: CardAction, catalog: Option<TextMap<String>>) -> Seq<char> {
    let title = or_text(a.title, None, a.id@);
    let kind = or_text(a.action_type, None, translated("demo.card.action"@, "action"@, catalog));
    filled(translated("demo.card.action_line"@, "    - {} (id={}: type={})"@, catalog), seq![title, a.id@, kind])
}

pub open spec fn all_input_lines(inputs: Seq<CardInput>, catalog: Option<TextMap<String>>) -> Seq<Seq<char>>
    decreases inputs.len(),
{
    if inputs.len() == 0 {
        Seq::empty()
    } else {
        all_input_lines(inputs.drop_last(), catalog) + input_lines(inputs.last(), catalog)
    }
}

/// A section printed only when it has items: its header, then the items.
pub open spec fn optional_section(header: Seq<char>, items: Seq<Seq<char>>) -> Seq<Seq<char>> {
    if items.len() == 0 {
        Seq::empty()
    } else {
        seq![header] + items
    }
}

/// Prefixing a line with four spaces.
pub open spec fn body_line() -> spec_fn(Seq<char>) -> Seq<char> {
    |t: Seq<char>| "    "@ + t
}

/// Everything the demo prints for a card, translated with `catalog`.
pub open spec fn card_summary(view: CardView, catalog: Option<TextMap<String>>) -> Seq<Seq<char>> {
    let summary = or_text(view.summary_text, view.title, translated("demo.card.adaptive_card"@, "Adaptive card"@, catalog));
    seq![filled(translated("demo.card.received"@, "Card received: {}"@, catalog), seq![summary])]
        + optional_section(translated("demo.card.body"@, "  body:"@, catalog), texts(view.body_texts@).map_values(body_line()))
        + (if view.inputs@.len() == 0 {
            Seq::empty()
        } else {
            seq![translated("demo.card.inputs"@, "  inputs:"@, catalog)] + all_input_lines(view.inputs@, catalog)
        })
        + optional_section(
            translated("demo.card.actions"@, "  actions:"@, catalog),
            view.actions@.map_values(|a: CardAction| action_line(a, catalog)),
        )
        + seq![translated(
            "demo.card.hint"@,
            "Hint: @input <field>=<value> to set inputs, @click <action_id> to submit, @show to revisit the card, @json to view raw payload."@,
            catalog,
        )]
}

fn text_or(a: &Option<String>, b: &Option<String>, fallback: String) -> (r: String)
    ensures
        r@ == or_text(*a, *b, fallback@),
{
    match a {
        Some(x) => x.clone(),
        None => match b {
            Some(y) => y.clone(),
            None => fallback,
        },
    }
}

fn one(s: String) -> (r: Vec<String>)
    ensures
        texts(r@) == seq![s@],
{
    let mut v: Vec<String> = Vec::new();
    v.push(s);
    proof {
        assert(texts(v@) =~= seq![s@]);
    }
    v
}

fn three(a: String, b: String, c: String) -> (r: Vec<String>)
    ensures
        texts(r@) == seq![a@, b@, c@],
{
    let mut v: Vec<String> = Vec::new();
    v.push(a);
    v.push(b);
    v.push(c);
    proof {
        assert(texts(v@) =~= seq![a@, b@, c@]);
    }
    v
}

/// The lines the demo prints for a card (see `card_summary`), with the catalog of the current
/// locale (None when it could not be loaded).
pub fn card_summary_lines(view: &CardView, catalog: &Option<TextMap<String>>) -> (r: Vec<String>)
    ensures
        texts(r@) == card_summary(*view, *catalog),
{
    let mut out: Vec<String> = Vec::new();
    let fallback = tr_for_locale("demo.card.adaptive_card", "Adaptive card", catalog);
    let summary = text_or(&view.summary_text, &view.title, fallback);
    out.push(trf("demo.card.received", "Card received: {}", &one(summary), catalog));
    proof {
        assert(texts(out@) =~= seq![filled(
            translated("demo.card.received"@, "Card received: {}"@, *catalog),
            seq![or_text(view.summary_text, view.title, translated("demo.card.adaptive_card"@, "Adaptive card"@, *catalog))],
        )]);
    }
    let ghost part0 = texts(out@);
    if view.body_texts.len() > 0 {
        out.push(tr_for_locale("demo.card.body", "  body:", catalog));
        let mut i: usize = 0;
        let ghost head = texts(out@);
        while i < view.body_texts.len()
            invariant
                i <= view.body_texts@.len(),
                texts(out@) == head + texts(view.body_texts@).take(i as int).map_values(body_line()),
            decreases view.body_texts@.len() - i,
        {
            let ghost before = out@;
            out.push(concat2("    ", view.body_texts[i].as_str()));
            proof {
                assert(texts(view.body_texts@).take(i + 1) =~= texts(view.body_texts@).take(i as int).push(view.body_texts@[i as int]@));
                assert(texts(out@) =~= texts(before).push("    "@ + view.body_texts@[i as int]@));
            }
            i += 1;
        }
        proof {
            assert(texts(view.body_texts@).take(i as int) =~= texts(view.body_texts@));
        }
    }
    let ghost part1 = texts(out@);
    proof {
        assert(part1 =~= part0 + optional_section(
            translated("demo.card.body"@, "  body:"@, *catalog),
            texts(view.body_texts@).map_values(body_line()),
        ));
    }
    if view.inputs.len() > 0 {
        out.push(tr_for_locale("demo.card.inputs", "  inputs:", catalog));
        let ghost head = texts(out@);
        let mut i: usize = 0;
        proof {
            assert(view.inputs@.take(0) =~= Seq::<CardInput>::empty());
        }
        while i < view.inputs.len()
            invariant
                i <= view.inputs@.len(),
                texts(out@) == head + all_input_lines(view.inputs@.take(i as int), *catalog),
            decreases view.inputs@.len() - i,
        {
            let input = &view.inputs[i];
            let ghost before = texts(out@);
            let label = text_or(&input.label, &None, input.id.clone());
            let kind_fallback = tr_for_locale("demo.card.input", "input", catalog);
            let kind = text_or(&input.input_type, &None, kind_fallback);
            let args = three(label, input.id.clone(), kind);
            out.push(trf("demo.card.input_line", "    - {} (id={}: type={})", &args, catalog));
            match &input.placeholder {
                Some(p) => {
                    out.push(trf("demo.card.placeholder", "      placeholder: {}", &one(p.clone()), catalog));
                },
                None => {},
            }
            proof {
                assert(view.inputs@.take(i + 1).drop_last() =~= view.inputs@.take(i as int));
                assert(texts(out@) =~= before + input_lines(*input, *catalog));
            }
            i += 1;
        }
        proof {
            assert(view.inputs@.take(i as int) =~= view.inputs@);
        }
    }
    let ghost part2 = texts(out@);
    proof {
        assert(part2 =~= part1 + (if view.inputs@.len() == 0 {
            Seq::empty()
        } else {
            seq![translated("demo.card.inputs"@, "  inputs:"@, *catalog)] + all_input_lines(view.inputs@, *catalog)
        }));
    }
    if view.actions.len() > 0 {
        out.push(tr_for_locale("demo.card.actions", "  actions:", catalog));
        let ghost head = texts(out@);
        let mut i: usize = 0;
        while i < view.actions.len()
            invariant
                i <= view.actions@.len(),
                texts(out@) == head + view.actions@.take(i as int).map_values(|a: CardAction| action_line(a, *catalog)),
            decreases view.actions@.len() - i,
        {
            let action = &view.actions[i];
            let ghost before = out@;
            let title = text_or(&action.title, &None, action.id.clone());
            let kind_fallback = tr_for_locale("demo.card.action", "action", catalog);
            let kind = text_or(&action.action_type, &None, kind_fallback);
            let args = three(title, action.id.clone(), kind);
            let line = trf("demo.card.action_line", "    - {} (id={}: type={})", &args, catalog);
            out.push(line);
            proof {
                assert(view.actions@.take(i + 1) =~= view.actions@.take(i as int).push(*action));
                assert(texts(out@) =~= texts(before).push(action_line(*action, *catalog)));
            }
            i += 1;
        }
        proof {
            assert(view.actions@.take(i as int) =~= view.actions@);
        }
    }
    let ghost part3 = texts(out@);
    proof {
        assert(part3 =~= part2 + optional_section(
            translated("demo.card.actions"@, "  actions:"@, *catalog),
            view.actions@.map_values(|a: CardAction| action_line(a, *catalog)),
        ));
    }
    out.push(tr_for_locale(
        "demo.card.hint",
        "Hint: @input <field>=<value> to set inputs, @click <action_id> to submit, @show to revisit the card, @json to view raw payload.",
        catalog,
    ));
    proof {
        assert(texts(out@) =~= card_summary(*view, *catalog));
    }
    out
}

} // verus!
