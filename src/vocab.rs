//! The primary dictionary: a short and a long overview, then definitions with
//! their part of speech and examples. The page must echo the queried word.
use vstd::prelude::*;
use crate::dom::{find_first, first_match, matches_in, refs_to, select_all, Element, Node, Selector, SelectorView};
use crate::macmillan::one_line;
use crate::model::{definition_views, texts, Definition, DefinitionView};
use crate::render::{plain_policy, policy_of, render, rendered, Policy, PolicyView};
use crate::text::{chars_of, replace_str, same_text, string_of};

verus! {

/// How the overviews are rendered.
pub open spec fn overview_policy() -> PolicyView {
    policy_of(seq!["i"@], seq![], true)
}

/// The rendered overview with class `class` under the word area, where it is
/// there and not empty.
pub open spec fn overview_of(wa: Element, class: Seq<char>) -> Option<Seq<char>> {
    match first_match(wa.children@, SelectorView::Class(class)) {
        None => None,
        Some(e) => {
            let t = rendered(e.children@, overview_policy());
            if t.len() > 0 {
                Some(t)
            } else {
                None
            }
        },
    }
}

/// The definition of one list item: `None` where it lacks `.definition` or
/// its `.pos-icon`.
pub open spec fn item_definition(item: Element) -> Option<DefinitionView> {
    match first_match(item.children@, SelectorView::Class("definition"@)) {
        None => None,
        Some(da) => match first_match(da.children@, SelectorView::Class("pos-icon"@)) {
            None => None,
            Some(pi) => Some(
                DefinitionView {
                    part_of_speech: rendered(pi.children@, plain_policy()),
                    meaning: rendered(da.children@, plain_policy()),
                    examples: matches_in(item.children@, SelectorView::Class("example"@)).map_values(
                        |e: Element| one_line(rendered(e.children@, plain_policy())),
                    ),
                },
            ),
        },
    }
}

/// The definitions of the list items `items`: `None` where one item fails.
pub open spec fn item_definitions(items: Seq<Element>) -> Option<Seq<DefinitionView>>
    decreases items.len(),
{
    if items.len() == 0 {
        Some(seq![])
    } else {
        match (item_definitions(items.drop_last()), item_definition(items.last())) {
            (Some(ds), Some(d)) => Some(ds.push(d)),
            _ => None,
        }
    }
}

/// The primary dictionary's result: short overview, long overview, definitions.
pub struct PrimaryEntry {
    pub short_overview: Option<String>,
    pub long_overview: Option<String>,
    pub definitions: Vec<Definition>,
}

/// An optional string as plain values.
pub open spec fn opt_text(o: Option<String>) -> Option<Seq<char>> {
    match o {
        Some(s) => Some(s@),
        None => None,
    }
}

/// What the primary dictionary's document `doc` gives for `word`.
pub open spec fn primary_of(word: Seq<char>, doc: Seq<Node>) -> Option<
    (Option<Seq<char>>, Option<Seq<char>>, Seq<DefinitionView>),
> {
    match first_match(doc, SelectorView::Class("word-area"@)) {
        None => None,
        Some(wa) => match first_match(wa.children@, SelectorView::Tag("h1"@)) {
            None => None,
            Some(h1) => if rendered(h1.children@, plain_policy()) != word {
                None
            } else {
                match first_match(doc, SelectorView::Class("word-definitions"@)) {
                    None => None,
                    Some(wd) => match first_match(wd.children@, SelectorView::Tag("ol"@)) {
                        None => None,
                        Some(ol) => match item_definitions(
                            matches_in(ol.children@, SelectorView::Tag("li"@)),
                        ) {
                            None => None,
                            Some(ds) => Some(
                                (overview_of(wa, "short"@), overview_of(wa, "long"@), ds),
                            ),
                        },
                    },
                }
            },
        },
    }
}

fn overview_exec(wa: &Element, class: &str, p: &Policy) -> (r: Option<String>)
    requires
        p@ == overview_policy(),
    ensures
        opt_text(r) == overview_of(*wa, class@),
{
    match find_first(&wa.children, &Selector::Class(String::from_str(class))) {
        None => None,
        Some(e) => {
            let t = render(e, p);
            if t.as_str().is_empty() {
                None
            } else {
                Some(t)
            }
        },
    }
}

fn one_line_exec(t: &String) -> (r: String)
    ensures
        r@ == one_line(t@),
{
    proof {
        reveal_strlit("\n");
        reveal_strlit("");
    }
    let flat = replace_str(&chars_of(t.as_str()), "\n", "");
    assert("\n"@ =~= seq!['\n']);
    assert(""@ =~= Seq::<char>::empty());
    string_of(&flat)
}

fn item_exec(item: &Element, plain: &Policy) -> (r: Option<Definition>)
    requires
        plain@ == plain_policy(),
    ensures
        match r {
            Some(d) => item_definition(*item) == Some(d@),
            None => item_definition(*item) is None,
        },
{
    let da = match find_first(&item.children, &Selector::Class(String::from_str("definition"))) {
        Some(e) => e,
        None => return None,
    };
    let pi = match find_first(&da.children, &Selector::Class(String::from_str("pos-icon"))) {
        Some(e) => e,
        None => return None,
    };
    let part_of_speech = render(pi, plain);
    let meaning = render(da, plain);
    let exs = select_all(&item.children, &Selector::Class(String::from_str("example")));
    let ghost es = matches_in(item.children@, SelectorView::Class("example"@));
    let mut examples: Vec<String> = Vec::new();
    let mut i: usize = 0;
    while i < exs.len()
        invariant
            plain@ == plain_policy(),
            refs_to(exs@, es),
            i <= exs.len(),
            texts(examples@) == es.take(i as int).map_values(
                |e: Element| one_line(rendered(e.children@, plain_policy())),
            ),
        decreases exs.len() - i,
    {
        let ghost r0 = examples@;
        let t = one_line_exec(&render(exs[i], plain));
        examples.push(t);
        assert(texts(examples@) =~= texts(r0).push(t@));
        assert(es.take(i + 1) =~= es.take(i as int).push(es[i as int]));
        assert(texts(examples@) =~= es.take(i + 1).map_values(
            |e: Element| one_line(rendered(e.children@, plain_policy())),
        ));
        i = i + 1;
    }
    assert(es.take(exs.len() as int) =~= es);
    Some(Definition { part_of_speech, meaning, examples })
}

/// What the primary dictionary's document `doc` gives for `word`.
pub fn extract_primary(word: &str, doc: &Vec<Node>) -> (r: Option<PrimaryEntry>)
    ensures
        match r {
            Some(e) => primary_of(word@, doc@) == Some(
                (
                    opt_text(e.short_overview),
                    opt_text(e.long_overview),
                    definition_views(e.definitions@),
                ),
            ),
            None => primary_of(word@, doc@) is None,
        },
{
    let plain = Policy::plain();
    let wa = match find_first(doc, &Selector::Class(String::from_str("word-area"))) {
        Some(e) => e,
        None => return None,
    };
    let h1 = match find_first(&wa.children, &Selector::Tag(String::from_str("h1"))) {
        Some(e) => e,
        None => return None,
    };
    if !same_text(render(h1, &plain).as_str(), word) {
        return None;
    }
    let wd = match find_first(doc, &Selector::Class(String::from_str("word-definitions"))) {
        Some(e) => e,
        None => return None,
    };
    let ol = match find_first(&wd.children, &Selector::Tag(String::from_str("ol"))) {
        Some(e) => e,
        None => return None,
    };
    let items = select_all(&ol.children, &Selector::Tag(String::from_str("li")));
    let ghost its = matches_in(ol.children@, SelectorView::Tag("li"@));
    let mut definitions: Vec<Definition> = Vec::new();
    let mut i: usize = 0;
    assert(its.take(0) =~= Seq::<Element>::empty());
    assert(definition_views(definitions@) =~= seq![]);
    assert(primary_of(word@, doc@) == match item_definitions(its) {
        None => None,
        Some(ds) => Some((overview_of(*wa, "short"@), overview_of(*wa, "long"@), ds)),
    });
    while i < items.len()
        invariant
            primary_of(word@, doc@) == match item_definitions(its) {
                None => None,
                Some(ds) => Some((overview_of(*wa, "short"@), overview_of(*wa, "long"@), ds)),
            },
            plain@ == plain_policy(),
            refs_to(items@, its),
            i <= items.len(),
            item_definitions(its.take(i as int)) == Some(definition_views(definitions@)),
        decreases items.len() - i,
    {
        assert(its.take(i + 1).drop_last() =~= its.take(i as int));
        assert(its.take(i + 1).last() == its[i as int]);
        match item_exec(items[i], &plain) {
            None => {
                proof {
                    lemma_items_fail(its, i + 1);
                }
                return None;
            },
            Some(d) => {
                let ghost d0 = definitions@;
                definitions.push(d);
                assert(definition_views(definitions@) =~= definition_views(d0).push(d@));
            },
        }
        i = i + 1;
    }
    assert(its.take(items.len() as int) =~= its);
    let i_tag: [&str; 1] = ["i"];
    let none: [&str; 0] = [];
    assert(i_tag@ =~= seq!["i"]);
    assert(none@ =~= seq![]);
    let op = Policy::new(&i_tag, &none, true);
    assert(op@.wrap =~= overview_policy().wrap);
    assert(op@.emphasis =~= overview_policy().emphasis);
    let short_overview = overview_exec(wa, "short", &op);
    let long_overview = overview_exec(wa, "long", &op);
    Some(PrimaryEntry { short_overview, long_overview, definitions })
}

proof fn lemma_items_fail(items: Seq<Element>, n: int)
    requires
        0 <= n <= items.len(),
        item_definitions(items.take(n)) is None,
    ensures
        item_definitions(items) is None,
    decreases items.len() - n,
{
    if n < items.len() {
        assert(items.take(n + 1).drop_last() =~= items.take(n));
        lemma_items_fail(items, n + 1);
    } else {
        assert(items.take(n) =~= items);
    }
}

} // verus!
