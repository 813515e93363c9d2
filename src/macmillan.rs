//! The secondary dictionary: definitions in sense groups. It gives no part of
//! speech per definition, so each is tagged `noun`.
use vstd::prelude::*;
use crate::dom::{
    children_named, elements_named, find_bare, find_first, first_bare, first_match, matches_in,
    refs_to, select_all, Element, Node, Selector, SelectorView,
};
use crate::model::{definition_views, texts, Definition, DefinitionView};
use crate::render::{policy_of, render, rendered, Policy, PolicyView};
use crate::text::{chars_of, replace_all, replace_str, string_of};

verus! {

/// How definitions and examples are rendered.
pub open spec fn sense_policy() -> PolicyView {
    policy_of(seq![], seq!["a"@, "span"@], false)
}

/// `s` without line breaks.
pub open spec fn one_line(s: Seq<char>) -> Seq<char> {
    replace_all(s, seq!['\n'], seq![])
}

/// The examples of a sense: the `p` children of its first `.EXAMPLES`.
pub open spec fn sense_examples(body: Element) -> Seq<Seq<char>> {
    match first_match(body.children@, SelectorView::Class("EXAMPLES"@)) {
        None => seq![],
        Some(ex) => children_named(ex.children@, "p"@).map_values(
            |p: Element| one_line(rendered(p.children@, sense_policy())),
        ),
    }
}

/// The definitions of the sense bodies `bodies`; one without a `.DEFINITION`
/// is passed over.
pub open spec fn senses(bodies: Seq<Element>) -> Seq<DefinitionView>
    decreases bodies.len(),
{
    if bodies.len() == 0 {
        seq![]
    } else {
        let s = senses(bodies.drop_last());
        match first_match(bodies.last().children@, SelectorView::Class("DEFINITION"@)) {
            None => s,
            Some(m) => s.push(
                DefinitionView {
                    part_of_speech: "noun"@,
                    meaning: rendered(m.children@, sense_policy()),
                    examples: sense_examples(bodies.last()),
                },
            ),
        }
    }
}

/// One group per list item that has a `.SENSE-BODY`.
pub open spec fn sense_groups(items: Seq<Element>) -> Seq<Seq<DefinitionView>>
    decreases items.len(),
{
    if items.len() == 0 {
        seq![]
    } else {
        let g = sense_groups(items.drop_last());
        match first_match(items.last().children@, SelectorView::Class("SENSE-BODY"@)) {
            None => g,
            Some(sb) => g.push(senses(matches_in(sb.children@, SelectorView::Class("dflex"@)))),
        }
    }
}

/// What the secondary dictionary's document `doc` gives: the items of the
/// first list under the second bare element below `.left-content`.
pub open spec fn secondary_of(doc: Seq<Node>) -> Option<Seq<Seq<DefinitionView>>> {
    match first_match(doc, SelectorView::Class("left-content"@)) {
        None => None,
        Some(wa) => match first_bare(wa.children@) {
            None => None,
            Some(a1) => match first_bare(a1.children@) {
                None => None,
                Some(a2) => match first_match(a2.children@, SelectorView::Tag("ol"@)) {
                    None => None,
                    Some(ol) => Some(sense_groups(matches_in(ol.children@, SelectorView::Tag("li"@)))),
                },
            },
        },
    }
}

/// The views of a list of sense groups.
pub open spec fn group_views(g: Seq<Vec<Definition>>) -> Seq<Seq<DefinitionView>> {
    g.map_values(|d: Vec<Definition>| definition_views(d@))
}

fn examples_exec(body: &Element, examples: &Selector, p: &Policy) -> (r: Vec<String>)
    requires
        examples@ == SelectorView::Class("EXAMPLES"@),
        p@ == sense_policy(),
    ensures
        texts(r@) == sense_examples(*body),
{
    let mut r: Vec<String> = Vec::new();
    match find_first(&body.children, examples) {
        None => {
            assert(texts(r@) =~= seq![]);
        },
        Some(ex) => {
            let ps = elements_named(&ex.children, "p");
            let ghost es = children_named(ex.children@, "p"@);
            let mut i: usize = 0;
            while i < ps.len()
                invariant
                    p@ == sense_policy(),
                    refs_to(ps@, es),
                    i <= ps.len(),
                    texts(r@) == es.take(i as int).map_values(
                        |p: Element| one_line(rendered(p.children@, sense_policy())),
                    ),
                decreases ps.len() - i,
            {
                proof {
                    reveal_strlit("\n");
                    reveal_strlit("");
                }
                let ghost r0 = r@;
                let text = render(ps[i], p);
                let flat = replace_str(&chars_of(text.as_str()), "\n", "");
                assert("\n"@ =~= seq!['\n']);
                assert(""@ =~= Seq::<char>::empty());
                let t = string_of(&flat);
                r.push(t);
                assert(texts(r@) =~= texts(r0).push(t@));
                assert(es.take(i + 1) =~= es.take(i as int).push(es[i as int]));
                assert(texts(r@) =~= es.take(i + 1).map_values(
                    |p: Element| one_line(rendered(p.children@, sense_policy())),
                ));
                i = i + 1;
            }
            assert(es.take(ps.len() as int) =~= es);
        },
    }
    r
}

/// The sense groups that the secondary dictionary's document `doc` gives.
pub fn extract_secondary(doc: &Vec<Node>) -> (r: Option<Vec<Vec<Definition>>>)
    ensures
        match r {
            Some(g) => secondary_of(doc@) == Some(group_views(g@)),
            None => secondary_of(doc@) is None,
        },
{
    let wa = match find_first(doc, &Selector::Class(String::from_str("left-content"))) {
        Some(e) => e,
        None => return None,
    };
    let a1 = match find_bare(&wa.children) {
        Some(e) => e,
        None => return None,
    };
    let a2 = match find_bare(&a1.children) {
        Some(e) => e,
        None => return None,
    };
    let ol = match find_first(&a2.children, &Selector::Tag(String::from_str("ol"))) {
        Some(e) => e,
        None => return None,
    };
    let none: [&str; 0] = [];
    let emphasis: [&str; 2] = ["a", "span"];
    assert(none@ =~= seq![]);
    assert(emphasis@ =~= seq!["a", "span"]);
    let policy = Policy::new(&none, &emphasis, false);
    assert(policy@.wrap =~= sense_policy().wrap);
    assert(policy@.emphasis =~= sense_policy().emphasis);
    let sense_body = Selector::Class(String::from_str("SENSE-BODY"));
    let dflex = Selector::Class(String::from_str("dflex"));
    let definition = Selector::Class(String::from_str("DEFINITION"));
    let examples = Selector::Class(String::from_str("EXAMPLES"));
    let items = select_all(&ol.children, &Selector::Tag(String::from_str("li")));
    let ghost its = matches_in(ol.children@, SelectorView::Tag("li"@));
    let mut groups: Vec<Vec<Definition>> = Vec::new();
    let mut i: usize = 0;
    assert(its.take(0) =~= Seq::<Element>::empty());
    assert(group_views(groups@) =~= seq![]);
    while i < items.len()
        invariant
            policy@ == sense_policy(),
            sense_body@ == SelectorView::Class("SENSE-BODY"@),
            dflex@ == SelectorView::Class("dflex"@),
            definition@ == SelectorView::Class("DEFINITION"@),
            examples@ == SelectorView::Class("EXAMPLES"@),
            refs_to(items@, its),
            i <= items.len(),
            group_views(groups@) == sense_groups(its.take(i as int)),
        decreases items.len() - i,
    {
        assert(its.take(i + 1).drop_last() =~= its.take(i as int));
        assert(its.take(i + 1).last() == its[i as int]);
        match find_first(&items[i].children, &sense_body) {
            None => {},
            Some(sb) => {
                let bodies = select_all(&sb.children, &dflex);
                let ghost bs = matches_in(sb.children@, SelectorView::Class("dflex"@));
                let mut sense: Vec<Definition> = Vec::new();
                let mut k: usize = 0;
                assert(bs.take(0) =~= Seq::<Element>::empty());
                assert(definition_views(sense@) =~= seq![]);
                while k < bodies.len()
                    invariant
                        policy@ == sense_policy(),
                        definition@ == SelectorView::Class("DEFINITION"@),
                        examples@ == SelectorView::Class("EXAMPLES"@),
                        refs_to(bodies@, bs),
                        k <= bodies.len(),
                        definition_views(sense@) == senses(bs.take(k as int)),
                    decreases bodies.len() - k,
                {
                    assert(bs.take(k + 1).drop_last() =~= bs.take(k as int));
                    assert(bs.take(k + 1).last() == bs[k as int]);
                    match find_first(&bodies[k].children, &definition) {
                        None => {},
                        Some(m) => {
                            let meaning = render(m, &policy);
                            let ex = examples_exec(bodies[k], &examples, &policy);
                            let d = Definition {
                                part_of_speech: String::from_str("noun"),
                                meaning,
                                examples: ex,
                            };
                            let ghost s0 = sense@;
                            sense.push(d);
                            assert(definition_views(sense@) =~= definition_views(s0).push(d@));
                        },
                    }
                    k = k + 1;
                }
                assert(bs.take(bodies.len() as int) =~= bs);
                let ghost g0 = groups@;
                groups.push(sense);
                assert(group_views(groups@) =~= group_views(g0).push(senses(bs)));
            },
        }
        i = i + 1;
    }
    assert(its.take(items.len() as int) =~= its);
    Some(groups)
}

} // verus!
