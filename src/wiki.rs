//! The collaborative wiki: definitions and origins from the English section,
//! paired by the origin stitcher.
use vstd::prelude::*;
use crate::dom::{
    ancestor_list, children_named, element_children, elements_named, elements_of, find_first,
    find_with_ancestor, first_match, refs_to, Element, Node, Selector, SelectorView,
};
use crate::model::{definition_views, origin_views, texts, Definition, DefinitionView, Origin};
use crate::render::{plain_policy, policy_of, render, rendered, Policy, PolicyView};
use crate::stitch::{
    definition_step, finish_step, heading_step, initial, paragraph_step, StitchView, Stitcher,
};
use crate::text::{chars_of, lower_of, lowercase, same_chars};

verus! {

/// The anchor of the English section.
pub open spec fn english_selector() -> SelectorView {
    SelectorView::Id("English"@)
}

/// How a definition is rendered.
pub open spec fn meaning_policy() -> PolicyView {
    policy_of(seq!["span"@], seq!["a"@], false)
}

/// How an example is rendered.
pub open spec fn example_policy() -> PolicyView {
    policy_of(seq![], seq!["span"@], true)
}

/// How an etymology paragraph is rendered.
pub open spec fn paragraph_policy() -> PolicyView {
    policy_of(seq![], seq!["span"@], false)
}

/// The rendered `dd` children of the first `dl` under a list item.
pub open spec fn examples_of(item: Element) -> Seq<Seq<char>> {
    match first_match(item.children@, SelectorView::Tag("dl"@)) {
        None => seq![],
        Some(dl) => children_named(dl.children@, "dd"@).map_values(
            |dd: Element| rendered(dd.children@, example_policy()),
        ),
    }
}

/// The items of a definition list, handed to the stitcher in order.
pub open spec fn list_step(st: StitchView, items: Seq<Element>) -> StitchView
    decreases items.len(),
{
    if items.len() == 0 {
        st
    } else {
        definition_step(
            list_step(st, items.drop_last()),
            rendered(items.last().children@, meaning_policy()),
            examples_of(items.last()),
        )
    }
}

/// Where the scan over the section's siblings stands.
pub ghost struct WikiScan {
    /// The English anchor has been passed.
    pub started: bool,
    /// A divider ended the section.
    pub stopped: bool,
    pub st: StitchView,
}

/// Whether `name` is a heading that the section structure uses.
pub open spec fn is_heading(name: Seq<char>) -> bool {
    name == "h3"@ || name == "h4"@ || name == "h5"@
}

/// One sibling. `None`: a heading without its headline text.
pub open spec fn wiki_step(sc: WikiScan, n: Node) -> Option<WikiScan> {
    if sc.stopped {
        Some(sc)
    } else {
        match n {
            Node::Text(_) => Some(sc),
            Node::Element(el) => if !sc.started {
                Some(
                    WikiScan { started: first_match(el.children@, english_selector()) is Some, ..sc },
                )
            } else if is_heading(el.name@) {
                match first_match(el.children@, SelectorView::Class("mw-headline"@)) {
                    None => None,
                    Some(t) => Some(
                        WikiScan {
                            st: heading_step(sc.st, lower_of(rendered(t.children@, plain_policy()))),
                            ..sc
                        },
                    ),
                }
            } else if el.name@ == "ol"@ {
                Some(WikiScan { st: list_step(sc.st, element_children(el.children@)), ..sc })
            } else if el.name@ == "hr"@ {
                Some(WikiScan { stopped: true, ..sc })
            } else if el.name@ == "p"@ {
                Some(
                    WikiScan {
                        st: paragraph_step(sc.st, rendered(el.children@, paragraph_policy())),
                        ..sc
                    },
                )
            } else {
                Some(sc)
            },
        }
    }
}

/// The scan over the siblings `nodes`.
pub open spec fn wiki_scan(nodes: Seq<Node>) -> Option<WikiScan>
    decreases nodes.len(),
{
    if nodes.len() == 0 {
        Some(WikiScan { started: false, stopped: false, st: initial() })
    } else {
        match wiki_scan(nodes.drop_last()) {
            None => None,
            Some(sc) => wiki_step(sc, nodes.last()),
        }
    }
}

/// What the wiki's document `doc` gives: origins and definitions from the
/// siblings that follow the English anchor's grandparent's child that holds it.
pub open spec fn wiki_of(doc: Seq<Node>) -> Option<
    (Seq<(Seq<char>, Seq<char>)>, Seq<DefinitionView>),
> {
    match ancestor_list(doc, english_selector(), 2) {
        None => None,
        Some((_, sibs)) => match wiki_scan(sibs) {
            None => None,
            Some(sc) => Some((finish_step(sc.st).origins, sc.st.definitions)),
        },
    }
}

fn examples_exec(item: &Element, dl: &Selector, p: &Policy) -> (r: Vec<String>)
    requires
        dl@ == SelectorView::Tag("dl"@),
        p@ == example_policy(),
    ensures
        texts(r@) == examples_of(*item),
{
    let mut r: Vec<String> = Vec::new();
    match find_first(&item.children, dl) {
        None => {
            assert(texts(r@) =~= seq![]);
        },
        Some(list) => {
            let dds = elements_named(&list.children, "dd");
            let ghost ds = children_named(list.children@, "dd"@);
            let mut i: usize = 0;
            while i < dds.len()
                invariant
                    p@ == example_policy(),
                    refs_to(dds@, ds),
                    i <= dds.len(),
                    texts(r@) == ds.take(i as int).map_values(
                        |dd: Element| rendered(dd.children@, example_policy()),
                    ),
                decreases dds.len() - i,
            {
                let ghost r0 = r@;
                let t = render(dds[i], p);
                r.push(t);
                assert(texts(r@) =~= texts(r0).push(t@));
                assert(ds.take(i + 1) =~= ds.take(i as int).push(ds[i as int]));
                assert(texts(r@) =~= ds.take(i + 1).map_values(
                    |dd: Element| rendered(dd.children@, example_policy()),
                ));
                i = i + 1;
            }
            assert(ds.take(dds.len() as int) =~= ds);
        },
    }
    r
}

/// The origins and definitions that the wiki's document `doc` gives.
pub fn extract_wiki(doc: &Vec<Node>) -> (r: Option<(Vec<Origin>, Vec<Definition>)>)
    ensures
        match r {
            Some((o, d)) => wiki_of(doc@) == Some((origin_views(o@), definition_views(d@))),
            None => wiki_of(doc@) is None,
        },
{
    let english = Selector::Id(String::from_str("English"));
    let sibs = match find_with_ancestor(doc, &english, 2) {
        Some((_, s)) => s,
        None => return None,
    };
    let none: [&str; 0] = [];
    let span: [&str; 1] = ["span"];
    let a: [&str; 1] = ["a"];
    assert(none@ =~= seq![]);
    assert(span@ =~= seq!["span"]);
    assert(a@ =~= seq!["a"]);
    let title_p = Policy::plain();
    let meaning_p = Policy::new(&span, &a, false);
    let example_p = Policy::new(&none, &span, true);
    let para_p = Policy::new(&none, &span, false);
    assert(meaning_p@.wrap =~= meaning_policy().wrap);
    assert(meaning_p@.emphasis =~= meaning_policy().emphasis);
    assert(example_p@.wrap =~= example_policy().wrap);
    assert(example_p@.emphasis =~= example_policy().emphasis);
    assert(para_p@.wrap =~= paragraph_policy().wrap);
    assert(para_p@.emphasis =~= paragraph_policy().emphasis);
    let headline = Selector::Class(String::from_str("mw-headline"));
    let dl = Selector::Tag(String::from_str("dl"));
    let (h3, h4, h5) = (chars_of("h3"), chars_of("h4"), chars_of("h5"));
    let (ol, hr, p) = (chars_of("ol"), chars_of("hr"), chars_of("p"));
    let mut stitcher = Stitcher::new();
    let mut started = false;
    let mut stopped = false;
    let mut i: usize = 0;
    assert(sibs@.take(0) =~= Seq::<Node>::empty());
    while i < sibs.len()
        invariant
            english@ == english_selector(),
            headline@ == SelectorView::Class("mw-headline"@),
            dl@ == SelectorView::Tag("dl"@),
            title_p@ == plain_policy(),
            meaning_p@ == meaning_policy(),
            example_p@ == example_policy(),
            para_p@ == paragraph_policy(),
            h3@ == "h3"@,
            h4@ == "h4"@,
            h5@ == "h5"@,
            ol@ == "ol"@,
            hr@ == "hr"@,
            p@ == "p"@,
            ancestor_list(doc@, english_selector(), 2) matches Some((_, s)) && s == sibs@,
            i <= sibs.len(),
            wiki_scan(sibs@.take(i as int)) == Some(
                WikiScan { started, stopped, st: stitcher@ },
            ),
        decreases sibs.len() - i,
    {
        assert(sibs@.take(i + 1).drop_last() =~= sibs@.take(i as int));
        assert(sibs@.take(i + 1).last() == sibs@[i as int]);
        if !stopped {
            match &sibs[i] {
                Node::Text(_) => {},
                Node::Element(el) => {
                    assert(sibs@[i as int] == Node::Element(*el));
                    let name = chars_of(el.name.as_str());
                    if !started {
                        started = find_first(&el.children, &english).is_some();
                    } else if same_chars(&name, &h3) || same_chars(&name, &h4) || same_chars(
                        &name,
                        &h5,
                    ) {
                        match find_first(&el.children, &headline) {
                            None => {
                                proof {
                                    lemma_wiki_fails(sibs@, i + 1);
                                }
                                return None;
                            },
                            Some(t) => {
                                let title = lowercase(render(t, &title_p).as_str());
                                stitcher.heading(title);
                            },
                        }
                    } else if same_chars(&name, &ol) {
                        let items = elements_of(&el.children);
                        let ghost es = element_children(el.children@);
                        let ghost st0 = stitcher@;
                        let mut k: usize = 0;
                        assert(es.take(0) =~= Seq::<Element>::empty());
                        while k < items.len()
                            invariant
                                dl@ == SelectorView::Tag("dl"@),
                                meaning_p@ == meaning_policy(),
                                example_p@ == example_policy(),
                                refs_to(items@, es),
                                k <= items.len(),
                                stitcher@ == list_step(st0, es.take(k as int)),
                            decreases items.len() - k,
                        {
                            assert(es.take(k + 1).drop_last() =~= es.take(k as int));
                            assert(es.take(k + 1).last() == es[k as int]);
                            let meaning = render(items[k], &meaning_p);
                            let examples = examples_exec(items[k], &dl, &example_p);
                            stitcher.definition(meaning, examples);
                            k = k + 1;
                        }
                        assert(es.take(items.len() as int) =~= es);
                    } else if same_chars(&name, &hr) {
                        stopped = true;
                    } else if same_chars(&name, &p) {
                        stitcher.paragraph(render(el, &para_p));
                    }
                },
            }
        }
        i = i + 1;
    }
    assert(sibs@.take(sibs.len() as int) =~= sibs@);
    Some(stitcher.finish())
}

proof fn lemma_wiki_fails(nodes: Seq<Node>, n: int)
    requires
        0 <= n <= nodes.len(),
        wiki_scan(nodes.take(n)) is None,
    ensures
        wiki_scan(nodes) is None,
    decreases nodes.len() - n,
{
    if n < nodes.len() {
        assert(nodes.take(n + 1).drop_last() =~= nodes.take(n));
        lemma_wiki_fails(nodes, n + 1);
    } else {
        assert(nodes.take(n) =~= nodes);
    }
}

} // verus!
