//! The etymology site: one origin per entry whose echoed word is the query,
//! scanning entries in order and stopping at the first that differs.
use vstd::prelude::*;
use crate::dom::{
    ancestor_list, attr, attr_of, find_first, find_with_ancestor, first_match, matches_in,
    select_all, text_children, texts_of, Element, Node, Selector, SelectorView,
};
use crate::model::{origin_views, paragraph_break, Origin};
use crate::render::{policy_of, render, rendered, Policy, PolicyView};
use crate::text::{append_chars, append_str, chars_of, has_prefix, same_chars, same_text, starts_with_chars, string_of};

verus! {

/// An ASCII digit.
pub open spec fn is_digit(c: char) -> bool {
    0x30 <= c as u32 <= 0x39
}

/// `s` without its ASCII digits.
pub open spec fn without_digits(s: Seq<char>) -> Seq<char> {
    s.filter(|c: char| !is_digit(c))
}

/// Relies on regex's `Regex::new` and `Regex::replace_all`: every run of
/// ASCII digits replaced by nothing.
#[verifier::external_body]
fn strip_digits(s: &str) -> (r: String)
    ensures
        r@ == without_digits(s@),
{
    regex::Regex::new("[0-9]+").unwrap().replace_all(s, "").into_owned()
}

/// The part of speech that an entry's label names; empty for any other label.
pub open spec fn label_part_of_speech(label: Seq<char>) -> Seq<char> {
    if label == "(n.)"@ {
        "noun"@
    } else if label == "(v.)"@ {
        "verb"@
    } else if label == "(adj.)"@ {
        "adjective"@
    } else if label == "(adv.)"@ {
        "adverb"@
    } else if label == "(interj.)"@ {
        "interjection"@
    } else if label == "(prep.)"@ {
        "preposition"@
    } else if label == "(pron.)"@ {
        "pronoun"@
    } else {
        seq![]
    }
}

/// The part of speech that `label` names, once its digits are removed.
pub fn part_of_speech_of_label(label: &str) -> (r: String)
    ensures
        r@ == label_part_of_speech(without_digits(label@)),
{
    let s = strip_digits(label);
    let t = s.as_str();
    if same_text(t, "(n.)") {
        String::from_str("noun")
    } else if same_text(t, "(v.)") {
        String::from_str("verb")
    } else if same_text(t, "(adj.)") {
        String::from_str("adjective")
    } else if same_text(t, "(adv.)") {
        String::from_str("adverb")
    } else if same_text(t, "(interj.)") {
        String::from_str("interjection")
    } else if same_text(t, "(prep.)") {
        String::from_str("preposition")
    } else if same_text(t, "(pron.)") {
        String::from_str("pronoun")
    } else {
        String::new()
    }
}

/// Elements whose class starts with `word__name`: an entry's echoed word.
pub open spec fn name_selector() -> SelectorView {
    SelectorView::ClassPrefix("word__name"@)
}

/// Elements whose class starts with `word`: an entry.
pub open spec fn is_entry(e: Element) -> bool {
    match attr_of(e.attrs@, "class"@) {
        Some(c) => has_prefix(c, "word"@),
        None => false,
    }
}

/// How origin paragraphs are rendered.
pub open spec fn origin_policy() -> PolicyView {
    policy_of(seq![], seq!["span"@, "a"@], true)
}

/// The rendered paragraphs `ps`, joined by the paragraph break; an empty text
/// so far takes no break.
pub open spec fn joined(ps: Seq<Element>, p: PolicyView) -> Seq<char>
    decreases ps.len(),
{
    if ps.len() == 0 {
        seq![]
    } else {
        let acc = joined(ps.drop_last(), p);
        acc + (if acc.len() > 0 {
            paragraph_break()
        } else {
            seq![]
        }) + rendered(ps.last().children@, p)
    }
}

/// Where the scan over entries stands.
pub ghost struct EntryScan {
    pub seen_first: bool,
    pub stopped: bool,
    pub origins: Seq<(Seq<char>, Seq<char>)>,
}

/// One node of the list of entries. The first entry reads the echoed word
/// found first in the document (`first`, whose parent holds `parent`); a later
/// one, the first under it. `None`: the document does not have the expected
/// shape.
pub open spec fn entry_step(
    word: Seq<char>,
    first: Element,
    parent: Seq<Node>,
    st: EntryScan,
    n: Node,
) -> Option<EntryScan> {
    if st.stopped {
        Some(st)
    } else {
        match n {
            Node::Text(_) => Some(st),
            Node::Element(we) => if !is_entry(we) {
                Some(st)
            } else {
                let found = if !st.seen_first {
                    Some((first, parent))
                } else {
                    ancestor_list(we.children@, name_selector(), 1)
                };
                match found {
                    None => None,
                    Some((wn, wparent)) => {
                        let st1 = EntryScan { seen_first: true, ..st };
                        let txt = text_children(wn.children@);
                        if txt.len() == 0 {
                            None
                        } else if txt[0] != word {
                            Some(EntryScan { stopped: true, ..st1 })
                        } else {
                            match first_match(wparent, SelectorView::Tag("section"@)) {
                                None => None,
                                Some(sec) => Some(
                                    EntryScan {
                                        origins: st1.origins.push(
                                            (
                                                label_part_of_speech(without_digits(txt.last())),
                                                joined(
                                                    matches_in(sec.children@, SelectorView::Tag("p"@)),
                                                    origin_policy(),
                                                ),
                                            ),
                                        ),
                                        ..st1
                                    },
                                ),
                            }
                        }
                    },
                }
            },
        }
    }
}

/// The scan over the nodes `entries`.
pub open spec fn scan_entries(
    word: Seq<char>,
    first: Element,
    parent: Seq<Node>,
    entries: Seq<Node>,
) -> Option<EntryScan>
    decreases entries.len(),
{
    if entries.len() == 0 {
        Some(EntryScan { seen_first: false, stopped: false, origins: seq![] })
    } else {
        match scan_entries(word, first, parent, entries.drop_last()) {
            None => None,
            Some(st) => entry_step(word, first, parent, st, entries.last()),
        }
    }
}

/// What the etymology site's document `doc` gives for `word`: its entries are
/// the children of the great-grandparent of the first echoed word.
pub open spec fn etymology_of(word: Seq<char>, doc: Seq<Node>) -> Option<
    Seq<(Seq<char>, Seq<char>)>,
> {
    match (ancestor_list(doc, name_selector(), 3), ancestor_list(doc, name_selector(), 1)) {
        (Some((first, entries)), Some((_, parent))) => match scan_entries(
            word,
            first,
            parent,
            entries,
        ) {
            Some(st) => if st.origins.len() > 0 {
                Some(st.origins)
            } else {
                None
            },
            None => None,
        },
        _ => None,
    }
}

fn join_paragraphs(ps: &Vec<&Element>, p: &Policy) -> (r: String)
    ensures
        r@ == joined(ps@.map_values(|e: &Element| *e), p@),
{
    let ghost es = ps@.map_values(|e: &Element| *e);
    let mut acc: Vec<char> = Vec::new();
    let mut i: usize = 0;
    while i < ps.len()
        invariant
            es == ps@.map_values(|e: &Element| *e),
            i <= ps.len(),
            acc@ == joined(es.take(i as int), p@),
        decreases ps.len() - i,
    {
        assert(es.take(i + 1).drop_last() =~= es.take(i as int));
        assert(es.take(i + 1).last() == *ps@[i as int]);
        let ghost before = acc@;
        if acc.len() > 0 {
            let br = vec!['<', 'b', 'r', '>'];
            append_chars(&mut acc, &br);
            assert(br@ =~= paragraph_break());
        }
        let text = render(ps[i], p);
        append_str(&mut acc, text.as_str());
        assert(acc@ =~= joined(es.take(i + 1), p@));
        i = i + 1;
    }
    assert(es.take(ps.len() as int) =~= es);
    string_of(&acc)
}

fn is_entry_element(e: &Element) -> (r: bool)
    ensures
        r == is_entry(*e),
{
    match attr(e, "class") {
        Some(c) => starts_with_chars(&chars_of(c.as_str()), &chars_of("word")),
        None => false,
    }
}

/// The origins that the etymology site's document `doc` gives for `word`.
pub fn extract_etymology(word: &str, doc: &Vec<Node>) -> (r: Option<Vec<Origin>>)
    ensures
        match r {
            Some(v) => etymology_of(word@, doc@) == Some(origin_views(v@)),
            None => etymology_of(word@, doc@) is None,
        },
{
    let sel = Selector::ClassPrefix(String::from_str("word__name"));
    let (first, entries) = match find_with_ancestor(doc, &sel, 3) {
        Some(x) => x,
        None => return None,
    };
    let parent = match find_with_ancestor(doc, &sel, 1) {
        Some((_, p)) => p,
        None => return None,
    };
    let no_tags: [&str; 0] = [];
    let emphasis: [&str; 2] = ["span", "a"];
    assert(no_tags@ =~= seq![]);
    assert(emphasis@ =~= seq!["span", "a"]);
    let policy = Policy::new(&no_tags, &emphasis, true);
    assert(policy@.wrap =~= origin_policy().wrap);
    assert(policy@.emphasis =~= origin_policy().emphasis);
    let section = Selector::Tag(String::from_str("section"));
    let para = Selector::Tag(String::from_str("p"));
    let w = chars_of(word);
    let mut origins: Vec<Origin> = Vec::new();
    let mut seen_first = false;
    let mut stopped = false;
    let mut i: usize = 0;
    assert(entries@.take(0) =~= Seq::<Node>::empty());
    assert(origin_views(origins@) =~= seq![]);
    while i < entries.len()
        invariant
            sel@ == name_selector(),
            section@ == SelectorView::Tag("section"@),
            para@ == SelectorView::Tag("p"@),
            policy@ == origin_policy(),
            w@ == word@,
            ancestor_list(doc@, name_selector(), 3) == Some((*first, entries@)),
            ancestor_list(doc@, name_selector(), 1) matches Some((_, pp)) && pp == parent@,
            i <= entries.len(),
            scan_entries(word@, *first, parent@, entries@.take(i as int)) == Some(
                EntryScan { seen_first, stopped, origins: origin_views(origins@) },
            ),
        decreases entries.len() - i,
    {
        assert(entries@.take(i + 1).drop_last() =~= entries@.take(i as int));
        assert(entries@.take(i + 1).last() == entries@[i as int]);
        if !stopped {
            match &entries[i] {
                Node::Text(_) => {},
                Node::Element(we) => {
                    assert(entries@[i as int] == Node::Element(*we));
                    if is_entry_element(we) {
                        let (wn, wparent) = if !seen_first {
                            (first, parent)
                        } else {
                            match find_with_ancestor(&we.children, &sel, 1) {
                                Some(x) => x,
                                None => {
                                    proof {
                                        lemma_scan_fails(word@, *first, parent@, entries@, i + 1);
                                    }
                                    assert(entries@.take(entries.len() as int) =~= entries@);
                                    return None;
                                },
                            }
                        };
                        seen_first = true;
                        let txt = texts_of(&wn.children);
                        if txt.len() == 0 {
                            proof {
                                lemma_scan_fails(word@, *first, parent@, entries@, i + 1);
                            }
                            assert(entries@.take(entries.len() as int) =~= entries@);
                            return None;
                        }
                        if !same_chars(&chars_of(txt[0].as_str()), &w) {
                            stopped = true;
                        } else {
                            let sec = match find_first(wparent, &section) {
                                Some(s) => s,
                                None => {
                                    proof {
                                        lemma_scan_fails(word@, *first, parent@, entries@, i + 1);
                                    }
                                    assert(entries@.take(entries.len() as int) =~= entries@);
                                    return None;
                                },
                            };
                            let ps = select_all(&sec.children, &para);
                            assert(ps@.map_values(|e: &Element| *e) =~= matches_in(sec.children@, para@));
                            let text = join_paragraphs(&ps, &policy);
                            let pos = part_of_speech_of_label(txt[txt.len() - 1].as_str());
                            let ghost before = origins@;
                            origins.push(Origin { part_of_speech: pos, origin: text });
                            assert(origin_views(origins@) =~= origin_views(before).push(
                                (pos@, text@),
                            ));
                        }
                    }
                },
            }
        }
        i = i + 1;
    }
    assert(entries@.take(entries.len() as int) =~= entries@);
    if origins.len() > 0 {
        Some(origins)
    } else {
        None
    }
}

proof fn lemma_scan_fails(word: Seq<char>, first: Element, parent: Seq<Node>, entries: Seq<Node>, n: int)
    requires
        0 <= n <= entries.len(),
        scan_entries(word, first, parent, entries.take(n)) is None,
    ensures
        scan_entries(word, first, parent, entries) is None,
    decreases entries.len() - n,
{
    if n < entries.len() {
        assert(entries.take(n + 1).drop_last() =~= entries.take(n));
        lemma_scan_fails(word, first, parent, entries, n + 1);
    } else {
        assert(entries.take(n) =~= entries);
    }
}

} // verus!
