//! The parsed document as plain values, and the queries that the extractors
//! run on it: simple selectors matched against elements, found in document order.
use vstd::prelude::*;
use crate::text::{chars_of, has_prefix, occurs_at, same_chars, starts_with_chars};

verus! {

/// An element: its tag name, its attributes in document order, its children.
pub struct Element {
    pub name: String,
    pub attrs: Vec<(String, String)>,
    pub children: Vec<Node>,
}

/// A node of the document tree.
pub enum Node {
    Text(String),
    Element(Element),
}

/// A simple selector.
pub enum Selector {
    /// Elements with this tag name (`ol`).
    Tag(String),
    /// Elements with this class among their classes (`.word-area`).
    Class(String),
    /// Elements with this `id` (`#English`).
    Id(String),
    /// Elements whose `class` attribute starts with this text.
    ClassPrefix(String),
}

/// A selector as plain values.
pub ghost enum SelectorView {
    Tag(Seq<char>),
    Class(Seq<char>),
    Id(Seq<char>),
    ClassPrefix(Seq<char>),
}

impl View for Selector {
    type V = SelectorView;

    open spec fn view(&self) -> SelectorView {
        match self {
            Selector::Tag(t) => SelectorView::Tag(t@),
            Selector::Class(c) => SelectorView::Class(c@),
            Selector::Id(i) => SelectorView::Id(i@),
            Selector::ClassPrefix(p) => SelectorView::ClassPrefix(p@),
        }
    }
}

/// The value of the first attribute named `key`.
pub open spec fn attr_of(attrs: Seq<(String, String)>, key: Seq<char>) -> Option<Seq<char>>
    decreases attrs.len(),
{
    if attrs.len() == 0 {
        None
    } else if attrs[0].0@ == key {
        Some(attrs[0].1@)
    } else {
        attr_of(attrs.drop_first(), key)
    }
}

/// The separators of HTML's class lists: ASCII white space.
pub open spec fn is_ascii_white(c: char) -> bool {
    c == ' ' || c == '\t' || c == '\n' || c == '\x0C' || c == '\r'
}

/// `c` is one of the white-space separated tokens of the class list `v`.
pub open spec fn has_class_token(v: Seq<char>, c: Seq<char>) -> bool {
    &&& c.len() > 0
    &&& forall|k: int| 0 <= k < c.len() ==> !is_ascii_white(#[trigger] c[k])
    &&& exists|i: int|
        #![trigger occurs_at(v, c, i)]
        occurs_at(v, c, i) && (i == 0 || is_ascii_white(v[i - 1])) && (i + c.len() == v.len()
            || is_ascii_white(v[i + c.len()]))
}

/// Whether `sel` selects `e`.
pub open spec fn selects(sel: SelectorView, e: Element) -> bool {
    match sel {
        SelectorView::Tag(t) => e.name@ == t,
        SelectorView::Class(c) => match attr_of(e.attrs@, "class"@) {
            Some(v) => has_class_token(v, c),
            None => false,
        },
        SelectorView::Id(i) => attr_of(e.attrs@, "id"@) == Some(i),
        SelectorView::ClassPrefix(p) => match attr_of(e.attrs@, "class"@) {
            Some(v) => has_prefix(v, p),
            None => false,
        },
    }
}

/// The elements under `nodes` that `sel` selects, in document order.
pub open spec fn matches_in(nodes: Seq<Node>, sel: SelectorView) -> Seq<Element>
    decreases nodes,
{
    if nodes.len() == 0 {
        seq![]
    } else {
        matches_in(nodes.drop_last(), sel) + node_matches(nodes.last(), sel)
    }
}

/// The elements of the subtree of `n`, itself included, that `sel` selects, in
/// document order.
pub open spec fn node_matches(n: Node, sel: SelectorView) -> Seq<Element>
    decreases n,
{
    match n {
        Node::Text(_) => seq![],
        Node::Element(e) => (if selects(sel, e) {
            seq![e]
        } else {
            seq![]
        }) + matches_in(e.children@, sel),
    }
}


/// `r` holds references to exactly the elements of `m`, in order.
pub open spec fn refs_to(r: Seq<&Element>, m: Seq<Element>) -> bool {
    r.len() == m.len() && forall|i: int| 0 <= i < r.len() ==> *r[i] == m[i]
}

/// The first element under `nodes` that `sel` selects.
pub open spec fn first_match(nodes: Seq<Node>, sel: SelectorView) -> Option<Element> {
    let m = matches_in(nodes, sel);
    if m.len() > 0 {
        Some(m[0])
    } else {
        None
    }
}

/// The value of `e`'s first attribute named `key`.
pub fn attr<'a>(e: &'a Element, key: &str) -> (r: Option<&'a String>)
    ensures
        match r {
            Some(v) => attr_of(e.attrs@, key@) == Some(v@),
            None => attr_of(e.attrs@, key@) is None,
        },
{
    let k = chars_of(key);
    let mut i: usize = 0;
    assert(e.attrs@.skip(0) =~= e.attrs@);
    while i < e.attrs.len()
        invariant
            k@ == key@,
            i <= e.attrs.len(),
            attr_of(e.attrs@, key@) == attr_of(e.attrs@.skip(i as int), key@),
        decreases e.attrs.len() - i,
    {
        let ghost rest = e.attrs@.skip(i as int);
        assert(rest[0] == e.attrs@[i as int]);
        assert(rest.drop_first() =~= e.attrs@.skip(i + 1));
        if same_chars(&chars_of(e.attrs[i].0.as_str()), &k) {
            return Some(&e.attrs[i].1);
        }
        i = i + 1;
    }
    None
}

fn ascii_white(c: char) -> (r: bool)
    ensures
        r == is_ascii_white(c),
{
    c == ' ' || c == '\t' || c == '\n' || c == '\x0C' || c == '\r'
}

/// Whether `c` is one of the tokens of the class list `v`.
pub fn class_list_has(v: &Vec<char>, c: &Vec<char>) -> (r: bool)
    ensures
        r == has_class_token(v@, c@),
{
    if c.len() == 0 {
        return false;
    }
    let mut k: usize = 0;
    while k < c.len()
        invariant
            k <= c.len(),
            forall|m: int| 0 <= m < k ==> !is_ascii_white(#[trigger] c@[m]),
        decreases c.len() - k,
    {
        if ascii_white(c[k]) {
            return false;
        }
        k = k + 1;
    }
    if c.len() > v.len() {
        assert forall|i: int| !occurs_at(v@, c@, i) by {}
        return false;
    }
    let mut i: usize = 0;
    while i <= v.len() - c.len()
        invariant
            0 < c.len() <= v.len(),
            i <= v.len() - c.len() + 1,
            forall|m: int| 0 <= m < c.len() ==> !is_ascii_white(#[trigger] c@[m]),
            forall|j: int|
                #![trigger occurs_at(v@, c@, j)]
                0 <= j < i ==> !(occurs_at(v@, c@, j) && (j == 0 || is_ascii_white(v@[j - 1])) && (j
                    + c.len() == v.len() || is_ascii_white(v@[j + c.len()]))),
        decreases v.len() - c.len() + 1 - i,
    {
        let before = i == 0 || ascii_white(v[i - 1]);
        let after = i + c.len() == v.len() || ascii_white(v[i + c.len()]);
        if before && after && crate::text::contains_at(v, c, i) {
            assert(occurs_at(v@, c@, i as int));
            return true;
        }
        i = i + 1;
    }
    false
}

/// Whether `sel` selects `e`.
pub fn element_selected(sel: &Selector, e: &Element) -> (r: bool)
    ensures
        r == selects(sel@, *e),
{
    match sel {
        Selector::Tag(t) => same_chars(&chars_of(e.name.as_str()), &chars_of(t.as_str())),
        Selector::Class(c) => match attr(e, "class") {
            Some(v) => class_list_has(&chars_of(v.as_str()), &chars_of(c.as_str())),
            None => false,
        },
        Selector::Id(i) => match attr(e, "id") {
            Some(v) => same_chars(&chars_of(v.as_str()), &chars_of(i.as_str())),
            None => false,
        },
        Selector::ClassPrefix(p) => match attr(e, "class") {
            Some(v) => starts_with_chars(&chars_of(v.as_str()), &chars_of(p.as_str())),
            None => false,
        },
    }
}

/// Appends to `out` the elements under `nodes` that `sel` selects, in
/// document order.
fn collect_matches<'a>(nodes: &'a Vec<Node>, sel: &Selector, out: &mut Vec<&'a Element>)
    requires
        refs_to(old(out)@, old(out)@.map_values(|e: &Element| *e)),
    ensures
        refs_to(final(out)@, old(out)@.map_values(|e: &Element| *e) + matches_in(nodes@, sel@)),
    decreases nodes@,
{
    let ghost start = old(out)@.map_values(|e: &Element| *e);
    let mut i: usize = 0;
    while i < nodes.len()
        invariant
            i <= nodes.len(),
            refs_to(out@, start + matches_in(nodes@.take(i as int), sel@)),
        decreases nodes.len() - i,
    {
        assert(nodes@.take(i + 1).drop_last() =~= nodes@.take(i as int));
        assert(nodes@.take(i + 1).last() == nodes@[i as int]);
        match &nodes[i] {
            Node::Text(_) => {
                assert(node_matches(nodes@[i as int], sel@) =~= seq![]);
                assert(matches_in(nodes@.take(i + 1), sel@) =~= matches_in(nodes@.take(i as int), sel@));
            },
            Node::Element(e) => {
                let ghost before = start + matches_in(nodes@.take(i as int), sel@);
                assert(nodes@[i as int] == Node::Element(*e));
                if element_selected(sel, e) {
                    assert(node_matches(nodes@[i as int], sel@) == seq![*e] + matches_in(e.children@, sel@));
                    out.push(e);
                    assert(refs_to(out@, before + seq![*e]));
                    assert(out@.map_values(|e: &Element| *e) =~= before + seq![*e]);
                    collect_matches(&e.children, sel, out);
                    assert(before + seq![*e] + matches_in(e.children@, sel@) =~= start + matches_in(nodes@.take(i + 1), sel@));
                } else {
                    assert(node_matches(nodes@[i as int], sel@) =~= matches_in(e.children@, sel@));
                    assert(out@.map_values(|e: &Element| *e) =~= before);
                    collect_matches(&e.children, sel, out);
                    assert(before + matches_in(e.children@, sel@) =~= start + matches_in(nodes@.take(i + 1), sel@));
                }
            },
        }
        i = i + 1;
    }
    assert(nodes@.take(nodes.len() as int) =~= nodes@);
}


/// Every element under `nodes` that `sel` selects, in document order.
pub fn select_all<'a>(nodes: &'a Vec<Node>, sel: &Selector) -> (r: Vec<&'a Element>)
    ensures
        refs_to(r@, matches_in(nodes@, sel@)),
{
    let mut out: Vec<&'a Element> = Vec::new();
    assert(out@.map_values(|e: &Element| *e) =~= Seq::<Element>::empty());
    collect_matches(nodes, sel, &mut out);
    assert(Seq::<Element>::empty() + matches_in(nodes@, sel@) =~= matches_in(nodes@, sel@));
    out
}

/// The first element under `nodes` that `sel` selects.
pub fn find_first<'a>(nodes: &'a Vec<Node>, sel: &Selector) -> (r: Option<&'a Element>)
    ensures
        match r {
            Some(e) => first_match(nodes@, sel@) == Some(*e),
            None => first_match(nodes@, sel@) is None,
        },
{
    let all = select_all(nodes, sel);
    if all.len() > 0 {
        Some(all[0])
    } else {
        None
    }
}

/// The first element under `nodes` that `sel` selects, with the child lists
/// that lead down to it from `nodes`, `nodes` excluded: empty where it stands
/// in `nodes` itself, else beginning with the children of the element of
/// `nodes` that holds it and ending with the list that holds it.
pub open spec fn trail(nodes: Seq<Node>, sel: SelectorView) -> Option<(Element, Seq<Seq<Node>>)>
    decreases nodes,
{
    if nodes.len() == 0 {
        None
    } else {
        match trail(nodes.drop_last(), sel) {
            Some(t) => Some(t),
            None => node_trail(nodes.last(), sel),
        }
    }
}

/// The first element of the subtree of `n` that `sel` selects, with the child
/// lists that lead down to it from `n`.
pub open spec fn node_trail(n: Node, sel: SelectorView) -> Option<(Element, Seq<Seq<Node>>)>
    decreases n,
{
    match n {
        Node::Text(_) => None,
        Node::Element(e) => if selects(sel, e) {
            Some((e, seq![]))
        } else {
            match trail(e.children@, sel) {
                Some((m, p)) => Some((m, seq![e.children@] + p)),
                None => None,
            }
        },
    }
}

/// The first element under `nodes` that `sel` selects, with the children of
/// its `k`-th ancestor (`nodes` standing for the children of the root), where
/// that ancestor exists.
pub open spec fn ancestor_list(nodes: Seq<Node>, sel: SelectorView, k: nat) -> Option<
    (Element, Seq<Node>),
> {
    match trail(nodes, sel) {
        Some((m, p)) => {
            let chain = seq![nodes] + p;
            if 1 <= k <= chain.len() {
                Some((m, chain[chain.len() - k]))
            } else {
                None
            }
        },
        None => None,
    }
}

/// The child lists of `trail(nodes, sel)`, where it finds an element.
pub open spec fn trail_lists(nodes: Seq<Node>, sel: SelectorView) -> Seq<Seq<Node>> {
    match trail(nodes, sel) {
        Some((_, p)) => p,
        None => seq![],
    }
}

/// `r` refers to exactly the lists of `p`, in order.
pub open spec fn lists_are(r: Seq<&Vec<Node>>, p: Seq<Seq<Node>>) -> bool {
    r.len() == p.len() && forall|i: int| 0 <= i < r.len() ==> r[i]@ == p[i]
}

proof fn lemma_trail_extends(nodes: Seq<Node>, sel: SelectorView, n: int, j: int)
    requires
        0 <= n <= j <= nodes.len(),
        trail(nodes.take(n), sel) is Some,
    ensures
        trail(nodes.take(j), sel) == trail(nodes.take(n), sel),
    decreases j - n,
{
    if j > n {
        lemma_trail_extends(nodes, sel, n, j - 1);
        assert(nodes.take(j).drop_last() =~= nodes.take(j - 1));
    }
}

fn find_trail<'a>(nodes: &'a Vec<Node>, sel: &Selector) -> (r: Option<
    (&'a Element, Vec<&'a Vec<Node>>),
>)
    ensures
        match r {
            Some((m, p)) => trail(nodes@, sel@) matches Some((tm, tp)) && *m == tm && lists_are(
                p@,
                tp,
            ),
            None => trail(nodes@, sel@) is None,
        },
    decreases nodes@,
{
    let mut i: usize = 0;
    while i < nodes.len()
        invariant
            i <= nodes.len(),
            trail(nodes@.take(i as int), sel@) is None,
        decreases nodes.len() - i,
    {
        let ghost pre = nodes@.take(i + 1);
        assert(pre.drop_last() =~= nodes@.take(i as int));
        assert(pre.last() == nodes@[i as int]);
        match &nodes[i] {
            Node::Text(_) => {},
            Node::Element(e) => {
                assert(nodes@[i as int] == Node::Element(*e));
                if element_selected(sel, e) {
                    assert(node_trail(nodes@[i as int], sel@) == Some((*e, Seq::<Seq<Node>>::empty())));
                    assert(trail(pre, sel@) == Some((*e, Seq::<Seq<Node>>::empty())));
                    proof {
                        lemma_trail_extends(nodes@, sel@, i + 1, nodes.len() as int);
                    }
                    assert(nodes@.take(nodes.len() as int) =~= nodes@);
                    let found: Vec<&'a Vec<Node>> = Vec::new();
                    assert(lists_are(found@, seq![]));
                    return Some((e, found));
                }
                match find_trail(&e.children, sel) {
                    Some((m, p)) => {
                        let mut q = p;
                        let ghost tp = trail_lists(e.children@, sel@);
                        q.insert(0, &e.children);
                        assert(lists_are(q@, seq![e.children@] + tp)) by {
                            assert forall|j: int| 0 <= j < q.len() implies q@[j]@ == (seq![
                                e.children@,
                            ] + tp)[j] by {
                                if j > 0 {
                                    assert(q@[j] == p@[j - 1]);
                                }
                            }
                        }
                        assert(node_trail(nodes@[i as int], sel@) == Some((*m, seq![e.children@] + tp)));
                        assert(trail(pre, sel@) == Some((*m, seq![e.children@] + tp)));
                        proof {
                            lemma_trail_extends(nodes@, sel@, i + 1, nodes.len() as int);
                        }
                        assert(nodes@.take(nodes.len() as int) =~= nodes@);
                        return Some((m, q));
                    },
                    None => {},
                }
            },
        }
        i = i + 1;
    }
    assert(nodes@.take(nodes.len() as int) =~= nodes@);
    None
}

/// The first element under `nodes` that `sel` selects, with the children of
/// its `k`-th ancestor, where that ancestor exists.
pub fn find_with_ancestor<'a>(nodes: &'a Vec<Node>, sel: &Selector, k: usize) -> (r: Option<
    (&'a Element, &'a Vec<Node>),
>)
    ensures
        match r {
            Some((m, l)) => ancestor_list(nodes@, sel@, k as nat) == Some((*m, l@)),
            None => ancestor_list(nodes@, sel@, k as nat) is None,
        },
{
    match find_trail(nodes, sel) {
        Some((m, p)) => {
            let ghost chain = seq![nodes@] + trail_lists(nodes@, sel@);
            if 1 <= k && k <= p.len() {
                assert(chain[chain.len() - k] == p@[p.len() - k]@);
                Some((m, p[p.len() - k]))
            } else if k >= 1 && k - 1 == p.len() {
                assert(chain[chain.len() - k] == nodes@);
                Some((m, nodes))
            } else {
                None
            }
        },
        None => None,
    }
}


/// The elements among `nodes`, in order.
pub open spec fn element_children(nodes: Seq<Node>) -> Seq<Element>
    decreases nodes.len(),
{
    if nodes.len() == 0 {
        seq![]
    } else {
        element_children(nodes.drop_last()) + match nodes.last() {
            Node::Element(e) => seq![e],
            Node::Text(_) => seq![],
        }
    }
}

/// The elements among `nodes` named `name`, in order.
pub open spec fn children_named(nodes: Seq<Node>, name: Seq<char>) -> Seq<Element>
    decreases nodes.len(),
{
    if nodes.len() == 0 {
        seq![]
    } else {
        children_named(nodes.drop_last(), name) + match nodes.last() {
            Node::Element(e) => if e.name@ == name {
                seq![e]
            } else {
                seq![]
            },
            Node::Text(_) => seq![],
        }
    }
}

/// The texts among `nodes`, in order.
pub open spec fn text_children(nodes: Seq<Node>) -> Seq<Seq<char>>
    decreases nodes.len(),
{
    if nodes.len() == 0 {
        seq![]
    } else {
        text_children(nodes.drop_last()) + match nodes.last() {
            Node::Text(t) => seq![t@],
            Node::Element(_) => seq![],
        }
    }
}

/// The first of `es` that has no attributes.
pub open spec fn first_bare_in(es: Seq<Element>) -> Option<Element>
    decreases es.len(),
{
    if es.len() == 0 {
        None
    } else if es[0].attrs@.len() == 0 {
        Some(es[0])
    } else {
        first_bare_in(es.drop_first())
    }
}

/// The first element among `nodes` that has no attributes.
pub open spec fn first_bare(nodes: Seq<Node>) -> Option<Element> {
    first_bare_in(element_children(nodes))
}

/// The elements among `nodes`, in order.
pub fn elements_of<'a>(nodes: &'a Vec<Node>) -> (r: Vec<&'a Element>)
    ensures
        refs_to(r@, element_children(nodes@)),
{
    let mut out: Vec<&'a Element> = Vec::new();
    let mut i: usize = 0;
    while i < nodes.len()
        invariant
            i <= nodes.len(),
            refs_to(out@, element_children(nodes@.take(i as int))),
        decreases nodes.len() - i,
    {
        assert(nodes@.take(i + 1).drop_last() =~= nodes@.take(i as int));
        assert(nodes@.take(i + 1).last() == nodes@[i as int]);
        let ghost before = element_children(nodes@.take(i as int));
        match &nodes[i] {
            Node::Text(_) => {
                assert(element_children(nodes@.take(i + 1)) =~= before);
            },
            Node::Element(e) => {
                assert(nodes@[i as int] == Node::Element(*e));
                out.push(e);
                assert(element_children(nodes@.take(i + 1)) =~= before.push(*e));
            },
        }
        i = i + 1;
    }
    assert(nodes@.take(nodes.len() as int) =~= nodes@);
    out
}

/// The elements among `nodes` named `name`, in order.
pub fn elements_named<'a>(nodes: &'a Vec<Node>, name: &str) -> (r: Vec<&'a Element>)
    ensures
        refs_to(r@, children_named(nodes@, name@)),
{
    let n = chars_of(name);
    let mut out: Vec<&'a Element> = Vec::new();
    let mut i: usize = 0;
    while i < nodes.len()
        invariant
            n@ == name@,
            i <= nodes.len(),
            refs_to(out@, children_named(nodes@.take(i as int), name@)),
        decreases nodes.len() - i,
    {
        assert(nodes@.take(i + 1).drop_last() =~= nodes@.take(i as int));
        assert(nodes@.take(i + 1).last() == nodes@[i as int]);
        let ghost before = children_named(nodes@.take(i as int), name@);
        match &nodes[i] {
            Node::Text(_) => {
                assert(children_named(nodes@.take(i + 1), name@) =~= before);
            },
            Node::Element(e) => {
                assert(nodes@[i as int] == Node::Element(*e));
                if same_chars(&chars_of(e.name.as_str()), &n) {
                    out.push(e);
                    assert(children_named(nodes@.take(i + 1), name@) =~= before.push(*e));
                } else {
                    assert(children_named(nodes@.take(i + 1), name@) =~= before);
                }
            },
        }
        i = i + 1;
    }
    assert(nodes@.take(nodes.len() as int) =~= nodes@);
    out
}

/// The texts among `nodes`, in order.
pub fn texts_of<'a>(nodes: &'a Vec<Node>) -> (r: Vec<&'a String>)
    ensures
        r@.len() == text_children(nodes@).len(),
        forall|i: int| 0 <= i < r@.len() ==> r@[i]@ == text_children(nodes@)[i],
{
    let mut out: Vec<&'a String> = Vec::new();
    let mut i: usize = 0;
    while i < nodes.len()
        invariant
            i <= nodes.len(),
            out@.len() == text_children(nodes@.take(i as int)).len(),
            forall|k: int| 0 <= k < out@.len() ==> out@[k]@ == text_children(nodes@.take(i as int))[k],
        decreases nodes.len() - i,
    {
        assert(nodes@.take(i + 1).drop_last() =~= nodes@.take(i as int));
        assert(nodes@.take(i + 1).last() == nodes@[i as int]);
        let ghost before = text_children(nodes@.take(i as int));
        match &nodes[i] {
            Node::Text(t) => {
                assert(nodes@[i as int] == Node::Text(*t));
                out.push(t);
                assert(text_children(nodes@.take(i + 1)) =~= before.push(t@));
            },
            Node::Element(e) => {
                assert(text_children(nodes@.take(i + 1)) =~= before);
            },
        }
        i = i + 1;
    }
    assert(nodes@.take(nodes.len() as int) =~= nodes@);
    out
}

/// The first element among `nodes` that has no attributes.
pub fn find_bare<'a>(nodes: &'a Vec<Node>) -> (r: Option<&'a Element>)
    ensures
        match r {
            Some(e) => first_bare(nodes@) == Some(*e),
            None => first_bare(nodes@) is None,
        },
{
    let all = elements_of(nodes);
    let ghost es = element_children(nodes@);
    let mut i: usize = 0;
    assert(es.skip(0) =~= es);
    while i < all.len()
        invariant
            es == element_children(nodes@),
            refs_to(all@, es),
            i <= all.len(),
            first_bare_in(es) == first_bare_in(es.skip(i as int)),
        decreases all.len() - i,
    {
        assert(es.skip(i as int)[0] == es[i as int]);
        assert(es.skip(i as int).drop_first() =~= es.skip(i + 1));
        if all[i].attrs.len() == 0 {
            assert(first_bare_in(es.skip(i as int)) == Some(es[i as int]));
            return Some(all[i]);
        }
        i = i + 1;
    }
    None
}

} // verus!
