//! The text reconstructor: renders the children of an element to display text
//! under a tag policy.
use vstd::prelude::*;
use crate::dom::{Element, Node};
use crate::model::texts;
use crate::text::{
    append_chars, blank_chars, chars_of, is_blank, replace_all, replace_str, same_chars,
    string_of, trim_chars, trimmed,
};

verus! {

/// Which elements a rendering keeps.
pub struct Policy {
    /// Rendered and wrapped again in their own tags (`<b>..</b>`).
    pub wrap_tags: Vec<String>,
    /// Rendered, and wrapped in `<i>..</i>` where `mark_emphasis` holds.
    pub emphasis_tags: Vec<String>,
    pub mark_emphasis: bool,
}

/// A policy as plain values.
pub ghost struct PolicyView {
    pub wrap: Seq<Seq<char>>,
    pub emphasis: Seq<Seq<char>>,
    pub mark: bool,
}

impl View for Policy {
    type V = PolicyView;

    open spec fn view(&self) -> PolicyView {
        PolicyView {
            wrap: self.wrap_tags@.map_values(|t: String| t@),
            emphasis: self.emphasis_tags@.map_values(|t: String| t@),
            mark: self.mark_emphasis,
        }
    }
}

/// `<name>`.
pub open spec fn open_tag(name: Seq<char>) -> Seq<char> {
    seq!['<'] + name + seq!['>']
}

/// `</name>`.
pub open spec fn close_tag(name: Seq<char>) -> Seq<char> {
    seq!['<', '/'] + name + seq!['>']
}

/// The cosmetic rewrites after a walk: trim, collapse a double space, and drop
/// the space before `,`, `!`, `?`, `.` and `)`, in that order.
pub open spec fn tidy(s: Seq<char>) -> Seq<char> {
    let a = replace_all(trimmed(s), seq![' ', ' '], seq![' ']);
    let b = replace_all(a, seq![' ', ','], seq![',']);
    let c = replace_all(b, seq![' ', '!'], seq!['!']);
    let d = replace_all(c, seq![' ', '?'], seq!['?']);
    let e = replace_all(d, seq![' ', '.'], seq!['.']);
    replace_all(e, seq![' ', ')'], seq![')'])
}

/// The walk over `nodes` before the rewrites: each node's piece, in order.
pub open spec fn walk(nodes: Seq<Node>, p: PolicyView) -> Seq<char>
    decreases nodes,
{
    if nodes.len() == 0 {
        seq![]
    } else {
        walk(nodes.drop_last(), p) + piece(nodes.last(), p)
    }
}

/// What one node adds to the walk: a text that is not blank as it stands; a
/// kept element's rendered children, wrapped, and a space; nothing for the rest.
pub open spec fn piece(n: Node, p: PolicyView) -> Seq<char>
    decreases n,
{
    match n {
        Node::Text(t) => if is_blank(t@) {
            seq![]
        } else {
            t@
        },
        Node::Element(e) => if p.wrap.contains(e.name@) {
            open_tag(e.name@) + tidy(walk(e.children@, p)) + close_tag(e.name@) + seq![' ']
        } else if p.emphasis.contains(e.name@) {
            if p.mark {
                open_tag(seq!['i']) + tidy(walk(e.children@, p)) + close_tag(seq!['i']) + seq![' ']
            } else {
                tidy(walk(e.children@, p)) + seq![' ']
            }
        } else {
            seq![]
        },
    }
}

/// The display text of the children `nodes` under policy `p`.
pub open spec fn rendered(nodes: Seq<Node>, p: PolicyView) -> Seq<char> {
    tidy(walk(nodes, p))
}

fn tag_listed(tags: &Vec<String>, name: &Vec<char>) -> (r: bool)
    ensures
        r == tags@.map_values(|t: String| t@).contains(name@),
{
    let ghost views = tags@.map_values(|t: String| t@);
    let mut i: usize = 0;
    while i < tags.len()
        invariant
            i <= tags.len(),
            views == tags@.map_values(|t: String| t@),
            forall|k: int| 0 <= k < i ==> views[k] != name@,
        decreases tags.len() - i,
    {
        if same_chars(&chars_of(tags[i].as_str()), name) {
            assert(views[i as int] == name@);
            return true;
        }
        i = i + 1;
    }
    false
}

fn tidy_chars(s: &Vec<char>) -> (r: Vec<char>)
    ensures
        r@ == tidy(s@),
{
    proof {
        reveal_strlit("  ");
        reveal_strlit(" ");
        reveal_strlit(" ,");
        reveal_strlit(",");
        reveal_strlit(" !");
        reveal_strlit("!");
        reveal_strlit(" ?");
        reveal_strlit("?");
        reveal_strlit(" .");
        reveal_strlit(".");
        reveal_strlit(" )");
        reveal_strlit(")");
    }
    let t = trim_chars(s);
    let a = replace_str(&t, "  ", " ");
    let b = replace_str(&a, " ,", ",");
    let c = replace_str(&b, " !", "!");
    let d = replace_str(&c, " ?", "?");
    let e = replace_str(&d, " .", ".");
    let f = replace_str(&e, " )", ")");
    assert("  "@ =~= seq![' ', ' ']);
    assert(" "@ =~= seq![' ']);
    assert(" ,"@ =~= seq![' ', ',']);
    assert(","@ =~= seq![',']);
    assert(" !"@ =~= seq![' ', '!']);
    assert("!"@ =~= seq!['!']);
    assert(" ?"@ =~= seq![' ', '?']);
    assert("?"@ =~= seq!['?']);
    assert(" ."@ =~= seq![' ', '.']);
    assert("."@ =~= seq!['.']);
    assert(" )"@ =~= seq![' ', ')']);
    assert(")"@ =~= seq![')']);
    f
}

fn push_open_tag(out: &mut Vec<char>, name: &Vec<char>)
    ensures
        final(out)@ == old(out)@ + open_tag(name@),
{
    out.push('<');
    append_chars(out, name);
    out.push('>');
    assert(final(out)@ =~= old(out)@ + open_tag(name@));
}

fn push_close_tag(out: &mut Vec<char>, name: &Vec<char>)
    ensures
        final(out)@ == old(out)@ + close_tag(name@),
{
    out.push('<');
    out.push('/');
    append_chars(out, name);
    out.push('>');
    assert(final(out)@ =~= old(out)@ + close_tag(name@));
}

fn render_nodes(nodes: &Vec<Node>, p: &Policy) -> (r: Vec<char>)
    ensures
        r@ == rendered(nodes@, p@),
    decreases nodes@,
{
    let mut out: Vec<char> = Vec::new();
    let mut i: usize = 0;
    while i < nodes.len()
        invariant
            i <= nodes.len(),
            out@ == walk(nodes@.take(i as int), p@),
        decreases nodes.len() - i,
    {
        assert(nodes@.take(i + 1).drop_last() =~= nodes@.take(i as int));
        assert(nodes@.take(i + 1).last() == nodes@[i as int]);
        let ghost before = out@;
        assert(walk(nodes@.take(i + 1), p@) == walk(nodes@.take(i as int), p@) + piece(
            nodes@[i as int],
            p@,
        ));
        match &nodes[i] {
            Node::Text(t) => {
                assert(nodes@[i as int] == Node::Text(*t));
                let tc = chars_of(t.as_str());
                if !blank_chars(&tc) {
                    append_chars(&mut out, &tc);
                }
                assert(out@ =~= before + piece(nodes@[i as int], p@));
            },
            Node::Element(e) => {
                assert(nodes@[i as int] == Node::Element(*e));
                let name = chars_of(e.name.as_str());
                if tag_listed(&p.wrap_tags, &name) {
                    let inner = render_nodes(&e.children, p);
                    push_open_tag(&mut out, &name);
                    append_chars(&mut out, &inner);
                    push_close_tag(&mut out, &name);
                    out.push(' ');
                    assert(out@ =~= before + piece(nodes@[i as int], p@));
                } else if tag_listed(&p.emphasis_tags, &name) {
                    let inner = render_nodes(&e.children, p);
                    let i_tag = vec!['i'];
                    if p.mark_emphasis {
                        push_open_tag(&mut out, &i_tag);
                    }
                    append_chars(&mut out, &inner);
                    if p.mark_emphasis {
                        push_close_tag(&mut out, &i_tag);
                    }
                    out.push(' ');
                    assert(i_tag@ =~= seq!['i']);
                    assert(out@ =~= before + piece(nodes@[i as int], p@));
                } else {
                    assert(out@ =~= before + piece(nodes@[i as int], p@));
                }
            },
        }
        i = i + 1;
    }
    assert(nodes@.take(nodes.len() as int) =~= nodes@);
    tidy_chars(&out)
}

/// The display text of `e`'s children under `policy`.
pub fn render(e: &Element, policy: &Policy) -> (r: String)
    ensures
        r@ == rendered(e.children@, policy@),
{
    string_of(&render_nodes(&e.children, policy))
}


/// The standard tags wrapped, nothing else kept.
pub open spec fn plain_policy() -> PolicyView {
    policy_of(seq![], seq![], true)
}

/// The tags that every policy wraps again.
pub open spec fn standard_tags() -> Seq<Seq<char>> {
    seq!["b"@, "strong"@, "em"@, "mark"@, "cite"@, "dfn"@]
}

/// The policy that wraps the standard tags and `extra`, and treats `emphasis`
/// as emphasis, marked where `mark` holds.
pub open spec fn policy_of(
    extra: Seq<Seq<char>>,
    emphasis: Seq<Seq<char>>,
    mark: bool,
) -> PolicyView {
    PolicyView { wrap: standard_tags() + extra, emphasis, mark }
}

/// The tag names `names`.
pub fn tag_names(names: &[&str]) -> (r: Vec<String>)
    ensures
        texts(r@) == names@.map_values(|n: &str| n@),
{
    let mut r: Vec<String> = Vec::new();
    let mut i: usize = 0;
    while i < names.len()
        invariant
            i <= names.len(),
            texts(r@) == names@.take(i as int).map_values(|n: &str| n@),
        decreases names.len() - i,
    {
        let ghost r0 = r@;
        let t = String::from_str(names[i]);
        r.push(t);
        assert(texts(r@) =~= texts(r0).push(names@[i as int]@));
        assert(names@.take(i + 1) =~= names@.take(i as int).push(names@[i as int]));
        assert(texts(r@) =~= names@.take(i + 1).map_values(|n: &str| n@));
        i = i + 1;
    }
    assert(names@.take(names.len() as int) =~= names@);
    r
}

impl Policy {
    /// The standard tags wrapped, nothing else kept.
    pub fn plain() -> (r: Policy)
        ensures
            r@ == plain_policy(),
    {
        let none: [&str; 0] = [];
        assert(none@ =~= seq![]);
        let r = Policy::new(&none, &none, true);
        assert(r@.wrap =~= plain_policy().wrap);
        assert(r@.emphasis =~= plain_policy().emphasis);
        r
    }

    /// The policy that wraps the standard tags and `extra`, and treats
    /// `emphasis` as emphasis, marked where `mark` holds.
    pub fn new(extra: &[&str], emphasis: &[&str], mark: bool) -> (r: Policy)
        ensures
            r@ == policy_of(
                extra@.map_values(|n: &str| n@),
                emphasis@.map_values(|n: &str| n@),
                mark,
            ),
    {
        let mut wrap = tag_names(&["b", "strong", "em", "mark", "cite", "dfn"]);
        let ghost std_views = texts(wrap@);
        let more = tag_names(extra);
        let ghost w0 = wrap@;
        let mut i: usize = 0;
        while i < more.len()
            invariant
                i <= more.len(),
                texts(wrap@) == std_views + texts(more@).take(i as int),
            decreases more.len() - i,
        {
            let ghost r0 = wrap@;
            let t = String::from_str(more[i].as_str());
            wrap.push(t);
            assert(texts(wrap@) =~= texts(r0).push(more@[i as int]@));
            assert(texts(more@).take(i + 1) =~= texts(more@).take(i as int).push(more@[i as int]@));
            assert(texts(wrap@) =~= std_views + texts(more@).take(i + 1));
            i = i + 1;
        }
        assert(texts(more@).take(more.len() as int) =~= texts(more@));
        let r = Policy { wrap_tags: wrap, emphasis_tags: tag_names(emphasis), mark_emphasis: mark };
        assert(std_views =~= standard_tags());
        r
    }
}

} // verus!
