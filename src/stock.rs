//! Stock imagery: up to six image addresses whose alt text passes the
//! restrictor.
use vstd::prelude::*;
use crate::dom::{attr, attr_of, find_first, first_match, matches_in, refs_to, select_all, Element, Node, Selector, SelectorView};
use crate::model::texts;
use crate::restrict::{any_infix, Restrictor};
use crate::text::lower_of;

verus! {

/// The most images taken from one document.
pub const MAX_IMAGES: usize = 6;

/// The scan over the result cells `cells`, with `keys` the restrictor's
/// keywords: a cell without an image, or an image without `alt` or `src`,
/// spoils the whole scan unless enough images were taken before it.
pub open spec fn image_scan(keys: Seq<Seq<char>>, cells: Seq<Element>) -> Option<Seq<Seq<char>>>
    decreases cells.len(),
{
    if cells.len() == 0 {
        Some(seq![])
    } else {
        match image_scan(keys, cells.drop_last()) {
            None => None,
            Some(acc) => if acc.len() >= MAX_IMAGES {
                Some(acc)
            } else {
                match first_match(cells.last().children@, SelectorView::Tag("img"@)) {
                    None => None,
                    Some(img) => match attr_of(img.attrs@, "alt"@) {
                        None => None,
                        Some(alt) => if any_infix(lower_of(alt), keys) {
                            Some(acc)
                        } else {
                            match attr_of(img.attrs@, "src"@) {
                                None => None,
                                Some(src) => Some(acc.push(src)),
                            }
                        },
                    },
                }
            },
        }
    }
}

/// What the imagery document `doc` gives for `word`: nothing where the word
/// itself is restricted, or where no image is taken.
pub open spec fn images_of(keys: Seq<Seq<char>>, word: Seq<char>, doc: Seq<Node>) -> Option<
    Seq<Seq<char>>,
> {
    if any_infix(lower_of(word), keys) {
        None
    } else {
        match image_scan(
            keys,
            matches_in(doc, SelectorView::Class("search-result-cell"@)),
        ) {
            Some(imgs) => if imgs.len() > 0 {
                Some(imgs)
            } else {
                None
            },
            None => None,
        }
    }
}

/// Whether images are looked for at all for `word`.
pub fn images_wanted(restrictor: &Restrictor, word: &str) -> (r: bool)
    ensures
        r == !any_infix(lower_of(word@), restrictor.keywords()),
{
    !restrictor.is_restricted(word)
}

/// The image addresses that the imagery document `doc` gives for `word`.
pub fn extract_images(restrictor: &Restrictor, word: &str, doc: &Vec<Node>) -> (r: Option<Vec<String>>)
    ensures
        match r {
            Some(v) => images_of(restrictor.keywords(), word@, doc@) == Some(texts(v@)),
            None => images_of(restrictor.keywords(), word@, doc@) is None,
        },
{
    if !images_wanted(restrictor, word) {
        return None;
    }
    let cells = select_all(doc, &Selector::Class(String::from_str("search-result-cell")));
    let ghost cs = matches_in(doc@, SelectorView::Class("search-result-cell"@));
    let ghost keys = restrictor.keywords();
    let img_sel = Selector::Tag(String::from_str("img"));
    let mut imgs: Vec<String> = Vec::new();
    let mut i: usize = 0;
    assert(cs.take(0) =~= Seq::<Element>::empty());
    assert(texts(imgs@) =~= seq![]);
    while i < cells.len()
        invariant
            img_sel@ == SelectorView::Tag("img"@),
            keys == restrictor.keywords(),
            !any_infix(lower_of(word@), keys),
            cs == matches_in(doc@, SelectorView::Class("search-result-cell"@)),
            refs_to(cells@, cs),
            i <= cells.len(),
            image_scan(keys, cs.take(i as int)) == Some(texts(imgs@)),
        decreases cells.len() - i,
    {
        assert(cs.take(i + 1).drop_last() =~= cs.take(i as int));
        assert(cs.take(i + 1).last() == cs[i as int]);
        if imgs.len() < MAX_IMAGES {
            let img = match find_first(&cells[i].children, &img_sel) {
                Some(e) => e,
                None => {
                    proof {
                        lemma_scan_fails(keys, cs, i + 1);
                    }
                    return None;
                },
            };
            let alt = match attr(img, "alt") {
                Some(a) => a,
                None => {
                    proof {
                        lemma_scan_fails(keys, cs, i + 1);
                    }
                    return None;
                },
            };
            if !restrictor.is_restricted(alt.as_str()) {
                match attr(img, "src") {
                    Some(src) => {
                        let ghost r0 = imgs@;
                        let s = src.clone();
                        imgs.push(s);
                        assert(texts(imgs@) =~= texts(r0).push(src@));
                    },
                    None => {
                        proof {
                            lemma_scan_fails(keys, cs, i + 1);
                        }
                        return None;
                    },
                }
            }
        }
        i = i + 1;
    }
    assert(cs.take(cells.len() as int) =~= cs);
    if imgs.len() > 0 {
        Some(imgs)
    } else {
        None
    }
}

proof fn lemma_scan_fails(keys: Seq<Seq<char>>, cells: Seq<Element>, n: int)
    requires
        0 <= n <= cells.len(),
        image_scan(keys, cells.take(n)) is None,
    ensures
        image_scan(keys, cells) is None,
    decreases cells.len() - n,
{
    if n < cells.len() {
        assert(cells.take(n + 1).drop_last() =~= cells.take(n));
        lemma_scan_fails(keys, cells, n + 1);
    } else {
        assert(cells.take(n) =~= cells);
    }
}

} // verus!
