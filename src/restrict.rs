//! The content restrictor: a fixed list of blocked keywords, matched without
//! regard to case.
use vstd::prelude::*;
use crate::model::texts;
use crate::text::{chars_of, contains_chars, has_infix, lower_of, lowercase};

verus! {

/// Blocked keywords, held in lower case.
pub struct Restrictor {
    folded: Vec<String>,
}

/// Some keyword of `keys` occurs in `text`.
pub open spec fn any_infix(text: Seq<char>, keys: Seq<Seq<char>>) -> bool {
    exists|i: int| 0 <= i < keys.len() && has_infix(text, #[trigger] keys[i])
}

impl Restrictor {
    /// The keywords, in lower case.
    pub closed spec fn keywords(&self) -> Seq<Seq<char>> {
        self.folded@.map_values(|k: String| k@)
    }

    /// A restrictor that blocks `keywords`.
    pub fn new(keywords: Vec<String>) -> (r: Restrictor)
        ensures
            r.keywords().len() == keywords@.len(),
            forall|i: int|
                0 <= i < keywords@.len() ==> r.keywords()[i] == lower_of(#[trigger] keywords@[i]@),
    {
        let mut folded: Vec<String> = Vec::new();
        let mut i: usize = 0;
        while i < keywords.len()
            invariant
                i <= keywords.len(),
                folded.len() == i,
                forall|k: int| 0 <= k < i ==> folded@[k]@ == lower_of(#[trigger] keywords@[k]@),
            decreases keywords.len() - i,
        {
            folded.push(lowercase(keywords[i].as_str()));
            i = i + 1;
        }
        Restrictor { folded }
    }

    /// A restrictor that blocks `keys`, which are already in lower case.
    pub fn from_folded(keys: Vec<String>) -> (r: Restrictor)
        ensures
            r.keywords() == texts(keys@),
    {
        Restrictor { folded: keys }
    }

    /// Whether a keyword occurs in `folded`, a text already in lower case.
    pub fn matches_folded(&self, folded: &str) -> (r: bool)
        ensures
            r == any_infix(folded@, self.keywords()),
    {
        let t = chars_of(folded);
        let mut i: usize = 0;
        while i < self.folded.len()
            invariant
                t@ == folded@,
                i <= self.folded.len(),
                forall|k: int| 0 <= k < i ==> !has_infix(folded@, #[trigger] self.keywords()[k]),
            decreases self.folded.len() - i,
        {
            if contains_chars(&t, &chars_of(self.folded[i].as_str())) {
                assert(has_infix(folded@, self.keywords()[i as int]));
                return true;
            }
            i = i + 1;
        }
        false
    }

    /// Whether a keyword occurs in `text`, case aside.
    pub fn is_restricted(&self, text: &str) -> (r: bool)
        ensures
            r == any_infix(lower_of(text@), self.keywords()),
    {
        self.matches_folded(lowercase(text).as_str())
    }
}

} // verus!
