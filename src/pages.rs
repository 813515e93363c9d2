//! The site's pages, by what they show, and the answer of the programmatic
//! interface when there is nothing to say.
use vstd::prelude::*;

verus! {

/// A page of the site.
pub enum Page {
    /// The front page.
    Index,
    /// The page that looks up a word.
    Define(String),
    /// The page for an address that leads nowhere, with a face on it.
    NotFound(String),
}

/// The number of faces the not-found page chooses among.
pub const FACE_COUNT: usize = 11;

/// The faces of the not-found page.
pub open spec fn face_of(i: nat) -> Seq<char> {
    if i == 0 {
        "pwp"@
    } else if i == 1 {
        "TwT"@
    } else if i == 2 {
        "x-x"@
    } else if i == 3 {
        "<(X_X)>"@
    } else if i == 4 {
        "-w-"@
    } else if i == 5 {
        "(>_<)"@
    } else if i == 6 {
        "(·.·)"@
    } else if i == 7 {
        "(≥o≤)"@
    } else if i == 8 {
        "(·_·)"@
    } else if i == 9 {
        "\\(o_o)/"@
    } else {
        "(;-;)"@
    }
}

fn face(i: usize) -> (r: &'static str)
    requires
        i < FACE_COUNT,
    ensures
        r@ == face_of(i as nat),
{
    if i == 0 {
        "pwp"
    } else if i == 1 {
        "TwT"
    } else if i == 2 {
        "x-x"
    } else if i == 3 {
        "<(X_X)>"
    } else if i == 4 {
        "-w-"
    } else if i == 5 {
        "(>_<)"
    } else if i == 6 {
        "(·.·)"
    } else if i == 7 {
        "(≥o≤)"
    } else if i == 8 {
        "(·_·)"
    } else if i == 9 {
        "\\(o_o)/"
    } else {
        "(;-;)"
    }
}

/// Relies on rand's `thread_rng` and `Rng::gen_range`: a number in `0..n`,
/// which panics only on an empty range.
#[verifier::external_body]
fn random_below(n: usize) -> (r: usize)
    requires
        n > 0,
    ensures
        r < n,
{
    rand::Rng::gen_range(&mut rand::thread_rng(), 0..n)
}

/// The front page.
pub fn index() -> (r: Page)
    ensures
        r is Index,
{
    Page::Index
}

/// The page that looks up `word`.
pub fn define(word: String) -> (r: Page)
    ensures
        r matches Page::Define(w) && w@ == word@,
{
    Page::Define(word)
}

/// The not-found page with face number `pick`, counted round the faces.
pub fn not_found_page(pick: usize) -> (r: Page)
    ensures
        r matches Page::NotFound(f) && f@ == face_of((pick % FACE_COUNT) as nat),
{
    Page::NotFound(String::from_str(face(pick % FACE_COUNT)))
}

/// The not-found page, with a face chosen at random.
pub fn general_not_found() -> (r: Page)
    ensures
        r matches Page::NotFound(f) && exists|i: nat| i < FACE_COUNT && f@ == face_of(i),
{
    let pick = random_below(FACE_COUNT);
    let r = not_found_page(pick);
    assert(pick % FACE_COUNT == pick);
    r
}

/// The answer of the programmatic interface where there is nothing to give:
/// an empty object.
pub fn api_not_found() -> (r: &'static str)
    ensures
        r@ == "{}"@,
{
    "{}"
}

} // verus!
