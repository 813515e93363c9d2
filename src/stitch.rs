//! The origin stitcher: a state machine over a wiki section's flat run of
//! headings, definition lists and etymology paragraphs. A paragraph belongs to
//! the part of speech whose definitions follow it, not to the heading above it.
use vstd::prelude::*;
use crate::model::{paragraph_break, Definition, DefinitionView, Origin, origin_views, definition_views, texts};
use crate::text::{append_chars, append_str, chars_of, has_prefix, same_text, starts_with_chars, string_of};

verus! {

/// The stitcher's state, and what it has emitted.
pub struct Stitcher {
    /// The normalized text of the last heading.
    pub current_title: String,
    /// Origin text gathered and not yet emitted.
    pub pending: String,
    /// The heading under which the last origin was emitted.
    pub pending_title: String,
    /// The heading of the first definition seen since the last paragraph.
    pub next_def_title: String,
    pub origins: Vec<Origin>,
    pub definitions: Vec<Definition>,
}

/// The stitcher's state as plain values.
pub ghost struct StitchView {
    pub current: Seq<char>,
    pub pending: Seq<char>,
    pub pending_title: Seq<char>,
    pub next_def: Seq<char>,
    pub origins: Seq<(Seq<char>, Seq<char>)>,
    pub definitions: Seq<DefinitionView>,
}

impl View for Stitcher {
    type V = StitchView;

    open spec fn view(&self) -> StitchView {
        StitchView {
            current: self.current_title@,
            pending: self.pending@,
            pending_title: self.pending_title@,
            next_def: self.next_def_title@,
            origins: origin_views(self.origins@),
            definitions: definition_views(self.definitions@),
        }
    }
}

/// The state before the first node.
pub open spec fn initial() -> StitchView {
    StitchView {
        current: seq![],
        pending: seq![],
        pending_title: seq![],
        next_def: seq![],
        origins: seq![],
        definitions: seq![],
    }
}

/// The part of speech of a definition under `title`: a numeral, number or
/// letter counts as a noun.
pub open spec fn part_of_speech_for(title: Seq<char>) -> Seq<char> {
    if title == "numeral"@ || title == "number"@ || title == "letter"@ {
        "noun"@
    } else {
        title
    }
}

/// A heading: its normalized text becomes the current title.
pub open spec fn heading_step(s: StitchView, title: Seq<char>) -> StitchView {
    StitchView { current: title, ..s }
}

/// An item of a definition list, rendered: skipped when empty, else a
/// definition under the current title.
pub open spec fn definition_step(
    s: StitchView,
    meaning: Seq<char>,
    examples: Seq<Seq<char>>,
) -> StitchView {
    if meaning.len() == 0 {
        s
    } else {
        StitchView {
            definitions: s.definitions.push(
                DefinitionView {
                    part_of_speech: part_of_speech_for(s.current),
                    meaning,
                    examples,
                },
            ),
            next_def: if s.next_def.len() == 0 {
                s.current
            } else {
                s.next_def
            },
            ..s
        }
    }
}

/// Whether a paragraph first emits the gathered text.
pub open spec fn flushes_before(s: StitchView) -> bool {
    s.pending.len() > 0 && (s.origins.len() == 0 || s.current != s.pending_title)
        && s.next_def.len() > 0
}

/// A paragraph, rendered: outside an etymology section nothing happens;
/// inside, the gathered text may first be emitted, then the paragraph is
/// gathered.
pub open spec fn paragraph_step(s: StitchView, text: Seq<char>) -> StitchView {
    if !has_prefix(s.current, "etymology"@) {
        s
    } else {
        let t = if flushes_before(s) {
            StitchView {
                origins: s.origins.push((s.next_def, s.pending)),
                pending: seq![],
                pending_title: s.current,
                ..s
            }
        } else {
            s
        };
        StitchView {
            pending: if t.pending.len() > 0 {
                t.pending + paragraph_break() + text
            } else {
                text
            },
            next_def: seq![],
            ..t
        }
    }
}

/// The end of the scan: gathered text is emitted under the next definition
/// title as it stands, empty or not.
pub open spec fn finish_step(s: StitchView) -> StitchView {
    if s.pending.len() > 0 {
        StitchView { origins: s.origins.push((s.next_def, s.pending)), pending: seq![], ..s }
    } else {
        s
    }
}

/// Two paragraphs of an etymology section with no heading between them, after
/// the section's only definition, are emitted as one origin: their texts
/// joined by the paragraph break, under the title of the next definition seen
/// since the first of them, which is none and so empty.
pub proof fn lemma_adjacent_paragraphs_join(
    heading: Seq<char>,
    meaning: Seq<char>,
    examples: Seq<Seq<char>>,
    section: Seq<char>,
    first: Seq<char>,
    second: Seq<char>,
)
    requires
        meaning.len() > 0,
        has_prefix(section, "etymology"@),
        first.len() > 0,
    ensures
        ({
            let s = paragraph_step(
                paragraph_step(
                    heading_step(definition_step(heading_step(initial(), heading), meaning, examples), section),
                    first,
                ),
                second,
            );
            &&& finish_step(s).origins == seq![(Seq::<char>::empty(), first + paragraph_break() + second)]
            &&& s.definitions == seq![
                DefinitionView { part_of_speech: part_of_speech_for(heading), meaning, examples },
            ]
        }),
{
    let s3 = heading_step(definition_step(heading_step(initial(), heading), meaning, examples), section);
    assert(s3.pending.len() == 0);
    let s4 = paragraph_step(s3, first);
    assert(s4.next_def.len() == 0);
    assert(s4.pending == first);
    assert(s4.origins.len() == 0);
    assert(s3.definitions =~= seq![
        DefinitionView { part_of_speech: part_of_speech_for(heading), meaning, examples },
    ]);
}

impl Stitcher {
    /// A stitcher that has seen nothing.
    pub fn new() -> (r: Stitcher)
        ensures
            r@ == initial(),
    {
        let r = Stitcher {
            current_title: String::new(),
            pending: String::new(),
            pending_title: String::new(),
            next_def_title: String::new(),
            origins: Vec::new(),
            definitions: Vec::new(),
        };
        assert(r@.origins =~= seq![]);
        assert(r@.definitions =~= seq![]);
        r
    }

    /// A heading with normalized text `title`.
    pub fn heading(&mut self, title: String)
        ensures
            final(self)@ == heading_step(old(self)@, title@),
    {
        self.current_title = title;
    }

    /// An item of a definition list, rendered.
    pub fn definition(&mut self, meaning: String, examples: Vec<String>)
        ensures
            final(self)@ == definition_step(old(self)@, meaning@, texts(examples@)),
    {
        if meaning.as_str().is_empty() {
            return;
        }
        let t = self.current_title.as_str();
        let pos = if same_text(t, "numeral") || same_text(t, "number") || same_text(t, "letter") {
            String::from_str("noun")
        } else {
            self.current_title.clone()
        };
        let d = Definition { part_of_speech: pos, meaning, examples };
        let ghost before = self.definitions@;
        self.definitions.push(d);
        assert(definition_views(self.definitions@) =~= definition_views(before).push(d@));
        if self.next_def_title.as_str().is_empty() {
            self.next_def_title = self.current_title.clone();
        }
    }

    /// A paragraph, rendered.
    pub fn paragraph(&mut self, text: String)
        ensures
            final(self)@ == paragraph_step(old(self)@, text@),
    {
        let etym = chars_of("etymology");
        if !starts_with_chars(&chars_of(self.current_title.as_str()), &etym) {
            return;
        }
        if !self.pending.as_str().is_empty() && (self.origins.len() == 0 || !same_text(
            self.current_title.as_str(),
            self.pending_title.as_str(),
        )) && !self.next_def_title.as_str().is_empty() {
            let o = Origin {
                part_of_speech: self.next_def_title.clone(),
                origin: self.pending.clone(),
            };
            let ghost before = self.origins@;
            self.origins.push(o);
            assert(origin_views(self.origins@) =~= origin_views(before).push(
                (self.next_def_title@, self.pending@),
            ));
            self.pending = String::new();
            self.pending_title = self.current_title.clone();
        }
        if !self.pending.as_str().is_empty() {
            let mut p = chars_of(self.pending.as_str());
            let br = vec!['<', 'b', 'r', '>'];
            append_chars(&mut p, &br);
            append_str(&mut p, text.as_str());
            assert(br@ =~= paragraph_break());
            self.pending = string_of(&p);
        } else {
            self.pending = text;
        }
        self.next_def_title = String::new();
    }

    /// The end of the scan: the origins and definitions emitted.
    pub fn finish(self) -> (r: (Vec<Origin>, Vec<Definition>))
        ensures
            origin_views(r.0@) == finish_step(self@).origins,
            definition_views(r.1@) == self@.definitions,
    {
        let mut origins = self.origins;
        if !self.pending.as_str().is_empty() {
            let ghost before = origins@;
            origins.push(Origin { part_of_speech: self.next_def_title, origin: self.pending });
            assert(origin_views(origins@) =~= origin_views(before).push(
                (self@.next_def, self@.pending),
            ));
        }
        (origins, self.definitions)
    }
}

} // verus!
