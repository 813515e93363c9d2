//! The records that the extractors produce and the aggregate stores.
use vstd::prelude::*;
use crate::text::{append_chars, append_str, chars_of, string_of};

verus! {

/// One sense of a word.
pub struct Definition {
    pub part_of_speech: String,
    pub meaning: String,
    pub examples: Vec<String>,
}

/// A definition as plain values.
pub ghost struct DefinitionView {
    pub part_of_speech: Seq<char>,
    pub meaning: Seq<char>,
    pub examples: Seq<Seq<char>>,
}

impl View for Definition {
    type V = DefinitionView;

    open spec fn view(&self) -> DefinitionView {
        DefinitionView {
            part_of_speech: self.part_of_speech@,
            meaning: self.meaning@,
            examples: self.examples@.map_values(|x: String| x@),
        }
    }
}

/// Where a word comes from, for one part of speech. Paragraphs of `origin`
/// are separated by `<br>`.
pub struct Origin {
    pub part_of_speech: String,
    pub origin: String,
}

/// An origin as plain values: part of speech, then text.
pub open spec fn origin_view(o: Origin) -> (Seq<char>, Seq<char>) {
    (o.part_of_speech@, o.origin@)
}

/// The views of a list of strings.
pub open spec fn texts(v: Seq<String>) -> Seq<Seq<char>> {
    v.map_values(|x: String| x@)
}

/// The views of a list of definitions.
pub open spec fn definition_views(v: Seq<Definition>) -> Seq<DefinitionView> {
    v.map_values(|d: Definition| d@)
}

/// The views of a list of origins.
pub open spec fn origin_views(v: Seq<Origin>) -> Seq<(Seq<char>, Seq<char>)> {
    v.map_values(|o: Origin| origin_view(o))
}

/// The marker between two paragraphs of one text.
pub open spec fn paragraph_break() -> Seq<char> {
    seq!['<', 'b', 'r', '>']
}

/// `part : meaning`, then one line `- example` for each example.
pub open spec fn described(d: DefinitionView) -> Seq<char> {
    d.part_of_speech + seq![' ', ':', ' '] + d.meaning + example_lines(d.examples)
}

/// `\n- example` for each example, in order.
pub open spec fn example_lines(ex: Seq<Seq<char>>) -> Seq<char>
    decreases ex.len(),
{
    if ex.len() == 0 {
        seq![]
    } else {
        example_lines(ex.drop_last()) + seq!['\n', '-', ' '] + ex.last()
    }
}

impl Definition {
    /// The definition as display text: `part : meaning`, then one line
    /// `- example` for each example.
    pub fn describe(&self) -> (r: String)
        ensures
            r@ == described(self@),
    {
        let mut out = chars_of(self.part_of_speech.as_str());
        out.push(' ');
        out.push(':');
        out.push(' ');
        append_str(&mut out, self.meaning.as_str());
        let ghost head = out@;
        let mut i: usize = 0;
        while i < self.examples.len()
            invariant
                i <= self.examples.len(),
                out@ == head + example_lines(texts(self.examples@).take(i as int)),
            decreases self.examples.len() - i,
        {
            let ghost ex = texts(self.examples@);
            assert(ex.take(i + 1).drop_last() =~= ex.take(i as int));
            let line = vec!['\n', '-', ' '];
            append_chars(&mut out, &line);
            append_str(&mut out, self.examples[i].as_str());
            assert(out@ =~= head + example_lines(ex.take(i + 1)));
            i = i + 1;
        }
        assert(texts(self.examples@).take(self.examples.len() as int) =~= texts(self.examples@));
        assert(out@ =~= described(self@));
        string_of(&out)
    }
}

} // verus!
