//! The aggregate record: what each source found, merged into one word, with
//! the contributing sources listed once each in priority order.
use vstd::prelude::*;
use crate::model::{definition_views, origin_views, texts, Definition, DefinitionView, Origin};
use crate::macmillan::group_views;
use crate::text::{append_str, string_of};
use crate::timestamp::{decimal_text, format_millis, lemma_timestamp_round_trip, timestamp_of};
use crate::vocab::{opt_text, PrimaryEntry};

verus! {

/// The sources, in priority order.
#[derive(Clone, Copy, PartialEq, Eq, Debug)]
pub enum Source {
    Primary,
    Secondary,
    Wiki,
    Etymology,
    Imagery,
}

/// The identifier that a source contributes to `sources`: its host.
pub open spec fn source_id(s: Source) -> Seq<char> {
    match s {
        Source::Primary => "www.vocabulary.com"@,
        Source::Secondary => "www.macmillandictionary.com"@,
        Source::Wiki => "en.wiktionary.org"@,
        Source::Etymology => "www.etymonline.com"@,
        Source::Imagery => "stock.adobe.com"@,
    }
}

/// The source's place in the priority order.
pub open spec fn priority(s: Source) -> int {
    match s {
        Source::Primary => 0,
        Source::Secondary => 1,
        Source::Wiki => 2,
        Source::Etymology => 3,
        Source::Imagery => 4,
    }
}

/// The address of the document that `s` offers for `word`.
pub open spec fn url_of(s: Source, word: Seq<char>) -> Seq<char> {
    match s {
        Source::Primary => "https://www.vocabulary.com/dictionary/definition.ajax?search="@ + word
            + "&lang=en"@,
        Source::Secondary => "https://www.macmillandictionary.com/us/dictionary/american/"@ + word,
        Source::Wiki => "https://en.wiktionary.org/wiki/"@ + word,
        Source::Etymology => "https://www.etymonline.com/search?q="@ + word,
        Source::Imagery => "https://stock.adobe.com/search?k="@ + word,
    }
}

/// The identifier of `s`.
pub fn source_name(s: Source) -> (r: &'static str)
    ensures
        r@ == source_id(s),
{
    match s {
        Source::Primary => "www.vocabulary.com",
        Source::Secondary => "www.macmillandictionary.com",
        Source::Wiki => "en.wiktionary.org",
        Source::Etymology => "www.etymonline.com",
        Source::Imagery => "stock.adobe.com",
    }
}

/// The address of the document that `s` offers for `word`.
pub fn source_url(s: Source, word: &str) -> (r: String)
    ensures
        r@ == url_of(s, word@),
{
    let mut out: Vec<char> = Vec::new();
    match s {
        Source::Primary => {
            append_str(&mut out, "https://www.vocabulary.com/dictionary/definition.ajax?search=");
            append_str(&mut out, word);
            append_str(&mut out, "&lang=en");
        },
        Source::Secondary => {
            append_str(&mut out, "https://www.macmillandictionary.com/us/dictionary/american/");
            append_str(&mut out, word);
        },
        Source::Wiki => {
            append_str(&mut out, "https://en.wiktionary.org/wiki/");
            append_str(&mut out, word);
        },
        Source::Etymology => {
            append_str(&mut out, "https://www.etymonline.com/search?q=");
            append_str(&mut out, word);
        },
        Source::Imagery => {
            append_str(&mut out, "https://stock.adobe.com/search?k=");
            append_str(&mut out, word);
        },
    }
    assert(out@ =~= url_of(s, word@));
    string_of(&out)
}

/// The unified record for one word.
pub struct Word {
    /// The short overview, then the long one, each where there is one.
    pub overview: Vec<String>,
    pub vocab_defs: Vec<Definition>,
    pub macmillan_defs: Vec<Vec<Definition>>,
    pub wiki_defs: Vec<Definition>,
    pub etym_origins: Vec<Origin>,
    pub wiki_origins: Vec<Origin>,
    pub stock_images: Vec<String>,
    pub sources: Vec<String>,
    /// Milliseconds since the Unix epoch at construction, in decimal.
    pub last_updated: String,
}

/// A word as plain values.
pub ghost struct WordView {
    pub overview: Seq<Seq<char>>,
    pub vocab_defs: Seq<DefinitionView>,
    pub macmillan_defs: Seq<Seq<DefinitionView>>,
    pub wiki_defs: Seq<DefinitionView>,
    pub etym_origins: Seq<(Seq<char>, Seq<char>)>,
    pub wiki_origins: Seq<(Seq<char>, Seq<char>)>,
    pub stock_images: Seq<Seq<char>>,
    pub sources: Seq<Seq<char>>,
    pub last_updated: Seq<char>,
}

impl View for Word {
    type V = WordView;

    open spec fn view(&self) -> WordView {
        WordView {
            overview: texts(self.overview@),
            vocab_defs: definition_views(self.vocab_defs@),
            macmillan_defs: group_views(self.macmillan_defs@),
            wiki_defs: definition_views(self.wiki_defs@),
            etym_origins: origin_views(self.etym_origins@),
            wiki_origins: origin_views(self.wiki_origins@),
            stock_images: texts(self.stock_images@),
            sources: texts(self.sources@),
            last_updated: self.last_updated@,
        }
    }
}

/// What the three definition sources found, as plain values.
pub ghost struct DefinitionFindings {
    pub primary: Option<(Option<Seq<char>>, Option<Seq<char>>, Seq<DefinitionView>)>,
    pub secondary: Option<Seq<Seq<DefinitionView>>>,
    pub wiki: Option<(Seq<(Seq<char>, Seq<char>)>, Seq<DefinitionView>)>,
}

/// What the three definition sources found.
pub struct Findings {
    pub primary: Option<PrimaryEntry>,
    pub secondary: Option<Vec<Vec<Definition>>>,
    pub wiki: Option<(Vec<Origin>, Vec<Definition>)>,
}

impl View for Findings {
    type V = DefinitionFindings;

    open spec fn view(&self) -> DefinitionFindings {
        DefinitionFindings {
            primary: match self.primary {
                Some(e) => Some(
                    (
                        opt_text(e.short_overview),
                        opt_text(e.long_overview),
                        definition_views(e.definitions@),
                    ),
                ),
                None => None,
            },
            secondary: match self.secondary {
                Some(g) => Some(group_views(g@)),
                None => None,
            },
            wiki: match self.wiki {
                Some((o, d)) => Some((origin_views(o@), definition_views(d@))),
                None => None,
            },
        }
    }
}

/// The primary definitions found.
pub open spec fn primary_defs(f: DefinitionFindings) -> Seq<DefinitionView> {
    match f.primary {
        Some((_, _, d)) => d,
        None => seq![],
    }
}

/// The sense groups found.
pub open spec fn secondary_groups(f: DefinitionFindings) -> Seq<Seq<DefinitionView>> {
    match f.secondary {
        Some(g) => g,
        None => seq![],
    }
}

/// The wiki's definitions found.
pub open spec fn found_wiki_defs(f: DefinitionFindings) -> Seq<DefinitionView> {
    match f.wiki {
        Some((_, d)) => d,
        None => seq![],
    }
}

/// The wiki's origins found.
pub open spec fn found_wiki_origins(f: DefinitionFindings) -> Seq<(Seq<char>, Seq<char>)> {
    match f.wiki {
        Some((o, _)) => o,
        None => seq![],
    }
}

/// The overviews found: the short one, then the long one.
pub open spec fn overviews(f: DefinitionFindings) -> Seq<Seq<char>> {
    match f.primary {
        Some((s, l, _)) => (match s {
            Some(t) => seq![t],
            None => seq![],
        }) + (match l {
            Some(t) => seq![t],
            None => seq![],
        }),
        None => seq![],
    }
}

/// Some definition source found a definition: the condition for a word to
/// exist at all.
pub open spec fn has_definitions(f: DefinitionFindings) -> bool {
    primary_defs(f).len() > 0 || secondary_groups(f).len() > 0 || found_wiki_defs(f).len() > 0
}

/// `s` in a list, where `c` holds.
pub open spec fn listed_if(c: bool, s: Source) -> Seq<Seq<char>> {
    if c {
        seq![source_id(s)]
    } else {
        seq![]
    }
}

/// The identifiers of the sources that contributed, in priority order.
pub open spec fn sources_list(
    primary: bool,
    secondary: bool,
    wiki: bool,
    etymology: bool,
    imagery: bool,
) -> Seq<Seq<char>> {
    listed_if(primary, Source::Primary) + listed_if(secondary, Source::Secondary) + listed_if(
        wiki,
        Source::Wiki,
    ) + listed_if(etymology, Source::Etymology) + listed_if(imagery, Source::Imagery)
}

/// The word made of the definition findings `f`, the etymology site's origins,
/// the images, at `now` milliseconds.
pub open spec fn composed(
    f: DefinitionFindings,
    etymology: Option<Seq<(Seq<char>, Seq<char>)>>,
    images: Option<Seq<Seq<char>>>,
    now: u64,
) -> WordView {
    WordView {
        overview: overviews(f),
        vocab_defs: primary_defs(f),
        macmillan_defs: secondary_groups(f),
        wiki_defs: found_wiki_defs(f),
        etym_origins: match etymology {
            Some(o) => o,
            None => seq![],
        },
        wiki_origins: found_wiki_origins(f),
        stock_images: match images {
            Some(i) => i,
            None => seq![],
        },
        sources: sources_list(
            overviews(f).len() > 0 || primary_defs(f).len() > 0,
            secondary_groups(f).len() > 0,
            found_wiki_defs(f).len() > 0 || found_wiki_origins(f).len() > 0,
            etymology matches Some(o) && o.len() > 0,
            images matches Some(i) && i.len() > 0,
        ),
        last_updated: decimal_text(now as nat),
    }
}

fn add_source(sources: &mut Vec<String>, c: bool, s: Source)
    ensures
        texts(final(sources)@) == texts(old(sources)@) + listed_if(c, s),
{
    if c {
        let ghost s0 = sources@;
        sources.push(String::from_str(source_name(s)));
        assert(texts(sources@) =~= texts(s0) + listed_if(c, s));
    } else {
        assert(texts(sources@) =~= texts(sources@) + listed_if(c, s));
    }
}

impl Findings {
    /// Whether some definition source found a definition.
    pub fn has_definitions(&self) -> (r: bool)
        ensures
            r == has_definitions(self@),
    {
        let p = match &self.primary {
            Some(e) => e.definitions.len() > 0,
            None => false,
        };
        let s = match &self.secondary {
            Some(g) => g.len() > 0,
            None => false,
        };
        let w = match &self.wiki {
            Some((_, d)) => d.len() > 0,
            None => false,
        };
        p || s || w
    }
}

/// The word made of `findings`, the etymology site's origins and the images,
/// stamped with `now`.
pub fn compose(
    findings: Findings,
    etymology: Option<Vec<Origin>>,
    images: Option<Vec<String>>,
    now: u64,
) -> (r: Word)
    ensures
        r@ == composed(
            findings@,
            match etymology {
                Some(o) => Some(origin_views(o@)),
                None => None,
            },
            match images {
                Some(i) => Some(texts(i@)),
                None => None,
            },
            now,
        ),
{
    let ghost f = findings@;
    let mut overview: Vec<String> = Vec::new();
    let mut vocab_defs: Vec<Definition> = Vec::new();
    match findings.primary {
        Some(e) => {
            match e.short_overview {
                Some(t) => overview.push(t),
                None => {},
            }
            match e.long_overview {
                Some(t) => overview.push(t),
                None => {},
            }
            vocab_defs = e.definitions;
        },
        None => {},
    }
    assert(texts(overview@) =~= overviews(f));
    assert(definition_views(vocab_defs@) =~= primary_defs(f));
    let macmillan_defs = match findings.secondary {
        Some(g) => g,
        None => Vec::new(),
    };
    assert(group_views(macmillan_defs@) =~= secondary_groups(f));
    let (wiki_origins, wiki_defs) = match findings.wiki {
        Some((o, d)) => (o, d),
        None => (Vec::new(), Vec::new()),
    };
    assert(origin_views(wiki_origins@) =~= found_wiki_origins(f));
    assert(definition_views(wiki_defs@) =~= found_wiki_defs(f));
    let etym_origins = match etymology {
        Some(o) => o,
        None => Vec::new(),
    };
    let stock_images = match images {
        Some(i) => i,
        None => Vec::new(),
    };
    let mut sources: Vec<String> = Vec::new();
    assert(texts(sources@) =~= seq![]);
    add_source(&mut sources, overview.len() > 0 || vocab_defs.len() > 0, Source::Primary);
    add_source(&mut sources, macmillan_defs.len() > 0, Source::Secondary);
    add_source(&mut sources, wiki_defs.len() > 0 || wiki_origins.len() > 0, Source::Wiki);
    add_source(&mut sources, etym_origins.len() > 0, Source::Etymology);
    add_source(&mut sources, stock_images.len() > 0, Source::Imagery);
    let r = Word {
        overview,
        vocab_defs,
        macmillan_defs,
        wiki_defs,
        etym_origins,
        wiki_origins,
        stock_images,
        sources,
        last_updated: format_millis(now),
    };
    assert(r@.etym_origins =~= composed(
        f,
        match etymology {
            Some(o) => Some(origin_views(o@)),
            None => None,
        },
        match images {
            Some(i) => Some(texts(i@)),
            None => None,
        },
        now,
    ).etym_origins);
    assert(r@.stock_images =~= composed(
        f,
        match etymology {
            Some(o) => Some(origin_views(o@)),
            None => None,
        },
        match images {
            Some(i) => Some(texts(i@)),
            None => None,
        },
        now,
    ).stock_images);
    r
}


/// The place in the priority order of the source with identifier `id`; past
/// the end for any other text.
pub open spec fn id_priority(id: Seq<char>) -> int {
    if id == source_id(Source::Primary) {
        0
    } else if id == source_id(Source::Secondary) {
        1
    } else if id == source_id(Source::Wiki) {
        2
    } else if id == source_id(Source::Etymology) {
        3
    } else if id == source_id(Source::Imagery) {
        4
    } else {
        5
    }
}

/// An aggregate lists each contributing source once, in priority order.
pub proof fn lemma_sources_in_priority_order(
    f: DefinitionFindings,
    etymology: Option<Seq<(Seq<char>, Seq<char>)>>,
    images: Option<Seq<Seq<char>>>,
    now: u64,
)
    ensures
        composed(f, etymology, images, now).sources.no_duplicates(),
        forall|i: int, j: int|
            0 <= i < j < composed(f, etymology, images, now).sources.len() ==> id_priority(
                #[trigger] composed(f, etymology, images, now).sources[i],
            ) < id_priority(#[trigger] composed(f, etymology, images, now).sources[j]),
{
    reveal_strlit("www.vocabulary.com");
    reveal_strlit("www.macmillandictionary.com");
    reveal_strlit("en.wiktionary.org");
    reveal_strlit("www.etymonline.com");
    reveal_strlit("stock.adobe.com");
    let a = source_id(Source::Primary);
    let b = source_id(Source::Secondary);
    let c = source_id(Source::Wiki);
    let d = source_id(Source::Etymology);
    let e = source_id(Source::Imagery);
    assert(a.len() == 18 && b.len() == 27 && c.len() == 17 && d.len() == 18 && e.len() == 15);
    assert(a[4] != d[4]);
    assert(id_priority(a) == 0 && id_priority(b) == 1 && id_priority(c) == 2 && id_priority(d) == 3
        && id_priority(e) == 4);
    let s = composed(f, etymology, images, now).sources;
    assert forall|i: int, j: int| 0 <= i < j < s.len() implies id_priority(#[trigger] s[i])
        < id_priority(#[trigger] s[j]) by {
    }
    assert(s.no_duplicates()) by {
        assert forall|i: int, j: int| 0 <= i < s.len() && 0 <= j < s.len() && i != j implies s[i]
            != s[j] by {
            if i < j {
                assert(id_priority(s[i]) < id_priority(s[j]));
            } else {
                assert(id_priority(s[j]) < id_priority(s[i]));
            }
        }
    }
}

/// The timestamp that an aggregate is stamped with reads back from its text.
pub proof fn lemma_stamp_reads_back(
    f: DefinitionFindings,
    etymology: Option<Seq<(Seq<char>, Seq<char>)>>,
    images: Option<Seq<Seq<char>>>,
    now: u64,
)
    ensures
        timestamp_of(composed(f, etymology, images, now).last_updated) == Some(now),
{
    lemma_timestamp_round_trip(now);
}

} // verus!
