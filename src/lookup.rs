//! One lookup of a word, as a state machine: the caller performs each action
//! (read or write the cache, fetch documents, answer) and hands back what came
//! of it. The cache policy and the aggregation decisions live here.
use vstd::prelude::*;
use crate::aggregate::{
    compose, composed, has_definitions, source_url, url_of, DefinitionFindings, Findings, Source,
    Word, WordView,
};
use crate::dom::Node;
use crate::etym::{etymology_of, extract_etymology};
use crate::macmillan::{extract_secondary, secondary_of};
use crate::restrict::{any_infix, Restrictor};
use crate::stock::{extract_images, images_of, images_wanted};
use crate::text::{append_str, lower_of, string_of};
use crate::aggregate::lemma_stamp_reads_back;
use crate::timestamp::{parse_millis, timestamp_of};
use crate::vocab::{extract_primary, primary_of};
use crate::wiki::{extract_wiki, wiki_of};

verus! {

/// What a lookup is configured with, once at startup.
pub struct Config {
    pub restrictor: Restrictor,
    /// How old a cached word may be, in milliseconds, and still be served.
    pub stale_after_ms: u64,
}

/// Where a lookup stands.
#[derive(Clone, Copy, PartialEq, Eq, Debug)]
pub enum Phase {
    Start,
    AwaitCache,
    AwaitDefinitions,
    AwaitExtras,
    Done,
}

/// One lookup of one word.
pub struct Lookup {
    word: String,
    phase: Phase,
    findings: Option<Findings>,
}

/// A lookup as plain values.
pub ghost struct LookupView {
    pub word: Seq<char>,
    pub phase: Phase,
    pub findings: Option<DefinitionFindings>,
}

impl View for Lookup {
    type V = LookupView;

    closed spec fn view(&self) -> LookupView {
        LookupView {
            word: self.word@,
            phase: self.phase,
            findings: match self.findings {
                Some(f) => Some(f@),
                None => None,
            },
        }
    }
}

/// What came of the last action.
pub enum Event {
    Begin,
    /// The cache entry, where there was one and it could be read as a word.
    CacheRead { cached: Option<Word>, now_ms: u64 },
    /// The parsed documents of the definition sources, where fetched.
    DefinitionsFetched {
        primary: Option<Vec<Node>>,
        secondary: Option<Vec<Node>>,
        wiki: Option<Vec<Node>>,
    },
    /// The parsed documents of the etymology site and the imagery source,
    /// where fetched, and the time after.
    ExtrasFetched { etymology: Option<Vec<Node>>, imagery: Option<Vec<Node>>, now_ms: u64 },
}

/// An event as plain values.
pub ghost enum EventView {
    Begin,
    CacheRead { cached: Option<WordView>, now_ms: u64 },
    DefinitionsFetched {
        primary: Option<Seq<Node>>,
        secondary: Option<Seq<Node>>,
        wiki: Option<Seq<Node>>,
    },
    ExtrasFetched { etymology: Option<Seq<Node>>, imagery: Option<Seq<Node>>, now_ms: u64 },
}

/// A document as plain values.
pub open spec fn doc_view(d: Option<Vec<Node>>) -> Option<Seq<Node>> {
    match d {
        Some(v) => Some(v@),
        None => None,
    }
}

impl View for Event {
    type V = EventView;

    open spec fn view(&self) -> EventView {
        match self {
            Event::Begin => EventView::Begin,
            Event::CacheRead { cached, now_ms } => EventView::CacheRead {
                cached: match cached {
                    Some(w) => Some(w@),
                    None => None,
                },
                now_ms: *now_ms,
            },
            Event::DefinitionsFetched { primary, secondary, wiki } => EventView::DefinitionsFetched {
                primary: doc_view(*primary),
                secondary: doc_view(*secondary),
                wiki: doc_view(*wiki),
            },
            Event::ExtrasFetched { etymology, imagery, now_ms } => EventView::ExtrasFetched {
                etymology: doc_view(*etymology),
                imagery: doc_view(*imagery),
                now_ms: *now_ms,
            },
        }
    }
}

/// What the caller is to do next.
pub enum Action {
    /// Add one to the lookup counter under `counter_key`, best effort, and
    /// read the cache entry under `key`.
    ReadCache { key: String, counter_key: String },
    /// Fetch the three definition sources' documents.
    FetchDefinitions { primary: String, secondary: String, wiki: String },
    /// Fetch the etymology document and, where given, the imagery document.
    FetchExtras { etymology: String, imagery: Option<String> },
    /// Store `word` under `key`, replacing what is there, and answer with it.
    StoreAndAnswer { key: String, word: Word },
    /// Answer with the cached word as it is.
    AnswerCached(Word),
    /// Answer that there is no data; nothing is stored.
    AnswerNoData,
    /// The event does not fit the lookup's phase: nothing to do.
    Ignore,
}

/// An action as plain values.
pub ghost enum ActionView {
    ReadCache { key: Seq<char>, counter_key: Seq<char> },
    FetchDefinitions { primary: Seq<char>, secondary: Seq<char>, wiki: Seq<char> },
    FetchExtras { etymology: Seq<char>, imagery: Option<Seq<char>> },
    StoreAndAnswer { key: Seq<char>, word: WordView },
    AnswerCached(WordView),
    AnswerNoData,
    Ignore,
}

impl View for Action {
    type V = ActionView;

    open spec fn view(&self) -> ActionView {
        match self {
            Action::ReadCache { key, counter_key } => ActionView::ReadCache {
                key: key@,
                counter_key: counter_key@,
            },
            Action::FetchDefinitions { primary, secondary, wiki } => ActionView::FetchDefinitions {
                primary: primary@,
                secondary: secondary@,
                wiki: wiki@,
            },
            Action::FetchExtras { etymology, imagery } => ActionView::FetchExtras {
                etymology: etymology@,
                imagery: match imagery {
                    Some(u) => Some(u@),
                    None => None,
                },
            },
            Action::StoreAndAnswer { key, word } => ActionView::StoreAndAnswer {
                key: key@,
                word: word@,
            },
            Action::AnswerCached(w) => ActionView::AnswerCached(w@),
            Action::AnswerNoData => ActionView::AnswerNoData,
            Action::Ignore => ActionView::Ignore,
        }
    }
}

/// The cache key of `word`'s aggregate.
pub open spec fn cache_key(word: Seq<char>) -> Seq<char> {
    "word:"@ + word
}

/// The key of `word`'s lookup counter.
pub open spec fn counter_key(word: Seq<char>) -> Seq<char> {
    "lookups:"@ + word
}

/// A cached word may be served at `now`: its timestamp reads, and it is less
/// than `stale_after` milliseconds old.
pub open spec fn is_fresh(w: WordView, now: u64, stale_after: u64) -> bool {
    match timestamp_of(w.last_updated) {
        Some(t) => now - t < stale_after,
        None => false,
    }
}

/// What the definition sources' documents give for `word`.
pub open spec fn findings_of(
    word: Seq<char>,
    primary: Option<Seq<Node>>,
    secondary: Option<Seq<Node>>,
    wiki: Option<Seq<Node>>,
) -> DefinitionFindings {
    DefinitionFindings {
        primary: match primary {
            Some(d) => primary_of(word, d),
            None => None,
        },
        secondary: match secondary {
            Some(d) => secondary_of(d),
            None => None,
        },
        wiki: match wiki {
            Some(d) => wiki_of(d),
            None => None,
        },
    }
}

/// The lookup's next state and action, with `keys` the restrictor's keywords.
pub open spec fn transition(
    s: LookupView,
    keys: Seq<Seq<char>>,
    stale_after: u64,
    e: EventView,
) -> (LookupView, ActionView) {
    match (s.phase, e) {
        (Phase::Start, EventView::Begin) => (
            LookupView { phase: Phase::AwaitCache, ..s },
            ActionView::ReadCache { key: cache_key(s.word), counter_key: counter_key(s.word) },
        ),
        (Phase::AwaitCache, EventView::CacheRead { cached, now_ms }) => match cached {
            Some(w) if is_fresh(w, now_ms, stale_after) => (
                LookupView { phase: Phase::Done, ..s },
                ActionView::AnswerCached(w),
            ),
            _ => (
                LookupView { phase: Phase::AwaitDefinitions, ..s },
                ActionView::FetchDefinitions {
                    primary: url_of(Source::Primary, s.word),
                    secondary: url_of(Source::Secondary, s.word),
                    wiki: url_of(Source::Wiki, s.word),
                },
            ),
        },
        (Phase::AwaitDefinitions, EventView::DefinitionsFetched { primary, secondary, wiki }) => {
            let f = findings_of(s.word, primary, secondary, wiki);
            if !has_definitions(f) {
                (LookupView { phase: Phase::Done, ..s }, ActionView::AnswerNoData)
            } else {
                (
                    LookupView { phase: Phase::AwaitExtras, findings: Some(f), ..s },
                    ActionView::FetchExtras {
                        etymology: url_of(Source::Etymology, s.word),
                        imagery: if any_infix(lower_of(s.word), keys) {
                            None
                        } else {
                            Some(url_of(Source::Imagery, s.word))
                        },
                    },
                )
            }
        },
        (Phase::AwaitExtras, EventView::ExtrasFetched { etymology, imagery, now_ms }) => match s.findings {
            Some(f) => (
                LookupView { phase: Phase::Done, findings: None, ..s },
                ActionView::StoreAndAnswer {
                    key: cache_key(s.word),
                    word: composed(
                        f,
                        match etymology {
                            Some(d) => etymology_of(s.word, d),
                            None => None,
                        },
                        match imagery {
                            Some(d) => images_of(keys, s.word, d),
                            None => None,
                        },
                        now_ms,
                    ),
                },
            ),
            None => (s, ActionView::Ignore),
        },
        _ => (s, ActionView::Ignore),
    }
}

/// The lookup's invariant: findings are held exactly while extras are
/// awaited, and they hold a definition.
pub open spec fn well_formed(s: LookupView) -> bool {
    &&& (s.phase == Phase::AwaitExtras) == (s.findings is Some)
    &&& s.findings matches Some(f) ==> has_definitions(f)
}

fn prefixed(prefix: &str, word: &str) -> (r: String)
    ensures
        r@ == prefix@ + word@,
{
    let mut out: Vec<char> = Vec::new();
    append_str(&mut out, prefix);
    append_str(&mut out, word);
    assert(out@ =~= prefix@ + word@);
    string_of(&out)
}

impl Config {
    /// Whether the cached `w` may be served at `now`.
    pub fn is_fresh(&self, w: &Word, now: u64) -> (r: bool)
        ensures
            r == is_fresh(w@, now, self.stale_after_ms),
    {
        match parse_millis(w.last_updated.as_str()) {
            Some(t) => now < t || now - t < self.stale_after_ms,
            None => false,
        }
    }
}

impl Lookup {
    /// A lookup of `word`, not yet begun.
    pub fn new(word: String) -> (r: Lookup)
        ensures
            r@ == (LookupView { word: word@, phase: Phase::Start, findings: None }),
    {
        Lookup { word, phase: Phase::Start, findings: None }
    }

    /// Where the lookup stands.
    pub fn phase(&self) -> (r: Phase)
        ensures
            r == self@.phase,
    {
        self.phase
    }

    /// Takes in what came of the last action and says what to do next.
    pub fn step(&mut self, config: &Config, event: Event) -> (r: Action)
        requires
            well_formed(old(self)@),
        ensures
            well_formed(final(self)@),
            (final(self)@, r@) == transition(
                old(self)@,
                config.restrictor.keywords(),
                config.stale_after_ms,
                event@,
            ),
    {
        let ghost e = event@;
        match (self.phase, event) {
            (Phase::Start, Event::Begin) => {
                self.phase = Phase::AwaitCache;
                Action::ReadCache {
                    key: prefixed("word:", self.word.as_str()),
                    counter_key: prefixed("lookups:", self.word.as_str()),
                }
            },
            (Phase::AwaitCache, Event::CacheRead { cached, now_ms }) => {
                match cached {
                    Some(w) => {
                        if config.is_fresh(&w, now_ms) {
                            self.phase = Phase::Done;
                            return Action::AnswerCached(w);
                        }
                    },
                    None => {},
                }
                self.phase = Phase::AwaitDefinitions;
                let w = self.word.as_str();
                Action::FetchDefinitions {
                    primary: source_url(Source::Primary, w),
                    secondary: source_url(Source::Secondary, w),
                    wiki: source_url(Source::Wiki, w),
                }
            },
            (Phase::AwaitDefinitions, Event::DefinitionsFetched { primary, secondary, wiki }) => {
                let w = self.word.as_str();
                let findings = Findings {
                    primary: match &primary {
                        Some(d) => extract_primary(w, d),
                        None => None,
                    },
                    secondary: match &secondary {
                        Some(d) => extract_secondary(d),
                        None => None,
                    },
                    wiki: match &wiki {
                        Some(d) => extract_wiki(d),
                        None => None,
                    },
                };
                if !findings.has_definitions() {
                    self.phase = Phase::Done;
                    return Action::AnswerNoData;
                }
                let etymology = source_url(Source::Etymology, w);
                let imagery = if images_wanted(&config.restrictor, w) {
                    Some(source_url(Source::Imagery, w))
                } else {
                    None
                };
                self.phase = Phase::AwaitExtras;
                self.findings = Some(findings);
                Action::FetchExtras { etymology, imagery }
            },
            (Phase::AwaitExtras, Event::ExtrasFetched { etymology, imagery, now_ms }) => {
                let findings = match self.findings.take() {
                    Some(f) => f,
                    None => return Action::Ignore,
                };
                let w = self.word.as_str();
                let origins = match &etymology {
                    Some(d) => extract_etymology(w, d),
                    None => None,
                };
                let images = match &imagery {
                    Some(d) => extract_images(&config.restrictor, w, d),
                    None => None,
                };
                self.phase = Phase::Done;
                let word = compose(findings, origins, images, now_ms);
                Action::StoreAndAnswer { key: prefixed("word:", w), word }
            },
            _ => Action::Ignore,
        }
    }
}


/// Every word that a lookup stores has a definition from some source.
pub proof fn lemma_stored_word_has_definitions(
    s: LookupView,
    keys: Seq<Seq<char>>,
    stale_after: u64,
    e: EventView,
)
    requires
        well_formed(s),
    ensures
        transition(s, keys, stale_after, e).1 matches ActionView::StoreAndAnswer { word, .. } ==> (
        word.vocab_defs.len() > 0 || word.macmillan_defs.len() > 0 || word.wiki_defs.len() > 0),
{
}

/// A finished lookup ignores whatever comes after.
pub open spec fn finished(s: LookupView, keys: Seq<Seq<char>>, stale_after: u64) -> bool {
    s.phase == Phase::Done && forall|e: EventView| #[trigger] transition(s, keys, stale_after, e).1
        == ActionView::Ignore
}

proof fn lemma_done_ignores(s: LookupView, keys: Seq<Seq<char>>, stale_after: u64)
    requires
        s.phase == Phase::Done,
    ensures
        finished(s, keys, stale_after),
{
}

/// When no definition source has data for the word, the lookup answers that
/// there is none, and no cache entry is written, then or after.
pub proof fn lemma_no_data_stores_nothing(
    s: LookupView,
    keys: Seq<Seq<char>>,
    stale_after: u64,
    primary: Option<Seq<Node>>,
    secondary: Option<Seq<Node>>,
    wiki: Option<Seq<Node>>,
)
    requires
        s.phase == Phase::AwaitDefinitions,
        !has_definitions(findings_of(s.word, primary, secondary, wiki)),
    ensures
        transition(
            s,
            keys,
            stale_after,
            EventView::DefinitionsFetched { primary, secondary, wiki },
        ).1 == ActionView::AnswerNoData,
        finished(
            transition(
                s,
                keys,
                stale_after,
                EventView::DefinitionsFetched { primary, secondary, wiki },
            ).0,
            keys,
            stale_after,
        ),
{
    let t = transition(s, keys, stale_after, EventView::DefinitionsFetched { primary, secondary, wiki }).0;
    lemma_done_ignores(t, keys, stale_after);
}

/// Within the staleness window, two lookups of a word that find the same
/// cache entry both answer with that entry as it is, and neither fetches or
/// extracts anything.
pub proof fn lemma_fresh_entry_served(
    a: LookupView,
    b: LookupView,
    keys: Seq<Seq<char>>,
    stale_after: u64,
    w: WordView,
    now1: u64,
    now2: u64,
)
    requires
        a.phase == Phase::AwaitCache,
        b.phase == Phase::AwaitCache,
        a.word == b.word,
        is_fresh(w, now1, stale_after),
        is_fresh(w, now2, stale_after),
    ensures
        transition(a, keys, stale_after, EventView::CacheRead { cached: Some(w), now_ms: now1 }).1
            == ActionView::AnswerCached(w),
        transition(b, keys, stale_after, EventView::CacheRead { cached: Some(w), now_ms: now2 }).1
            == ActionView::AnswerCached(w),
        finished(
            transition(a, keys, stale_after, EventView::CacheRead { cached: Some(w), now_ms: now1 }).0,
            keys,
            stale_after,
        ),
        finished(
            transition(b, keys, stale_after, EventView::CacheRead { cached: Some(w), now_ms: now2 }).0,
            keys,
            stale_after,
        ),
{
    lemma_done_ignores(
        transition(a, keys, stale_after, EventView::CacheRead { cached: Some(w), now_ms: now1 }).0,
        keys,
        stale_after,
    );
    lemma_done_ignores(
        transition(b, keys, stale_after, EventView::CacheRead { cached: Some(w), now_ms: now2 }).0,
        keys,
        stale_after,
    );
}

/// Once the staleness threshold (a positive one) has elapsed since the cached
/// entry was stamped, the lookup fetches afresh and, where some source has
/// definitions, stores exactly one new word, whose timestamp is later than the
/// old one.
pub proof fn lemma_stale_entry_refreshed(
    s: LookupView,
    keys: Seq<Seq<char>>,
    stale_after: u64,
    w: WordView,
    old_stamp: u64,
    now: u64,
    primary: Option<Seq<Node>>,
    secondary: Option<Seq<Node>>,
    wiki: Option<Seq<Node>>,
    etymology: Option<Seq<Node>>,
    imagery: Option<Seq<Node>>,
    later: u64,
)
    requires
        s.phase == Phase::AwaitCache,
        timestamp_of(w.last_updated) == Some(old_stamp),
        stale_after > 0,
        now - old_stamp >= stale_after,
        later >= now,
        has_definitions(findings_of(s.word, primary, secondary, wiki)),
    ensures
        ({
            let (s1, a1) = transition(
                s,
                keys,
                stale_after,
                EventView::CacheRead { cached: Some(w), now_ms: now },
            );
            let (s2, a2) = transition(
                s1,
                keys,
                stale_after,
                EventView::DefinitionsFetched { primary, secondary, wiki },
            );
            let (s3, a3) = transition(
                s2,
                keys,
                stale_after,
                EventView::ExtrasFetched { etymology, imagery, now_ms: later },
            );
            &&& a1 is FetchDefinitions
            &&& a2 is FetchExtras
            &&& a3 matches ActionView::StoreAndAnswer { key, word } && key == cache_key(s.word)
                && timestamp_of(word.last_updated) == Some(later) && later > old_stamp
            &&& finished(s3, keys, stale_after)
        }),
{
    let (s1, a1) = transition(s, keys, stale_after, EventView::CacheRead { cached: Some(w), now_ms: now });
    let (s2, a2) = transition(s1, keys, stale_after, EventView::DefinitionsFetched { primary, secondary, wiki });
    let (s3, a3) = transition(s2, keys, stale_after, EventView::ExtrasFetched { etymology, imagery, now_ms: later });
    let f = findings_of(s.word, primary, secondary, wiki);
    let e = match etymology {
        Some(d) => etymology_of(s.word, d),
        None => None,
    };
    let i = match imagery {
        Some(d) => images_of(keys, s.word, d),
        None => None,
    };
    lemma_stamp_reads_back(f, e, i, later);
    lemma_done_ignores(s3, keys, stale_after);
}

} // verus!
