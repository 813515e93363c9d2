use lexicon::aggregate::{compose, source_name, source_url, Findings, Source, Word};
use lexicon::dom::{Element, Node};
use lexicon::lookup::{Action, Config, Event, Lookup, Phase};
use lexicon::model::{Definition, Origin};
use lexicon::pages::{api_not_found, define, general_not_found, index, not_found_page, Page};
use lexicon::restrict::Restrictor;
use lexicon::text::{chars_of, same_text, string_of};
use lexicon::timestamp::{format_millis, parse_millis};
use lexicon::vocab::PrimaryEntry;

fn text(s: &str) -> Node {
    Node::Text(s.to_string())
}

fn el(name: &str, attrs: &[(&str, &str)], children: Vec<Node>) -> Node {
    Node::Element(Element {
        name: name.to_string(),
        attrs: attrs.iter().map(|(k, v)| (k.to_string(), v.to_string())).collect(),
        children,
    })
}

fn config(stale: u64) -> Config {
    Config { restrictor: Restrictor::new(vec!["gore".to_string()]), stale_after_ms: stale }
}

fn def(m: &str) -> Definition {
    Definition { part_of_speech: "noun".to_string(), meaning: m.to_string(), examples: vec![] }
}

fn cached_word(stamp: &str) -> Word {
    Word {
        overview: vec![],
        vocab_defs: vec![def("cached")],
        macmillan_defs: vec![],
        wiki_defs: vec![],
        etym_origins: vec![],
        wiki_origins: vec![],
        stock_images: vec![],
        sources: vec!["www.vocabulary.com".to_string()],
        last_updated: stamp.to_string(),
    }
}

fn begin(word: &str, cfg: &Config) -> Lookup {
    let mut l = Lookup::new(word.to_string());
    match l.step(cfg, Event::Begin) {
        Action::ReadCache { key, counter_key } => {
            assert_eq!(key, format!("word:{}", word));
            assert_eq!(counter_key, format!("lookups:{}", word));
        }
        _ => panic!("expected a cache read"),
    }
    l
}

fn wiki_doc() -> Vec<Node> {
    vec![el(
        "body",
        &[],
        vec![
            el("h2", &[], vec![el("span", &[("id", "English")], vec![])]),
            el("h3", &[], vec![el("span", &[("class", "mw-headline")], vec![text("Noun")])]),
            el("ol", &[], vec![el("li", &[], vec![text("a rodent")])]),
        ],
    )]
}

#[test]
fn timestamps_format_and_parse() {
    assert_eq!(format_millis(0), "0");
    assert_eq!(format_millis(1700000000123), "1700000000123");
    assert_eq!(parse_millis("1700000000123"), Some(1700000000123));
    assert_eq!(parse_millis("18446744073709551615"), Some(u64::MAX));
    assert_eq!(parse_millis("18446744073709551616"), None);
    assert_eq!(parse_millis(""), None);
    assert_eq!(parse_millis("12a"), None);
    assert_eq!(parse_millis(&format_millis(987654321)), Some(987654321));
}

#[test]
fn fresh_entry_is_served_twice_without_fetching() {
    let cfg = config(1000);
    for now in [5000u64, 5500] {
        let mut l = begin("mouse", &cfg);
        match l.step(&cfg, Event::CacheRead { cached: Some(cached_word("5000")), now_ms: now }) {
            Action::AnswerCached(w) => {
                assert_eq!(w.last_updated, "5000");
                assert_eq!(w.vocab_defs[0].meaning, "cached");
            }
            _ => panic!("expected the cached word"),
        }
        assert_eq!(l.phase(), Phase::Done);
        assert!(matches!(l.step(&cfg, Event::Begin), Action::Ignore));
    }
}

#[test]
fn stale_entry_is_refreshed_once() {
    let cfg = config(1000);
    let mut l = begin("mouse", &cfg);
    match l.step(&cfg, Event::CacheRead { cached: Some(cached_word("5000")), now_ms: 6001 }) {
        Action::FetchDefinitions { primary, secondary, wiki } => {
            assert_eq!(primary, "https://www.vocabulary.com/dictionary/definition.ajax?search=mouse&lang=en");
            assert_eq!(secondary, "https://www.macmillandictionary.com/us/dictionary/american/mouse");
            assert_eq!(wiki, "https://en.wiktionary.org/wiki/mouse");
        }
        _ => panic!("expected a fetch"),
    }
    match l.step(&cfg, Event::DefinitionsFetched { primary: None, secondary: None, wiki: Some(wiki_doc()) }) {
        Action::FetchExtras { etymology, imagery } => {
            assert_eq!(etymology, "https://www.etymonline.com/search?q=mouse");
            assert_eq!(imagery.as_deref(), Some("https://stock.adobe.com/search?k=mouse"));
        }
        _ => panic!("expected extras"),
    }
    match l.step(&cfg, Event::ExtrasFetched { etymology: None, imagery: None, now_ms: 6002 }) {
        Action::StoreAndAnswer { key, word } => {
            assert_eq!(key, "word:mouse");
            assert_eq!(word.last_updated, "6002");
            assert_eq!(word.wiki_defs[0].meaning, "a rodent");
            assert_eq!(word.sources, vec!["en.wiktionary.org".to_string()]);
            assert!(parse_millis(&word.last_updated).unwrap() > 5000);
        }
        _ => panic!("expected a store"),
    }
    assert!(matches!(
        l.step(&cfg, Event::ExtrasFetched { etymology: None, imagery: None, now_ms: 7000 }),
        Action::Ignore
    ));
}

#[test]
fn entry_exactly_at_threshold_is_refreshed() {
    let cfg = config(1000);
    let mut l = begin("mouse", &cfg);
    let a = l.step(&cfg, Event::CacheRead { cached: Some(cached_word("5000")), now_ms: 6000 });
    assert!(matches!(a, Action::FetchDefinitions { .. }));
    let mut m = begin("mouse", &cfg);
    let b = m.step(&cfg, Event::CacheRead { cached: Some(cached_word("5000")), now_ms: 5999 });
    assert!(matches!(b, Action::AnswerCached(_)));
}

#[test]
fn unreadable_stamp_forces_refresh() {
    let cfg = config(1000);
    let mut l = begin("mouse", &cfg);
    let a = l.step(&cfg, Event::CacheRead { cached: Some(cached_word("yesterday")), now_ms: 10 });
    assert!(matches!(a, Action::FetchDefinitions { .. }));
}

#[test]
fn missing_entry_fetches() {
    let cfg = config(1000);
    let mut l = begin("mouse", &cfg);
    let a = l.step(&cfg, Event::CacheRead { cached: None, now_ms: 10 });
    assert!(matches!(a, Action::FetchDefinitions { .. }));
    assert_eq!(l.phase(), Phase::AwaitDefinitions);
}

#[test]
fn no_definitions_means_no_data_and_no_store() {
    let cfg = config(1000);
    let mut l = begin("qwxz", &cfg);
    l.step(&cfg, Event::CacheRead { cached: None, now_ms: 10 });
    let empty = vec![el("div", &[], vec![])];
    let a = l.step(
        &cfg,
        Event::DefinitionsFetched { primary: Some(empty.clone_nodes()), secondary: None, wiki: Some(empty) },
    );
    assert!(matches!(a, Action::AnswerNoData));
    assert_eq!(l.phase(), Phase::Done);
    assert!(matches!(
        l.step(&cfg, Event::ExtrasFetched { etymology: None, imagery: None, now_ms: 20 }),
        Action::Ignore
    ));
}

trait CloneNodes {
    fn clone_nodes(&self) -> Vec<Node>;
}

impl CloneNodes for Vec<Node> {
    fn clone_nodes(&self) -> Vec<Node> {
        self.iter().map(clone_node).collect()
    }
}

fn clone_node(n: &Node) -> Node {
    match n {
        Node::Text(t) => Node::Text(t.clone()),
        Node::Element(e) => Node::Element(Element {
            name: e.name.clone(),
            attrs: e.attrs.clone(),
            children: e.children.iter().map(clone_node).collect(),
        }),
    }
}

#[test]
fn restricted_word_skips_imagery() {
    let cfg = config(1000);
    let mut l = begin("gore", &cfg);
    l.step(&cfg, Event::CacheRead { cached: None, now_ms: 10 });
    match l.step(&cfg, Event::DefinitionsFetched { primary: None, secondary: None, wiki: Some(wiki_doc()) }) {
        Action::FetchExtras { imagery, .. } => assert!(imagery.is_none()),
        _ => panic!("expected extras"),
    }
}

#[test]
fn out_of_turn_event_is_ignored() {
    let cfg = config(1000);
    let mut l = Lookup::new("mouse".to_string());
    assert!(matches!(l.step(&cfg, Event::CacheRead { cached: None, now_ms: 1 }), Action::Ignore));
    assert_eq!(l.phase(), Phase::Start);
}

#[test]
fn sources_follow_priority_order() {
    let findings = Findings {
        primary: Some(PrimaryEntry {
            short_overview: Some("short".to_string()),
            long_overview: Some("long".to_string()),
            definitions: vec![def("a")],
        }),
        secondary: Some(vec![]),
        wiki: Some((vec![], vec![def("b")])),
    };
    let origins = vec![Origin { part_of_speech: "noun".to_string(), origin: "o".to_string() }];
    let w = compose(findings, Some(origins), Some(vec!["img".to_string()]), 42);
    assert_eq!(w.overview, vec!["short".to_string(), "long".to_string()]);
    assert_eq!(
        w.sources,
        vec!["www.vocabulary.com", "en.wiktionary.org", "www.etymonline.com", "stock.adobe.com"]
    );
    assert_eq!(w.last_updated, "42");
}

#[test]
fn findings_without_definitions() {
    let f = Findings {
        primary: Some(PrimaryEntry { short_overview: Some("s".to_string()), long_overview: None, definitions: vec![] }),
        secondary: None,
        wiki: Some((vec![Origin { part_of_speech: String::new(), origin: "o".to_string() }], vec![])),
    };
    assert!(!f.has_definitions());
    let g = Findings { primary: None, secondary: Some(vec![vec![]]), wiki: None };
    assert!(g.has_definitions());
}

#[test]
fn source_names_and_urls() {
    assert_eq!(source_name(Source::Secondary), "www.macmillandictionary.com");
    assert_eq!(source_url(Source::Imagery, "owl"), "https://stock.adobe.com/search?k=owl");
}

#[test]
fn text_helpers() {
    assert_eq!(string_of(&chars_of("héllo")), "héllo");
    assert!(same_text("a", "a"));
    assert!(!same_text("a", "A"));
}

#[test]
fn pages() {
    assert_eq!(api_not_found(), "{}");
    assert!(matches!(index(), Page::Index));
    match define("owl".to_string()) {
        Page::Define(w) => assert_eq!(w, "owl"),
        _ => panic!("expected the define page"),
    }
    match not_found_page(14) {
        Page::NotFound(f) => assert_eq!(f, "<(X_X)>"),
        _ => panic!("expected the not-found page"),
    }
    let faces = ["pwp", "TwT", "x-x", "<(X_X)>", "-w-", "(>_<)", "(·.·)", "(≥o≤)", "(·_·)", "\\(o_o)/", "(;-;)"];
    for _ in 0..20 {
        match general_not_found() {
            Page::NotFound(f) => assert!(faces.contains(&f.as_str())),
            _ => panic!("expected the not-found page"),
        }
    }
}
