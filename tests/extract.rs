use lexicon::dom::{Element, Node};
use lexicon::etym::{extract_etymology, part_of_speech_of_label};
use lexicon::macmillan::extract_secondary;
use lexicon::render::{render, Policy};
use lexicon::restrict::Restrictor;
use lexicon::stitch::Stitcher;
use lexicon::stock::{extract_images, images_wanted};
use lexicon::vocab::extract_primary;
use lexicon::wiki::extract_wiki;

fn text(s: &str) -> Node {
    Node::Text(s.to_string())
}

fn el(name: &str, attrs: &[(&str, &str)], children: Vec<Node>) -> Node {
    Node::Element(Element {
        name: name.to_string(),
        attrs: attrs.iter().map(|(k, v)| (k.to_string(), v.to_string())).collect(),
        children,
    })
}

fn root(children: Vec<Node>) -> Element {
    Element { name: "div".to_string(), attrs: vec![], children }
}

fn restrictor(words: &[&str]) -> Restrictor {
    Restrictor::new(words.iter().map(|w| w.to_string()).collect())
}

#[test]
fn render_keeps_wrapped_tags_and_drops_others() {
    let e = root(vec![
        el("span", &[], vec![text("hello")]),
        text(" "),
        el("b", &[], vec![text("world")]),
        text(" !"),
    ]);
    let p = Policy::new(&[], &[], true);
    assert_eq!(render(&e, &p), "<b>world</b>!");
}

#[test]
fn render_marks_emphasis_when_asked() {
    let e = root(vec![el("a", &[], vec![text("link")]), text("end .")]);
    assert_eq!(render(&e, &Policy::new(&[], &["a"], true)), "<i>link</i> end.");
    assert_eq!(render(&e, &Policy::new(&[], &["a"], false)), "link end.");
}

#[test]
fn render_tidies_spaces_before_punctuation() {
    let e = root(vec![text("  a  ,b ?c )d  ")]);
    assert_eq!(render(&e, &Policy::plain()), "a,b?c)d");
}

#[test]
fn render_skips_blank_text() {
    let e = root(vec![text(" \n\t "), el("em", &[], vec![text("x")])]);
    assert_eq!(render(&e, &Policy::plain()), "<em>x</em>");
}

#[test]
fn restrictor_ignores_case() {
    let r = restrictor(&["badword"]);
    assert!(r.is_restricted("this has a BADWORD in it"));
    assert!(!r.is_restricted("clean text"));
}

#[test]
fn restrictor_on_folded_keywords() {
    let r = Restrictor::from_folded(vec!["badword".to_string()]);
    assert!(r.matches_folded("this has a badword in it"));
    assert!(!r.matches_folded("clean text"));
    assert!(r.is_restricted("this has a BADWORD in it"));
}

#[test]
fn restrictor_folds_keywords_too() {
    let r = restrictor(&["BadWord"]);
    assert!(r.is_restricted("badword"));
    assert!(r.matches_folded("a badword here"));
    assert!(!r.matches_folded("a BADWORD here"));
}

#[test]
fn label_table_strips_digits() {
    assert_eq!(part_of_speech_of_label("(n.1)"), "noun");
    assert_eq!(part_of_speech_of_label("(v.)"), "verb");
    assert_eq!(part_of_speech_of_label("(adj.2)"), "adjective");
    assert_eq!(part_of_speech_of_label("(pron.)"), "pronoun");
    assert_eq!(part_of_speech_of_label("(conj.)"), "");
    assert_eq!(part_of_speech_of_label(""), "");
}

fn headline(level: &str, t: &str) -> Node {
    el(level, &[], vec![el("span", &[("class", "mw-headline")], vec![text(t)])])
}

fn wiki_doc(after: Vec<Node>) -> Vec<Node> {
    let mut section = vec![el("h2", &[], vec![el("span", &[("id", "English")], vec![text("English")])])];
    section.extend(after);
    vec![el("html", &[], vec![el("body", &[], section)])]
}

#[test]
fn stitcher_attributes_trailing_paragraphs_to_the_next_definition_title() {
    let doc = wiki_doc(vec![
        headline("h3", "Noun"),
        el("ol", &[], vec![el("li", &[], vec![text("a rodent")])]),
        headline("h3", "Etymology 1"),
        el("p", &[], vec![text("from Old English X")]),
        el("p", &[], vec![text("further sense")]),
        el("hr", &[], vec![]),
        el("p", &[], vec![text("after the divider")]),
    ]);
    let (origins, defs) = extract_wiki(&doc).unwrap();
    assert_eq!(defs.len(), 1);
    assert_eq!(defs[0].part_of_speech, "noun");
    assert_eq!(defs[0].meaning, "a rodent");
    assert_eq!(origins.len(), 1);
    assert_eq!(origins[0].origin, "from Old English X<br>further sense");
    assert_eq!(origins[0].part_of_speech, "");
}

#[test]
fn stitcher_flushes_under_the_following_definitions() {
    let doc = wiki_doc(vec![
        headline("h3", "Etymology 1"),
        el("p", &[], vec![text("old root")]),
        headline("h4", "Verb"),
        el("ol", &[], vec![el("li", &[], vec![text("to gnaw")])]),
        headline("h3", "Etymology 2"),
        el("p", &[], vec![text("newer root")]),
        headline("h4", "Numeral"),
        el("ol", &[], vec![el("li", &[], vec![text("seven")])]),
    ]);
    let (origins, defs) = extract_wiki(&doc).unwrap();
    assert_eq!(defs.len(), 2);
    assert_eq!(defs[1].part_of_speech, "noun");
    assert_eq!(origins.len(), 2);
    assert_eq!(origins[0].part_of_speech, "verb");
    assert_eq!(origins[0].origin, "old root");
    assert_eq!(origins[1].part_of_speech, "numeral");
    assert_eq!(origins[1].origin, "newer root");
}

#[test]
fn wiki_examples_come_from_dd() {
    let item = el(
        "li",
        &[],
        vec![
            text("meaning"),
            el("dl", &[], vec![el("dd", &[], vec![el("span", &[], vec![text("ex one")])]), el("dt", &[], vec![text("no")])]),
        ],
    );
    let doc = wiki_doc(vec![headline("h3", "Adjective"), el("ol", &[], vec![item])]);
    let (_, defs) = extract_wiki(&doc).unwrap();
    assert_eq!(defs[0].examples, vec!["<i>ex one</i>".to_string()]);
}

#[test]
fn wiki_heading_without_headline_gives_nothing() {
    let doc = wiki_doc(vec![el("h3", &[], vec![text("Noun")])]);
    assert!(extract_wiki(&doc).is_none());
}

#[test]
fn wiki_without_anchor_gives_nothing() {
    let doc = vec![el("html", &[], vec![el("body", &[], vec![headline("h3", "Noun")])])];
    assert!(extract_wiki(&doc).is_none());
}

#[test]
fn stitcher_methods_follow_the_transitions() {
    let mut s = Stitcher::new();
    s.paragraph("ignored outside etymology".to_string());
    assert_eq!(s.pending, "");
    s.heading("letter".to_string());
    s.definition("".to_string(), vec![]);
    assert!(s.definitions.is_empty());
    s.definition("the letter a".to_string(), vec![]);
    assert_eq!(s.definitions[0].part_of_speech, "noun");
    assert_eq!(s.next_def_title, "letter");
    let (origins, defs) = s.finish();
    assert!(origins.is_empty());
    assert_eq!(defs.len(), 1);
}

fn vocab_doc(echo: &str) -> Vec<Node> {
    vec![el(
        "div",
        &[],
        vec![
            el(
                "div",
                &[("class", "word-area")],
                vec![
                    el("h1", &[], vec![text(echo)]),
                    el("p", &[("class", "short")], vec![text("A "), el("i", &[], vec![text("short")]), text(" one .")]),
                    el("p", &[("class", "long")], vec![]),
                ],
            ),
            el(
                "div",
                &[("class", "word-definitions x")],
                vec![el(
                    "ol",
                    &[],
                    vec![el(
                        "li",
                        &[],
                        vec![
                            el(
                                "div",
                                &[("class", "definition")],
                                vec![el("div", &[("class", "pos-icon")], vec![el("b", &[], vec![text("noun")])]), text("a small animal")],
                            ),
                            el("div", &[("class", "example")], vec![text("the\ncat")]),
                        ],
                    )],
                )],
            ),
        ],
    )]
}

#[test]
fn primary_reads_overview_and_definitions() {
    let e = extract_primary("cat", &vocab_doc("cat")).unwrap();
    assert_eq!(e.short_overview.as_deref(), Some("A <i>short</i> one."));
    assert_eq!(e.long_overview, None);
    assert_eq!(e.definitions.len(), 1);
    assert_eq!(e.definitions[0].part_of_speech, "<b>noun</b>");
    assert_eq!(e.definitions[0].meaning, "a small animal");
    assert_eq!(e.definitions[0].examples, vec!["thecat".to_string()]);
    assert_eq!(e.definitions[0].describe(), "<b>noun</b> : a small animal\n- thecat");
}

#[test]
fn primary_rejects_a_near_match() {
    assert!(extract_primary("cat", &vocab_doc("Cat")).is_none());
    assert!(extract_primary("cat", &vocab_doc("cats")).is_none());
}

#[test]
fn primary_without_word_area_gives_nothing() {
    assert!(extract_primary("cat", &vec![el("div", &[], vec![])]).is_none());
}

fn macmillan_doc() -> Vec<Node> {
    let sense = el(
        "div",
        &[("class", "dflex")],
        vec![
            el("span", &[("class", "DEFINITION")], vec![el("a", &[], vec![text("to run")]), text(" fast")]),
            el(
                "div",
                &[("class", "EXAMPLES")],
                vec![el("p", &[], vec![text("she\nran")]), el("div", &[], vec![text("skip")])],
            ),
        ],
    );
    let no_def = el("div", &[("class", "dflex")], vec![text("nothing")]);
    let items = el(
        "ol",
        &[],
        vec![
            el("li", &[], vec![el("div", &[("class", "SENSE-BODY")], vec![sense, no_def])]),
            el("li", &[], vec![text("no body")]),
        ],
    );
    vec![el(
        "div",
        &[("class", "left-content")],
        vec![el("div", &[("class", "head")], vec![]), el("div", &[], vec![el("div", &[], vec![items])])],
    )]
}

#[test]
fn secondary_reads_sense_groups() {
    let g = extract_secondary(&macmillan_doc()).unwrap();
    assert_eq!(g.len(), 1);
    assert_eq!(g[0].len(), 1);
    assert_eq!(g[0][0].part_of_speech, "noun");
    assert_eq!(g[0][0].meaning, "to run fast");
    assert_eq!(g[0][0].examples, vec!["sheran".to_string()]);
}

#[test]
fn secondary_without_bare_area_gives_nothing() {
    let doc = vec![el("div", &[("class", "left-content")], vec![el("div", &[("class", "a")], vec![])])];
    assert!(extract_secondary(&doc).is_none());
}

fn etym_entry(word: &str, label: &str, paras: &[&str]) -> Node {
    el(
        "div",
        &[("class", "word--C9UPa")],
        vec![el(
            "div",
            &[],
            vec![
                el("h1", &[("class", "word__name--TTbAA")], vec![text(word), el("span", &[], vec![]), text(label)]),
                el("section", &[], paras.iter().map(|p| el("p", &[], vec![text(p)])).collect()),
            ],
        )],
    )
}

#[test]
fn etymology_reads_entries_until_a_different_word() {
    let doc = vec![el(
        "div",
        &[],
        vec![
            etym_entry("bank", "(n.1)", &["from French", "", "later"]),
            etym_entry("bank", "(v.)", &["from the noun"]),
            etym_entry("banker", "(n.)", &["other"]),
            etym_entry("bank", "(adj.)", &["after the stop"]),
        ],
    )];
    let o = extract_etymology("bank", &doc).unwrap();
    assert_eq!(o.len(), 2);
    assert_eq!(o[0].part_of_speech, "noun");
    assert_eq!(o[0].origin, "from French<br><br>later");
    assert_eq!(o[1].part_of_speech, "verb");
    assert_eq!(o[1].origin, "from the noun");
}

#[test]
fn etymology_with_no_matching_entry_gives_nothing() {
    let doc = vec![el("div", &[], vec![etym_entry("banks", "(n.)", &["x"])])];
    assert!(extract_etymology("bank", &doc).is_none());
}

fn stock_doc(cells: Vec<(&str, &str)>) -> Vec<Node> {
    vec![el(
        "div",
        &[],
        cells
            .into_iter()
            .map(|(alt, src)| el("div", &[("class", "search-result-cell")], vec![el("img", &[("alt", alt), ("src", src)], vec![])]))
            .collect(),
    )]
}

#[test]
fn images_skip_restricted_alt_text_and_stop_at_six() {
    let r = restrictor(&["gore"]);
    let cells: Vec<(&str, &str)> = vec![
        ("cat 1", "u1"),
        ("GORE scene", "u2"),
        ("cat 3", "u3"),
        ("cat 4", "u4"),
        ("cat 5", "u5"),
        ("cat 6", "u6"),
        ("cat 7", "u7"),
        ("cat 8", "u8"),
    ];
    let imgs = extract_images(&r, "cat", &stock_doc(cells)).unwrap();
    assert_eq!(imgs, vec!["u1", "u3", "u4", "u5", "u6", "u7"]);
}

#[test]
fn images_for_a_restricted_word_are_not_sought() {
    let r = restrictor(&["gore"]);
    assert!(!images_wanted(&r, "Gore"));
    assert!(images_wanted(&r, "cat"));
    assert!(extract_images(&r, "gore", &stock_doc(vec![("cat", "u")])).is_none());
}

#[test]
fn images_none_collected_gives_nothing() {
    let r = restrictor(&["cat"]);
    assert!(extract_images(&r, "dog", &stock_doc(vec![("a cat", "u")])).is_none());
}

#[test]
fn restrictor_folds_beyond_ascii() {
    let r = restrictor(&["élan"]);
    assert!(r.is_restricted("ÉLAN vital"));
    assert!(!r.is_restricted("elan"));
}

#[test]
fn wiki_heading_is_lower_cased() {
    let doc = wiki_doc(vec![headline("h3", "Proper NOUN"), el("ol", &[], vec![el("li", &[], vec![text("a name")])])]);
    let (_, defs) = extract_wiki(&doc).unwrap();
    assert_eq!(defs[0].part_of_speech, "proper noun");
}
