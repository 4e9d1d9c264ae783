use sitegen::engine::build_context;
use sitegen::scan::Attr;
use sitegen::scan::Occurrence;
use sitegen::scan::TagKind;
use sitegen::scan::scan_components;
use sitegen::splice::splice_fragments;

fn chars(s: &str) -> Vec<char> {
    s.chars().collect()
}

fn text(v: &[char]) -> String {
    v.iter().collect()
}

#[test]
fn scan_self_closing_tag() {
    let html = chars("ab<info-card title=\"Hi\" body=\"World\"/>cd");
    let occs = scan_components(&html);
    assert_eq!(occs.len(), 1);
    assert_eq!(occs[0].kind, TagKind::InfoCard);
    assert_eq!(occs[0].start, 2);
    assert_eq!(occs[0].end, html.len() - 2);
    assert_eq!(occs[0].attrs.len(), 2);
    assert_eq!(text(&occs[0].attrs[0].name), "title");
    assert_eq!(text(&occs[0].attrs[0].value), "Hi");
    assert_eq!(text(&occs[0].attrs[1].name), "body");
    assert_eq!(text(&occs[0].attrs[1].value), "World");
}

#[test]
fn scan_container_tag_spans_to_end_tag() {
    let html = chars("<project-teaser name=\"x\">inner text</project-teaser>tail");
    let occs = scan_components(&html);
    assert_eq!(occs.len(), 1);
    assert_eq!(occs[0].kind, TagKind::ProjectTeaser);
    assert_eq!(occs[0].start, 0);
    assert_eq!(occs[0].end, html.len() - 4);
}

#[test]
fn scan_finds_occurrences_in_order() {
    let html = chars("<info-card a=\"1\"/>..<project-teaser b=\"2\"/>");
    let occs = scan_components(&html);
    assert_eq!(occs.len(), 2);
    assert_eq!(occs[0].kind, TagKind::InfoCard);
    assert_eq!(occs[1].kind, TagKind::ProjectTeaser);
    assert!(occs[0].end <= occs[1].start);
}

#[test]
fn scan_ignores_unknown_and_malformed_tags() {
    assert_eq!(scan_components(&chars("<other-tag a=\"1\"/>")).len(), 0);
    assert_eq!(scan_components(&chars("<info-cardx a=\"1\"/>")).len(), 0);
    assert_eq!(scan_components(&chars("<info-card a=\"1\">never closed")).len(), 0);
    assert_eq!(scan_components(&chars("<info-card a=1/>")).len(), 0);
    assert_eq!(scan_components(&chars("plain text, no tags")).len(), 0);
    assert_eq!(scan_components(&chars("a < b and <info")).len(), 0);
}

#[test]
fn scan_allows_markup_inside_quoted_values() {
    let html = chars("<info-card title=\"a > b\"/>");
    let occs = scan_components(&html);
    assert_eq!(occs.len(), 1);
    assert_eq!(text(&occs[0].attrs[0].value), "a > b");
}

#[test]
fn splice_replaces_hand_built_occurrences() {
    let html = chars("ab<x>cd");
    let occs = vec![Occurrence { kind: TagKind::InfoCard, attrs: Vec::new(), start: 2, end: 5 }];
    let frags = vec![chars("ZZZ")];
    assert_eq!(text(&splice_fragments(&html, &occs, &frags)), "abZZZcd");
}

#[test]
fn splice_with_no_occurrences_is_identity() {
    let html = chars("nothing to do");
    let out = splice_fragments(&html, &Vec::new(), &Vec::new());
    assert_eq!(text(&out), "nothing to do");
}

#[test]
fn context_holds_exactly_the_attributes() {
    let attrs = vec![
        Attr { name: chars("title"), value: chars("Hi") },
        Attr { name: chars("body"), value: chars("World") },
    ];
    let built = build_context(&attrs);
    let mut expected = tera::Context::new();
    expected.insert("title", "Hi");
    expected.insert("body", "World");
    assert_eq!(built, expected);
}
