use sitegen::pipeline::build_fragment;
use sitegen::pipeline::build_page;
use sitegen::pipeline::content_pairs;
use sitegen::pipeline::static_files;
use tera::Tera;

fn engine_with(templates: &[(&str, &str)]) -> Tera {
    let mut tera = Tera::default();
    for (name, body) in templates {
        tera.add_raw_template(name, body).expect("template should parse");
    }
    tera.autoescape_on(vec![]);
    tera
}

fn fragment_string(chars: Vec<char>) -> String {
    chars.into_iter().collect()
}

#[test]
fn index_scenario() {
    let tera = engine_with(&[
        ("components/info_card.html", "<div>{{title}}: {{body}}</div>"),
        ("base.html", "<html>{{content}}</html>"),
    ]);
    let page = build_page(&tera, "index.html", "<info-card title=\"Hi\" body=\"World\"/>")
        .expect("build should succeed");
    assert_eq!(page, "<html><div>Hi: World</div></html>");
}

#[test]
fn markdown_scenario() {
    let tera = engine_with(&[("base.html", "<html>{{content}}</html>")]);
    let page = build_page(&tera, "bike-tribals.md", "# Title").expect("build should succeed");
    assert!(page.contains("<h1>Title</h1>"));
    assert!(page.starts_with("<html>"));
    assert!(page.ends_with("</html>"));
}

#[test]
fn markdown_leaves_no_raw_markers() {
    let tera = Tera::default();
    let out = build_fragment(&tera, "sample.md", "# Head\n\n**bold** move\n\n- item one\n")
        .expect("conversion should succeed");
    let html = fragment_string(out);
    assert!(!html.contains('#'));
    assert!(!html.contains("**"));
    assert!(!html.lines().any(|l| l.starts_with("- ")));
    assert!(html.contains("<h1>Head</h1>"));
    assert!(html.contains("<strong>bold</strong>"));
    assert!(html.contains("<li>item one</li>"));
}

#[test]
fn info_card_expanded_in_place() {
    let tera = engine_with(&[("components/info_card.html", "<div>{{title}}: {{body}}</div>")]);
    let out = build_fragment(
        &tera,
        "index.html",
        "before <info-card title=\"Hi\" body=\"World\"/> after",
    )
    .expect("expansion should succeed");
    let html = fragment_string(out);
    assert_eq!(html, "before <div>Hi: World</div> after");
    assert!(!html.contains("info-card"));
}

#[test]
fn container_element_content_replaced() {
    let tera = engine_with(&[("components/info_card.html", "[{{title}}]")]);
    let out = build_fragment(
        &tera,
        "index.html",
        "a<info-card title=\"T\">ignored inner</info-card>b",
    )
    .expect("expansion should succeed");
    assert_eq!(fragment_string(out), "a[T]b");
}

#[test]
fn unrecognized_tag_untouched() {
    let tera = Tera::default();
    let source = "<fancy-tag a=\"1\">inner</fancy-tag> and <weird-thing/>";
    let out = build_fragment(&tera, "page.html", source).expect("expansion should succeed");
    assert_eq!(fragment_string(out), source);
}

#[test]
fn duplicate_attribute_last_wins() {
    let tera = engine_with(&[("components/info_card.html", "{{title}}")]);
    let out = build_fragment(&tera, "index.html", "<info-card title=\"A\" title=\"B\"/>")
        .expect("expansion should succeed");
    assert_eq!(fragment_string(out), "B");
}

#[test]
fn project_teaser_recognized() {
    let tera = engine_with(&[("components/project-teaser.html", "<p>{{name}}</p>")]);
    let out = build_fragment(&tera, "index.html", "<project-teaser name=\"bike\"/>")
        .expect("expansion should succeed");
    assert_eq!(fragment_string(out), "<p>bike</p>");
}

#[test]
fn html_sources_are_not_converted() {
    let tera = Tera::default();
    let out = build_fragment(&tera, "page.html", "# not markdown")
        .expect("expansion should succeed");
    assert_eq!(fragment_string(out), "# not markdown");
}

#[test]
fn build_twice_identical() {
    let tera = engine_with(&[
        ("components/info_card.html", "<div>{{title}}: {{body}}</div>"),
        ("base.html", "<html>{{content}}</html>"),
    ]);
    let source = "x <info-card title=\"Hi\" body=\"World\"/> y";
    let first = build_page(&tera, "index.html", source).expect("build should succeed");
    let second = build_page(&tera, "index.html", source).expect("build should succeed");
    assert_eq!(first, second);
}

#[test]
fn missing_component_template_fails_naming_it() {
    let tera = engine_with(&[("base.html", "<html>{{content}}</html>")]);
    let err = build_page(&tera, "index.html", "<info-card title=\"Hi\" body=\"W\"/>")
        .expect_err("render should fail");
    assert_eq!(err.template, "components/info_card.html");
}

#[test]
fn missing_base_template_fails_naming_it() {
    let tera = Tera::default();
    let err = build_page(&tera, "plain.html", "<p>hello</p>").expect_err("composition should fail");
    assert_eq!(err.template, "base.html");
}

#[test]
fn missing_template_variable_fails() {
    let tera = engine_with(&[("components/info_card.html", "<div>{{title}}: {{body}}</div>")]);
    let err = build_fragment(&tera, "index.html", "<info-card title=\"only\"/>")
        .expect_err("render should fail");
    assert_eq!(err.template, "components/info_card.html");
    assert!(!err.detail.is_empty());
}

#[test]
fn content_table_is_fixed() {
    let pairs = content_pairs();
    assert_eq!(pairs.len(), 2);
    assert_eq!(pairs[0], ("index.html".to_owned(), "index.html".to_owned()));
    assert_eq!(pairs[1], ("bike-tribals.md".to_owned(), "bike-tribals.html".to_owned()));
}

#[test]
fn static_table_is_fixed() {
    let names = static_files();
    assert_eq!(names, vec!["global.css", "components.css", "bike-tribal.svg"]);
}
