//! The per-file transformation: convert Markdown sources to HTML, expand the
//! recognized component tags, and compose the final page; and the fixed
//! tables that drive a whole build.

use vstd::prelude::*;

use crate::engine::BuildError;
use crate::engine::context_insert;
use crate::engine::context_new;
use crate::engine::render_occurrence;
use crate::engine::spec_template_name;
use crate::engine::tera_render;
use crate::markdown::md_html_of;
use crate::markdown::md_to_html;
use crate::scan::TagKind;
use crate::scan::occs_view;
use crate::scan::scan_components;
use crate::scan::spec_scan;
use crate::splice::frags_view;
use crate::splice::lemma_scan_wf;
use crate::splice::spec_splice_from;
use crate::splice::splice_fragments;
use crate::text::chars_string;
use crate::text::str_chars;

verus! {

/// The template a failed expansion names is always one of the two component
/// templates.
pub open spec fn is_component_template(t: Seq<char>) -> bool {
    t == spec_template_name(TagKind::InfoCard) || t == spec_template_name(TagKind::ProjectTeaser)
}

/// Expand every recognized component tag of `html`: scan for occurrences,
/// render each one's template with its attributes as the context, and splice
/// the rendered fragments over the occurrences' spans. A document without
/// recognized tags comes back untouched; a failure can only arise from a
/// render, and names the component template that failed.
pub fn expand_components(tera: &tera::Tera, html: &Vec<char>) -> (r: Result<Vec<char>, BuildError>)
    ensures
        (match r {
            Ok(out) => exists|frags: Seq<Seq<char>>|
                frags.len() == spec_scan(html@, 0).len() && out@ == spec_splice_from(
                    html@,
                    spec_scan(html@, 0),
                    frags,
                    0,
                    0,
                ),
            Err(e) => is_component_template(e.template@) && exists|k: int|
                0 <= k < spec_scan(html@, 0).len() && e.template@ == spec_template_name(
                    (#[trigger] spec_scan(html@, 0)[k]).kind,
                ),
        }),
        spec_scan(html@, 0).len() == 0 ==> (r matches Ok(out) && out@ == html@),
{
    let occs = scan_components(html);
    let mut frags: Vec<Vec<char>> = Vec::new();
    let mut k: usize = 0;
    while k < occs.len()
        invariant
            k <= occs@.len(),
            frags@.len() == k,
            occs_view(occs@) == spec_scan(html@, 0),
        decreases occs@.len() - k,
    {
        match render_occurrence(tera, &occs[k]) {
            Ok(f) => {
                frags.push(f);
            },
            Err(e) => {
                proof {
                    assert(occs_view(occs@).len() == occs@.len());
                    assert(spec_scan(html@, 0)[k as int] == occs@[k as int]@);
                    assert(e.template@ == spec_template_name(
                        spec_scan(html@, 0)[k as int].kind,
                    ));
                }
                return Err(e);
            },
        }
        k = k + 1;
    }
    proof {
        lemma_scan_wf(html@, 0);
    }
    let out = splice_fragments(html, &occs, &frags);
    proof {
        assert(occs_view(occs@).len() == occs@.len());
        let w = frags_view(frags@);
        assert(w.len() == spec_scan(html@, 0).len() && out@ == spec_splice_from(
            html@,
            spec_scan(html@, 0),
            w,
            0,
            0,
        ));
        if spec_scan(html@, 0).len() == 0 {
            assert(out@ =~= html@);
        }
    }
    Ok(out)
}

/// The base page template's name.
pub open spec fn spec_base_template() -> Seq<char> {
    "base.html"@
}

/// Compose the final page: render the base template with the single
/// variable `content` bound to the expanded fragment. What the page looks
/// like is the base template's affair; a failure names the base template.
pub fn compose_page(tera: &tera::Tera, content: &Vec<char>) -> (r: Result<Vec<char>, BuildError>)
    ensures
        (match r {
            Ok(_) => true,
            Err(e) => e.template@ == spec_base_template(),
        }),
{
    let mut c = context_new();
    let text = chars_string(content);
    context_insert(&mut c, "content", text.as_str());
    match tera_render(tera, "base.html", &c) {
        Ok(s) => Ok(str_chars(s.as_str())),
        Err(d) => Err(BuildError { template: "base.html".to_owned(), detail: d }),
    }
}

/// A file name with the Markdown extension.
pub open spec fn spec_is_markdown(name: Seq<char>) -> bool {
    name.len() >= 3 && name.subrange(name.len() - 3, name.len() as int) == seq!['.', 'm', 'd']
}

/// Whether a source file is dispatched to the Markdown converter.
pub fn is_markdown_name(name: &str) -> (r: bool)
    ensures
        r == spec_is_markdown(name@),
{
    let v = str_chars(name);
    let n = v.len();
    if n < 3 {
        return false;
    }
    let r = v[n - 3] == '.' && v[n - 2] == 'm' && v[n - 1] == 'd';
    proof {
        let tail = name@.subrange(n - 3, n as int);
        if r {
            assert(tail =~= seq!['.', 'm', 'd']);
        } else {
            assert(tail[0] == name@[n - 3] && tail[1] == name@[n - 2] && tail[2] == name@[n - 1]);
        }
    }
    r
}

/// The HTML a source document contributes: Markdown files go through the
/// commonmark conversion, anything else is already HTML.
pub open spec fn spec_source_html(name: Seq<char>, content: Seq<char>) -> Seq<char> {
    if spec_is_markdown(name) {
        md_html_of(content)
    } else {
        content
    }
}

/// The expanded fragment of one source document: the Markdown dispatch, then
/// component expansion. The result is the source's HTML with each recognized
/// occurrence's span replaced by a rendered fragment; a document whose HTML
/// holds no recognized tag comes through unchanged.
pub fn build_fragment(tera: &tera::Tera, filename: &str, content: &str) -> (r: Result<
    Vec<char>,
    BuildError,
>)
    ensures
        (match r {
            Ok(out) => exists|frags: Seq<Seq<char>>|
                frags.len() == spec_scan(spec_source_html(filename@, content@), 0).len() && out@
                    == spec_splice_from(
                    spec_source_html(filename@, content@),
                    spec_scan(spec_source_html(filename@, content@), 0),
                    frags,
                    0,
                    0,
                ),
            Err(e) => spec_scan(spec_source_html(filename@, content@), 0).len() > 0
                && is_component_template(e.template@),
        }),
        spec_scan(spec_source_html(filename@, content@), 0).len() == 0 ==> (r matches Ok(out)
            && out@ == spec_source_html(filename@, content@)),
{
    let src: Vec<char> = if is_markdown_name(filename) {
        let html = md_to_html(content);
        str_chars(html.as_str())
    } else {
        str_chars(content)
    };
    proof {
        assert(src@ == spec_source_html(filename@, content@));
    }
    expand_components(tera, &src)
}

/// Build one finished page from a source document: Markdown dispatch,
/// component expansion, then composition into the base template. Any failure
/// names the template responsible: a component template during expansion, or
/// the base template during composition.
pub fn build_page(tera: &tera::Tera, filename: &str, content: &str) -> (r: Result<
    String,
    BuildError,
>)
    ensures
        (match r {
            Ok(_) => true,
            Err(e) => e.template@ == spec_base_template() || is_component_template(e.template@),
        }),
{
    match build_fragment(tera, filename, content) {
        Ok(frag) => {
            match compose_page(tera, &frag) {
                Ok(page) => Ok(chars_string(&page)),
                Err(e) => Err(e),
            }
        },
        Err(e) => Err(e),
    }
}

/// The fixed list of source documents and the output file each one becomes.
pub open spec fn spec_content_pairs() -> Seq<(Seq<char>, Seq<char>)> {
    seq![("index.html"@, "index.html"@), ("bike-tribals.md"@, "bike-tribals.html"@)]
}

/// The fixed input-to-output table of the build, one pair per page.
pub fn content_pairs() -> (r: Vec<(String, String)>)
    ensures
        r@.len() == spec_content_pairs().len(),
        forall|i: int|
            0 <= i < r@.len() ==> (#[trigger] r@[i]).0@ == spec_content_pairs()[i].0
                && r@[i].1@ == spec_content_pairs()[i].1,
{
    let mut r: Vec<(String, String)> = Vec::new();
    r.push(("index.html".to_owned(), "index.html".to_owned()));
    r.push(("bike-tribals.md".to_owned(), "bike-tribals.html".to_owned()));
    r
}

/// The fixed list of static assets, copied into the output untransformed.
pub open spec fn spec_static_files() -> Seq<Seq<char>> {
    seq!["global.css"@, "components.css"@, "bike-tribal.svg"@]
}

/// The fixed static-asset table of the build.
pub fn static_files() -> (r: Vec<String>)
    ensures
        r@.len() == spec_static_files().len(),
        forall|i: int| 0 <= i < r@.len() ==> (#[trigger] r@[i])@ == spec_static_files()[i],
{
    let mut r: Vec<String> = Vec::new();
    r.push("global.css".to_owned());
    r.push("components.css".to_owned());
    r.push("bike-tribal.svg".to_owned());
    r
}

/// The transformation is a pure function of the source text: two builds of
/// the same name and contents see the same source HTML and the same
/// occurrence list, so page content never depends on anything but the
/// sources. Together with an output directory that is recreated from these
/// pages alone on every run, an unchanged source tree rebuilds identically.
pub proof fn lemma_build_deterministic(
    name1: Seq<char>,
    content1: Seq<char>,
    name2: Seq<char>,
    content2: Seq<char>,
)
    requires
        name1 == name2,
        content1 == content2,
    ensures
        spec_source_html(name1, content1) == spec_source_html(name2, content2),
        spec_scan(spec_source_html(name1, content1), 0) == spec_scan(
            spec_source_html(name2, content2),
            0,
        ),
{
}

} // verus!
