//! Rendering through the `tera` template engine: a component tag's
//! attributes become the variables of the render context, verbatim, and the
//! named component template is rendered with them. What a render returns
//! depends on the templates the engine holds, so the engine is called behind
//! trusted declarations and nothing is claimed of the rendered text itself.

use vstd::prelude::*;

use crate::scan::Attr;
use crate::scan::Occurrence;
use crate::scan::SpecAttr;
use crate::scan::TagKind;
use crate::scan::attrs_view;
use crate::text::chars_string;
use crate::text::str_chars;

verus! {

#[verifier::external_type_specification]
#[verifier::external_body]
pub struct ExTera(tera::Tera);

#[verifier::external_type_specification]
#[verifier::external_body]
pub struct ExContext(tera::Context);

/// A failed render: the template that failed and the engine's description.
#[derive(Debug)]
pub struct BuildError {
    pub template: String,
    pub detail: String,
}

/// The variables a render context holds, each bound to a string value.
pub uninterp spec fn ctx_entries(c: tera::Context) -> Map<Seq<char>, Seq<char>>;

/// The entries of a context with no variables at all.
pub open spec fn spec_no_entries() -> Map<Seq<char>, Seq<char>> {
    Map::empty()
}

/// Relies on tera::Context::new: a freshly created context holds no
/// variables.
#[verifier::external_body]
pub(crate) fn context_new() -> (r: tera::Context)
    ensures
        ctx_entries(r) == spec_no_entries(),
{
    tera::Context::new()
}

/// Relies on tera::Context::insert: binds `key` to the string `value`,
/// replacing any earlier binding of the same name.
#[verifier::external_body]
pub(crate) fn context_insert(c: &mut tera::Context, key: &str, value: &str)
    ensures
        ctx_entries(*final(c)) == ctx_entries(*old(c)).insert(key@, value@),
{
    c.insert(key, &value)
}

/// Relies on tera::Tera::render: renders the named template with the given
/// context. Success and result depend on the templates the engine holds, so
/// nothing is claimed of the returned text; a failure carries the engine's
/// own description of the error.
#[verifier::external_body]
pub(crate) fn tera_render(t: &tera::Tera, name: &str, c: &tera::Context) -> (r: Result<
    String,
    String,
>) {
    t.render(name, c).map_err(|e| e.to_string())
}

/// The variables that a tag's attribute list puts in the render context:
/// one entry per attribute name, and when a name repeats, the last
/// occurrence wins.
pub open spec fn spec_context(attrs: Seq<SpecAttr>) -> Map<Seq<char>, Seq<char>>
    decreases attrs.len(),
{
    if attrs.len() == 0 {
        Map::empty()
    } else {
        spec_context(attrs.drop_last()).insert(attrs.last().name, attrs.last().value)
    }
}

/// Build the render context of a component tag: every attribute becomes a
/// variable, verbatim, and nothing else is in the context.
pub fn build_context(attrs: &Vec<Attr>) -> (c: tera::Context)
    ensures
        ctx_entries(c) == spec_context(attrs_view(attrs@)),
{
    let mut c = context_new();
    let mut k: usize = 0;
    proof {
        assert(attrs_view(attrs@).take(0) =~= Seq::<SpecAttr>::empty());
    }
    while k < attrs.len()
        invariant
            k <= attrs@.len(),
            ctx_entries(c) == spec_context(attrs_view(attrs@).take(k as int)),
        decreases attrs@.len() - k,
    {
        let key = chars_string(&attrs[k].name);
        let val = chars_string(&attrs[k].value);
        context_insert(&mut c, key.as_str(), val.as_str());
        proof {
            let av = attrs_view(attrs@);
            assert(av.take(k + 1).drop_last() =~= av.take(k as int));
            assert(av.take(k + 1).last() == attrs@[k as int]@);
        }
        k = k + 1;
    }
    proof {
        assert(attrs_view(attrs@).take(attrs@.len() as int) =~= attrs_view(attrs@));
    }
    c
}

/// The component template each recognized tag renders.
pub open spec fn spec_template_name(k: TagKind) -> Seq<char> {
    match k {
        TagKind::InfoCard => "components/info_card.html"@,
        TagKind::ProjectTeaser => "components/project-teaser.html"@,
    }
}

/// The fixed tag-to-template mapping, as text.
pub fn template_name(k: TagKind) -> (r: &'static str)
    ensures
        r@ == spec_template_name(k),
{
    match k {
        TagKind::InfoCard => "components/info_card.html",
        TagKind::ProjectTeaser => "components/project-teaser.html",
    }
}

/// Render the component template of one recognized occurrence, with the
/// occurrence's attributes as the render context. A failure names the
/// template of the occurrence's tag.
pub fn render_occurrence(tera: &tera::Tera, occ: &Occurrence) -> (r: Result<Vec<char>, BuildError>)
    ensures
        (match r {
            Ok(_) => true,
            Err(e) => e.template@ == spec_template_name(occ.kind),
        }),
{
    let c = build_context(&occ.attrs);
    let name = template_name(occ.kind);
    match tera_render(tera, name, &c) {
        Ok(s) => Ok(str_chars(s.as_str())),
        Err(d) => Err(BuildError { template: name.to_owned(), detail: d }),
    }
}

} // verus!
