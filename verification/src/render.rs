//! The rendering pipeline: substituting a scheme's palette and metadata
//! into a mustache template.

use crate::palette::{parse_scheme, scheme_of_yaml, ColorScheme, SchemeData};
use crate::Error;
use base16_color_scheme::scheme::{BaseIndex, RgbColor};
use vstd::prelude::*;

verus! {

/// Whether the template engine accepts the document; a property of the
/// text alone.
pub uninterp spec fn valid_template(t: Seq<char>) -> bool;

/// What rendering a template against a scheme produces. Both the template
/// text and the scheme contents determine the output; nothing else does.
pub uninterp spec fn render_of(t: Seq<char>, d: SchemeData) -> Seq<char>;

/// Build a template: substitute the scheme into the template body and
/// return the rendered document.
///
/// Relies on `base16_color_scheme`'s `Template` — ramhorns' mustache
/// engine: `Template::new` rejects a document whose tag syntax cannot be
/// parsed, before any scheme is seen, and `render` is a pure function of
/// the parsed template and the scheme it is given.
///
/// A color slot the template names but the scheme lacks renders as empty
/// text rather than failing. That is the engine's behavior, kept
/// deliberately: existing template files depend on the engine's exact
/// output, so the substitution grammar is not reimplemented here and its
/// treatment of absent fields comes with it.
#[verifier::external_body]
pub fn build_template(template_base: &str, scheme: &ColorScheme) -> (r: Result<String, Error>)
    ensures
        r is Ok <==> valid_template(template_base@),
        r matches Ok(out) ==> out@ == render_of(template_base@, scheme@),
        r matches Err(e) ==> e is BadTemplate,
{
    let template = match base16_color_scheme::Template::new(template_base) {
        Ok(t) => t,
        Err(_) => return Err(Error::BadTemplate),
    };
    let palette = base16_color_scheme::Scheme {
        scheme: scheme.name.clone(),
        author: scheme.author.clone(),
        slug: scheme.slug.clone(),
        colors: scheme.colors.iter().map(
            |&(index, c)| (BaseIndex(index), RgbColor([c.r, c.g, c.b])),
        ).collect(),
    };
    Ok(template.render(&palette))
}

/// Render scheme file contents against a template body, with the given
/// slug: the slug always comes from the caller — in the build workflow the
/// resolved file's stem — never from the scheme text itself.
pub fn build(scheme_slug: String, scheme_contents: &str, template_contents: &str) -> (r: Result<
    String,
    Error,
>)
    ensures
        scheme_of_yaml(scheme_contents@) is None ==> (r matches Err(e) && e is NotAScheme),
        scheme_of_yaml(scheme_contents@) matches Some(d) ==> ({
            let with_slug = SchemeData { slug: scheme_slug@, ..d };
            &&& (r is Ok <==> valid_template(template_contents@))
            &&& (r matches Ok(out) ==> out@ == render_of(template_contents@, with_slug))
            &&& (r matches Err(e) ==> e is BadTemplate)
        }),
{
    let mut scheme = match parse_scheme(scheme_contents) {
        Some(s) => s,
        None => {
            return Err(Error::NotAScheme);
        },
    };
    let ghost d = scheme@;
    scheme.slug = scheme_slug;
    assert(scheme@ == SchemeData { slug: scheme_slug@, ..d });
    build_template(template_contents, &scheme)
}

} // verus!
