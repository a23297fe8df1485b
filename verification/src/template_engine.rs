//! The template engine: `handlebars`.
//!
//! Verus does not look into a registry of templates. What a registry holds
//! has a name here, and so have the two things that the engine computes:
//! whether a template parses, and what a template renders to. Each call into
//! `handlebars` states over these names what the crate's source shows. None of
//! these statements is proved.

use vstd::prelude::*;
use crate::json_data::object_texts;
use crate::partials::includes_partial;

verus! {

/// `handlebars::Handlebars`: a registry of templates.
#[verifier::external_type_specification]
#[verifier::external_body]
pub struct ExRegistry<'reg>(handlebars::Handlebars<'reg>);

/// `handlebars::TemplateError`: why a template did not parse.
#[verifier::external_type_specification]
#[verifier::external_body]
pub struct ExTemplateError(handlebars::TemplateError);

/// `handlebars::RenderError`: why a template did not render.
#[verifier::external_type_specification]
#[verifier::external_body]
pub struct ExRenderError(handlebars::RenderError);

/// The templates of a registry, each name with the text it was registered
/// from, where the registry is as `Handlebars::new` makes it but for templates
/// registered from text. None for any other registry.
pub uninterp spec fn registered(registry: handlebars::Handlebars<'static>) -> Option<
    Map<Seq<char>, Seq<char>>,
>;

/// True where `text` parses as a template that is registered as `name`.
pub uninterp spec fn template_parses(name: Seq<char>, text: Seq<char>) -> bool;

/// What the template `name` among `templates` renders to with the members of
/// `data` as its fields; none where rendering fails.
pub uninterp spec fn rendered(
    templates: Map<Seq<char>, Seq<char>>,
    name: Seq<char>,
    data: Map<Seq<char>, Seq<char>>,
) -> Option<Seq<char>>;

/// `Handlebars::new`. Claimed: the new registry holds no template.
#[verifier::external_body]
pub(crate) fn new_registry() -> (registry: handlebars::Handlebars<'static>)
    ensures
        registered(registry) == Some(Map::<Seq<char>, Seq<char>>::empty()),
{
    handlebars::Handlebars::new()
}

/// `Handlebars::register_template_string`. Claimed: it succeeds exactly where
/// the text parses; then the name goes with the text, a template of that name
/// being replaced; on failure the registry is as before.
#[verifier::external_body]
pub(crate) fn register_template_string(
    registry: &mut handlebars::Handlebars<'static>,
    name: &str,
    text: &str,
) -> (done: Result<(), handlebars::TemplateError>)
    requires
        registered(*old(registry)) is Some,
    ensures
        (done is Ok) == template_parses(name@, text@),
        done is Ok ==> registered(*final(registry)) == Some(
            registered(*old(registry))->0.insert(name@, text@),
        ),
        done is Err ==> registered(*final(registry)) == registered(*old(registry)),
{
    registry.register_template_string(name, text)
}

/// True where no template among `templates` includes a partial.
pub open spec fn free_of_partials(templates: Map<Seq<char>, Seq<char>>) -> bool {
    forall|name: Seq<char>|
        templates.dom().contains(name) ==> !includes_partial(#[trigger] templates[name])
}

/// `Handlebars::render`, on a JSON object of strings. Claimed: the outcome is
/// the one that `rendered` names: it depends on the registered templates, the
/// name and the data, and on nothing else.
///
/// Templates that include partials are left out: the engine renders a
/// partial by a call of itself without a limit, and does not return where a
/// partial includes itself.
#[verifier::external_body]
pub(crate) fn render(
    registry: &handlebars::Handlebars<'static>,
    name: &str,
    data: &serde_json::Value,
) -> (out: Result<String, handlebars::RenderError>)
    requires
        registered(*registry) is Some,
        free_of_partials(registered(*registry)->0),
        object_texts(*data) is Some,
    ensures
        match out {
            Ok(text) => rendered(registered(*registry)->0, name@, object_texts(*data)->0) == Some(
                text@,
            ),
            Err(_) => rendered(registered(*registry)->0, name@, object_texts(*data)->0) is None,
        },
{
    registry.render(name, data)
}

} // verus!
