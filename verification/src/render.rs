//! The renderer: binds the assembled context to one template's text and
//! produces rendered text through the outside template engine, with
//! autoescaping disabled.

use vstd::prelude::*;
use crate::context::Context;
use crate::error::Error;

verus! {

/// Relies on tera: `Tera::default`, `autoescape_on`, `add_raw_template`,
/// `render` and `Context::from_value`. Parses `text` as a template named
/// `id` and evaluates it against the object, with autoescaping disabled.
/// The engine's output is not a function of the inputs alone (built-in
/// template functions reach the clock, the environment and a random
/// source), so nothing is promised of the result; on failure the engine's
/// diagnostic and its root cause are both surfaced in the message.
#[verifier::external_body]
fn tera_render(id: &str, text: &str, object: &serde_json::Value) -> Result<String, String> {
    let ctx = match tera::Context::from_value(object.clone()) {
        Ok(c) => c,
        Err(e) => return Err(e.to_string()),
    };
    let mut engine = tera::Tera::default();
    engine.autoescape_on(Vec::new());
    engine.add_raw_template(id, text).and_then(|_| engine.render(id, &ctx)).map_err(
        |e| match <tera::Error as std::error::Error>::source(&e) {
            Some(cause) => format!("{}\n{}", e, cause),
            None => e.to_string(),
        },
    )
}

/// Renders one template against the context. The template text is compiled
/// once under `template_id` and evaluated with autoescaping disabled:
/// output is treated as plain text, never HTML-escaped, whatever the
/// template's extension. The engine's output can depend on more than the
/// context and the text (a template may call the clock), so success
/// promises the engine's text as it came; a failure carries the template
/// identifier and the engine's full diagnostic chain.
pub fn render(context: &Context, template_id: &str, template_text: &str) -> (r: Result<
    String,
    Error,
>)
    ensures
        r matches Err(e) ==> (e matches Error::TemplateRender { template, message } && template@
            == template_id@),
{
    let object = context.to_object();
    match tera_render(template_id, template_text, &object) {
        Ok(s) => Ok(s),
        Err(message) => Err(
            Error::TemplateRender { template: template_id.to_owned(), message },
        ),
    }
}

} // verus!
