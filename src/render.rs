use handlebars::{Handlebars, RenderError};
use vstd::prelude::*;

use crate::collisions::names_of;
use crate::plan::{plan_actions, planned, steps_of, Action};
use crate::reconcile::{ConflictBehavior, InixDir};
use crate::template::{
    template_names, template_names_of, Template2, BASE_ENVRC_TEMPLATE, BASE_SHELL_NIX_TEMPLATE,
};

verus! {

/// `RenderError` of the handlebars crate.
#[verifier::external_type_specification]
#[verifier::external_body]
pub struct ExRenderError(RenderError);

/// What handlebars renders from a template source, given a `templates`
/// list of names as the data.
pub uninterp spec fn rendered(source: Seq<char>, names: Seq<Seq<char>>) -> Seq<char>;

/// Whether handlebars renders a template source with a `templates` list of
/// names as the data, rather than failing.
pub uninterp spec fn renders(source: Seq<char>, names: Seq<Seq<char>>) -> bool;

/// Relies on handlebars' `Registry::render_template`, on a fresh registry
/// with the data `{ "templates": names }`: the output depends on the
/// source and the names alone, and so does whether it fails.
#[verifier::external_body]
fn render_with_names(source: &str, names: &Vec<String>) -> (r: Result<String, RenderError>)
    ensures
        r is Ok <==> renders(source@, names_of(names@)),
        r is Ok ==> r->Ok_0@ == rendered(source@, names_of(names@)),
{
    let mut data = std::collections::HashMap::new();
    data.insert("templates", names);
    Handlebars::new().render_template(source, &data)
}

/// Why no plan could be made.
#[derive(Clone, Copy, Debug, PartialEq, Eq, Structural)]
pub enum ReconcileError {
    /// A top-level file could not be rendered.
    Render,
}

/// The plan for a run: renders the top-level `shell.nix` and `.envrc`
/// with the requested names, then lays out the actions. It fails exactly
/// when one of the two cannot be rendered.
pub fn plan(target: &str, dir: &InixDir, b: ConflictBehavior, templates: &Vec<Template2>) -> (r:
    Result<Vec<Action>, ReconcileError>)
    ensures
        r is Ok ==> steps_of(r->Ok_0@) == planned(
            dir.path@,
            target@,
            dir.state,
            b,
            templates@,
            rendered(BASE_SHELL_NIX_TEMPLATE@, template_names_of(templates@)),
            rendered(BASE_ENVRC_TEMPLATE@, template_names_of(templates@)),
        ),
        r is Ok <==> renders(BASE_SHELL_NIX_TEMPLATE@, template_names_of(templates@)) && renders(
            BASE_ENVRC_TEMPLATE@,
            template_names_of(templates@),
        ),
        r is Err ==> r->Err_0 == ReconcileError::Render,
{
    let names = template_names(templates);
    let nix = match render_with_names(BASE_SHELL_NIX_TEMPLATE, &names) {
        Result::Ok(s) => s,
        Result::Err(_) => return Result::Err(ReconcileError::Render),
    };
    let envrc = match render_with_names(BASE_ENVRC_TEMPLATE, &names) {
        Result::Ok(s) => s,
        Result::Err(_) => return Result::Err(ReconcileError::Render),
    };
    Result::Ok(plan_actions(target, dir, b, templates, nix.as_str(), envrc.as_str()))
}

} // verus!
