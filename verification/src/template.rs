//! From the text of a template to its render procedure in one step.

use crate::bindings::{bindings_model, Binding, BindingModel};
use crate::generator::{compile, plan_of_list, Components, RenderError};
use crate::host::{HostSyntax, RustSyntax};
use crate::html::Op;
use crate::parser::{parse_template, parse_with, SyntaxError};
use crate::procedure::Procedure;
use vstd::prelude::*;

verus! {

/// Why a template could not be expanded.
#[derive(Clone, Copy, Debug, PartialEq, Eq, Structural)]
pub enum TemplateError {
    /// Its text is malformed.
    Syntax(SyntaxError),
    /// No plan can be made of its tree under the given bindings.
    Render(RenderError),
}

/// The plan of the template written as `source`: that of the tree that the
/// text parses to, under `bindings`.
pub open spec fn expansion<H: HostSyntax, C: Components>(
    source: Seq<char>,
    host: H,
    bindings: Seq<BindingModel>,
    components: C,
) -> Result<Seq<Op>, TemplateError> {
    match parse_template(source, host) {
        Err(e) => Err(TemplateError::Syntax(e)),
        Ok(nodes) => match plan_of_list(nodes, 0, bindings, components) {
            Err(e) => Err(TemplateError::Render(e)),
            Ok(ops) => Ok(ops),
        },
    }
}

/// Whether `r` is the procedure, or the error, that `expected` names.
pub open spec fn expanded(
    r: Result<Procedure, TemplateError>,
    expected: Result<Seq<Op>, TemplateError>,
) -> bool {
    match expected {
        Ok(ops) => r matches Ok(procedure) && procedure@ == ops,
        Err(e) => r matches Err(f) && f == e,
    }
}

/// Parses a template and compiles it under `bindings`.
pub fn expand_with<H: HostSyntax, C: Components>(
    source: &str,
    host: &H,
    bindings: &Vec<Binding>,
    components: &C,
) -> (r: Result<Procedure, TemplateError>)
    ensures
        expanded(r, expansion(source@, *host, bindings_model(bindings@), *components)),
{
    match parse_with(source, host) {
        Err(e) => Err(TemplateError::Syntax(e)),
        Ok(nodes) => match compile(&nodes, bindings, components) {
            Err(e) => Err(TemplateError::Render(e)),
            Ok(procedure) => Ok(procedure),
        },
    }
}

/// Turns the text of a template whose host code is written in Rust into its
/// render procedure under `bindings`.
pub fn trowel_html<C: Components>(source: &str, bindings: &Vec<Binding>, components: &C) -> (r: Result<
    Procedure,
    TemplateError,
>)
    ensures
        expanded(r, expansion(source@, RustSyntax, bindings_model(bindings@), *components)),
{
    expand_with(source, &RustSyntax, bindings, components)
}

} // verus!
