//! The host language of a template: what its string literals mean and which
//! texts are expressions and statements of it.

use crate::text::hashes_end;
use vstd::prelude::*;

verus! {

/// The syntax of a host language, as far as the notation of templates needs
/// it.
pub trait HostSyntax {
    /// The text that a string literal, given with its quotes, stands for;
    /// `None` where it is no string literal of the host language.
    spec fn literal_value(&self, literal: Seq<char>) -> Option<Seq<char>>;

    /// Whether `source` is an expression of the host language.
    spec fn is_expression(&self, source: Seq<char>) -> bool;

    /// Whether `source` is a run of statements of the host language.
    spec fn is_statements(&self, source: Seq<char>) -> bool;

    /// Decodes a string literal.
    fn decode_literal(&self, literal: &str) -> (value: Option<String>)
        ensures
            same_text(value, self.literal_value(literal@)),
    ;

    /// Checks an expression.
    fn check_expression(&self, source: &str) -> (ok: bool)
        ensures
            ok == self.is_expression(source@),
    ;

    /// Checks a run of statements.
    fn check_statements(&self, source: &str) -> (ok: bool)
        ensures
            ok == self.is_statements(source@),
    ;
}

/// Whether `value` holds the text `model`, or both are absent.
pub open spec fn same_text(value: Option<String>, model: Option<Seq<char>>) -> bool {
    match model {
        Some(text) => match value {
            Some(s) => s@ == text,
            None => false,
        },
        None => value is None,
    }
}

/// The value of `text` read as one Rust string literal, as `syn` parses and
/// decodes it; `None` where `syn` does not take `text` for a string literal.
pub uninterp spec fn rust_string_literal(text: Seq<char>) -> Option<Seq<char>>;

/// Whether `syn` parses `text` as one Rust expression.
pub uninterp spec fn rust_expression(text: Seq<char>) -> bool;

/// Whether `syn` parses `text` as the statements inside a Rust block.
pub uninterp spec fn rust_statements(text: Seq<char>) -> bool;

/// Calls `syn::parse_str` for a `syn::LitStr` and, where that succeeds,
/// `LitStr::value`. The contract claims only that the outcome depends on the
/// text alone: it is the value named [`rust_string_literal`].
#[verifier::external_body]
fn parse_rust_string_literal(text: &str) -> (value: Option<String>)
    ensures
        same_text(value, rust_string_literal(text@)),
{
    match syn::parse_str::<syn::LitStr>(text) {
        Ok(literal) => Some(literal.value()),
        Err(_) => None,
    }
}

/// Calls `syn::parse_str` for a `syn::Expr`. The contract claims only that
/// the outcome depends on the text alone: it is the value named
/// [`rust_expression`].
#[verifier::external_body]
fn parse_rust_expression(text: &str) -> (ok: bool)
    ensures
        ok == rust_expression(text@),
{
    syn::parse_str::<syn::Expr>(text).is_ok()
}

/// Calls `syn::parse::Parser::parse_str` with `syn::Block::parse_within`.
/// The contract claims only that the outcome depends on the text alone: it
/// is the value named [`rust_statements`].
#[verifier::external_body]
fn parse_rust_statements(text: &str) -> (ok: bool)
    ensures
        ok == rust_statements(text@),
{
    syn::parse::Parser::parse_str(syn::Block::parse_within, text).is_ok()
}

/// Rust as the host language, read by `syn`.
pub struct RustSyntax;

impl HostSyntax for RustSyntax {
    open spec fn literal_value(&self, literal: Seq<char>) -> Option<Seq<char>> {
        rust_string_literal(literal)
    }

    open spec fn is_expression(&self, source: Seq<char>) -> bool {
        rust_expression(source)
    }

    open spec fn is_statements(&self, source: Seq<char>) -> bool {
        rust_statements(source)
    }

    fn decode_literal(&self, literal: &str) -> (value: Option<String>) {
        parse_rust_string_literal(literal)
    }

    fn check_expression(&self, source: &str) -> (ok: bool) {
        parse_rust_expression(source)
    }

    fn check_statements(&self, source: &str) -> (ok: bool) {
        parse_rust_statements(source)
    }
}

/// The text between the delimiters of a literal, taken as it stands: for a
/// quoted literal what lies between the two quotes, for a raw literal what
/// lies between `r`, the hashes and the quote at either end.
pub open spec fn verbatim_value(literal: Seq<char>) -> Option<Seq<char>> {
    if literal.len() >= 2 && literal[0] == '"' {
        Some(literal.subrange(1, literal.len() - 1))
    } else if literal.len() >= 1 && literal[0] == 'r' {
        let n = hashes_end(literal, 1) - 1;
        if literal.len() >= 2 * n + 3 {
            Some(literal.subrange(n + 2, literal.len() - n - 1))
        } else {
            None
        }
    } else {
        None
    }
}

/// No host language: a literal stands for the text between its delimiters,
/// with nothing decoded, and any host code is taken as it is.
pub struct PlainSyntax;

impl HostSyntax for PlainSyntax {
    open spec fn literal_value(&self, literal: Seq<char>) -> Option<Seq<char>> {
        verbatim_value(literal)
    }

    open spec fn is_expression(&self, source: Seq<char>) -> bool {
        true
    }

    open spec fn is_statements(&self, source: Seq<char>) -> bool {
        true
    }

    fn decode_literal(&self, literal: &str) -> (value: Option<String>) {
        let input = crate::text::Input::new(literal);
        let len = input.len();
        if len >= 2 && input.is(0, '"') {
            Some(input.slice(1, len - 1))
        } else if input.is(0, 'r') {
            let n = input.hashes_end(1) - 1;
            if len - 1 >= n && len - 1 - n >= 2 && len - 3 - n >= n {
                Some(input.slice(n + 2, len - n - 1))
            } else {
                None
            }
        } else {
            None
        }
    }

    fn check_expression(&self, source: &str) -> (ok: bool) {
        true
    }

    fn check_statements(&self, source: &str) -> (ok: bool) {
        true
    }
}

} // verus!
