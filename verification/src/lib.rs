//! A small markup templating engine.
//!
//! A template is written in a compact notation for HTML trees. The parser
//! turns its text into a tree; the generator turns the tree, together with
//! the values bound to its host code for one invocation, into a render
//! procedure: a plan of writer calls in the order of the document. Running
//! the procedure against a writer emits the HTML.
//!
//! - [`html`]: the writer contract, the buffer writer, and the protocol of
//!   renderable values.
//! - [`procedure`]: render procedures and the closed family of renderable
//!   values.
//! - [`ast`], [`text`], [`host`], [`parser`]: the tree of a template and how
//!   its text is read.
//! - [`printer`]: the text of a tree, and the proof that the parser reads it
//!   back as the same tree.
//! - [`bindings`], [`generator`], [`template`]: the values of one invocation
//!   and how a plan is made of them.
//! - [`nesting`], [`laws`]: what holds of every plan.
//! - [`util`], [`page`], [`blog`]: components and pages of a blog.

pub mod ast;
pub mod bindings;
pub mod blog;
pub mod generator;
pub mod host;
pub mod html;
pub mod laws;
pub mod nesting;
pub mod page;
pub mod parser;
pub mod printer;
pub mod procedure;
pub mod template;
pub mod text;
pub mod util;
