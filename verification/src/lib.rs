//! Renders text from a template whose embedded directives pull values out of
//! a structured document located by CSS-style selectors, optionally iterating
//! over repeated elements.
//!
//! A template is scanned into literal spans and directive bodies, each
//! directive body is tokenized into key/value fragments, the resulting draft
//! nodes are assembled into a tree over an explicit stack of open iterations,
//! and the tree is evaluated against an injected document capability: either
//! real markup parsing over fetched content, or an in-memory fixture that
//! makes rendering deterministic end to end.

pub mod document;
pub(crate) mod fetch;
pub mod strutil;
pub mod template_parser;
