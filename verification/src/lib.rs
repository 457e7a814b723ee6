//! A compiler core for a small Lisp-like markup notation.
//!
//! Source text such as `(div :style "background: white" (h1 "hello"))` is
//! parsed into a [`Node`] tree and rendered back out as HTML, either on a
//! single line ([`Node::render_compact`]) or indented ([`Node::pretty_print`]).

pub mod config;
pub mod grammar;
pub mod laws;
pub mod node;
pub mod parser;
pub mod render;
pub mod text;

pub use node::Node;
