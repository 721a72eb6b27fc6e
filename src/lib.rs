//! Rendering of a small Lua syntax tree into compact source text, and a
//! configurable pipeline of behaviour-preserving rules over that tree, with a
//! codec between rule instances and weakly-typed configuration documents.
pub mod generator;
pub mod nodes;
pub mod rules;
pub mod codec;
