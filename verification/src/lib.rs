//! Type-graph construction and C++ code emission for JSON Typedef schemas.
//!
//! A schema front end declares one node at a time to a [`state::CppState`],
//! in any order: names that are referred to before they are defined are
//! held by placeholders. The finished state renders the header and the
//! source file under a [`props::CppProps`] configuration.

pub mod cpp_snippets;
pub mod cpp_types;
pub mod laws;
pub mod props;
pub mod schema;
pub mod state;
pub mod target;
pub mod text;

pub use target::Target;
