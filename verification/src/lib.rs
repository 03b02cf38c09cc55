//! A cancellable, multi-query text search engine: pattern compilation, the
//! assembly of matched and context lines into entries, and the decisions of a
//! search session, each with a machine-checked contract. With it come the
//! command line of the editor that opens a result, and the splitting of
//! command lines into arguments.

pub mod args;
pub mod editor;
pub mod search;
pub mod sys;
pub mod text;
