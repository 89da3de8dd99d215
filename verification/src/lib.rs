//! Merging of PDF documents: several independently authored object graphs are
//! reconciled into one graph with a single catalog, a single page tree and
//! non-colliding object identifiers, with one bookmark for each source.
//!
//! The documents themselves are held by the document model library. The
//! module `model` says what a document holds, `adapter` says what each call
//! into the library is taken to do to it, and `merge` is the engine, with
//! what it produces in `merge::graph` and what holds of every merge in
//! `merge::laws`. What the library does to a document behind a name is not
//! taken on trust where it can be looked at: before a merged document is
//! handed out, `merge::roots` and `merge::outline_tree` look once more at
//! its pages, its roots and its outline.

pub mod model;
pub mod model_lemmas;
pub mod bookmark;
pub mod error;
pub mod paths;
pub mod cli;
pub mod adapter;
pub mod merge;
