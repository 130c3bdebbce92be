//! A static-analysis engine over a parsed program tree.
//!
//! The engine enforces three conventions around a restricted external
//! library: calls into it must happen inside a closure passed to one of a
//! few wrapper helpers; symbols imported from it must be spelled with a
//! qualified path; and every unsafe function or non-empty unsafe block must
//! be preceded by a safety comment.  Parsing, name resolution and
//! diagnostic rendering belong to external collaborators; the engine reads
//! a tree of plain values and returns the findings in traversal order.

pub mod bytes;
pub mod engine;
pub mod laws;
pub mod marker;
pub mod origin;
pub mod runtime;
pub mod scope;
pub mod tree;


