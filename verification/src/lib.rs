//! Source-level instrumentation toolchain: discovery, ordering and synthesis
//! of probe rewrites over a program syntax tree, plus the record types that
//! the synthesised probes emit at run time.

pub mod ast;
pub mod collect;
pub mod data;
pub mod finder;
pub mod laws;
pub mod resolver;
pub mod rewrite;
pub mod strings;
