//! Front end of a build/generation tool: it reads a declarative configuration
//! text describing how files and directories are assembled from sources and
//! transformed by chained generator modules, and turns that text into a typed,
//! position-annotated syntax tree, together with read-only queries over the
//! resolved object tree that a later resolution pass produces.

pub mod char_iter;
pub mod configuration;
pub mod draft;
pub mod sha3;
pub mod text;
pub mod time;
