//! A desugaring pass for two templating pseudo-elements — a single-branch
//! conditional tag and a multi-branch switch tag — embedded in a component
//! template tree.  Both are rewritten into plain conditional expressions in a
//! form chosen by the syntactic slot they occupy; a second pass then strips
//! the synthetic placeholder wrappers the first pass introduces.

pub mod ast;
pub mod driver;
pub mod directives;
pub mod laws;
pub mod markers;
pub mod nesting;
pub mod post;
pub mod render;
pub mod rewrite;

pub use ast::{Ctx, Program};
pub use driver::{process_transform, transformed, Config};
pub use post::post_process;
pub use rewrite::rewrite;
