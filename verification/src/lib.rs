//! Rendering core for a GitHub activity summary: an immutable `Stats`
//! snapshot, a tag-substitution engine for SVG templates, and the three
//! renderers that turn a snapshot into overview, language-bar and
//! contribution-grid markup.

pub mod grid;
pub mod image_gen;
pub mod stats;
pub mod subst;
pub mod text;
