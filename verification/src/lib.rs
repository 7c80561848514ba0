//! A small blog engine: posts are markdown files with a YAML front-matter
//! header, listed newest first and rendered into HTML pages.
pub mod header;
pub mod order;
pub mod post;
pub mod posts;
pub mod router;
pub mod templates;
pub mod text;
pub mod write;
