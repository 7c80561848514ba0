//! Pieces that the pages are made of.
pub mod footer;
pub mod layout;
pub mod navbar;
pub mod post;
