//! Listings of a documentation index page: extraction, link resolution and
//! lookup by name.
pub mod text;
pub mod content;
pub mod link;
pub mod markup;
pub mod extract;
pub mod state;
pub mod command;
pub mod source;
