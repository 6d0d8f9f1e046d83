//! Link-preview metadata from raw HTML: title, description, image, site
//! name and favicon, found by bounded substring search.

pub mod entities;
pub mod feedback;
pub mod fetch;
pub mod laws;
pub mod locator;
pub mod resolver;
pub mod text;
pub mod url;
