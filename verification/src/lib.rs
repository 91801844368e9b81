//! A transcoding proxy core for a legacy handheld browser: it decodes the
//! device-capability tokens that the browser packs into the request path,
//! prunes fetched HTML down to the tags the browser can render, and turns
//! every failure into a well-formed error page.

pub mod capability;
pub mod dom;
pub mod editor;
pub mod escape;
pub mod filter;
pub mod guard;
pub mod pages;
pub mod tags;
pub mod text;
