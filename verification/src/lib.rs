//! A static-site generator for dated markdown-like posts.
//!
//! The heart of the crate is the markup parser under [`parser`]: it reduces a raw
//! document to a content tree, groups it into paragraphs and header cards, removes
//! empty nodes and extracts the document's directives. The modules [`builder`] and
//! [`html`] assemble the site-wide pages and render trees to markup.
//!
//! Every stage returns a [`Res`]: a value, a value with warnings, or a failure.

pub mod builder;
pub mod config;
pub mod console;
pub mod context;
pub mod crawler;
pub mod directory;
pub mod env_args;
pub mod html;
pub mod order;
pub mod outcome;
pub mod parser;
pub mod text;
pub mod theme;

pub use context::{Context, Links};
pub use directory::Directory;
pub use outcome::{Item, Location, Res};
