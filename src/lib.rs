//! Edit the metadata block ("frontmatter") at the head of a text document
//! with a Lua script, and put the document back together.

pub mod config;
pub mod engine;
pub mod frontmatter;
