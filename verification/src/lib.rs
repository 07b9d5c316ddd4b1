//! Serving files only to users signed in through GitHub: the verified core.

pub mod text;
pub mod config;
pub mod simple_html;
pub mod cookie;
pub mod github;
pub mod handler;
