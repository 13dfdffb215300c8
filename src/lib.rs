//! A small line-oriented substring search: the parameters of a run, the
//! search itself in a case-sensitive and a case-insensitive form, and what a
//! run yields for the text it read. Beside it stand a few small items: a
//! calculation cache, vegetables and appetizers.
pub mod cache;
pub mod config;
pub mod laws;
pub mod lines;
pub mod menu;
pub mod plant;
pub mod runner;
pub mod search;
pub mod text;
