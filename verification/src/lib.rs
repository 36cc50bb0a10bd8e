//! Shows Markdown in a terminal: a parsed document is prepared, then walked
//! node by node, and what is to be written comes out as a sequence of
//! terminal operations. Source code, tables, lists, callouts, footnotes and
//! links that are defined elsewhere in the document each have their rule; the
//! rules are stated as specifications, and the renderer is proved to follow
//! them.
pub mod admonition;
pub mod app;
pub mod cli;
pub mod config;
pub mod context;
pub mod directory_tree;
pub mod emoji;
pub mod laws;
pub mod model;
pub mod multi_tool;
pub mod node;
pub mod output;
pub mod render;
pub mod table;
pub mod text;
pub mod utils;
pub mod viewers;
