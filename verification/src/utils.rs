pub mod ast;
pub mod detect_language;
pub mod git;
pub mod highlighter;
pub mod html;
pub mod images;
pub mod shared;
pub mod theme;
