//! Cross-referenced documentation for C++ code.
//!
//! The library builds a documentation model from the declarations of parsed
//! source files and resolves the types named in it into links:
//!
//! - `entity` is what a C++ front-end hands over, one tree of declarations
//!   for every parsed file;
//! - `parser` walks those trees and fills the `model`, a tree of namespaces,
//!   and the `index` of every registered name;
//! - `templates` resolves the text of a type, met in some namespace, into a
//!   link to the page of the symbol it names;
//! - `render`, `listing`, `pages` and `markdown` say what goes onto the pages
//!   of the site and where the pages go;
//! - `text` is the vocabulary of character sequences that all of them speak.
//!
//! Reading files, parsing C++ and Markdown, highlighting code and filling in
//! page templates are left to the program around the library.

pub mod entity;
pub mod index;
pub mod listing;
pub mod markdown;
pub mod model;
pub mod pages;
pub mod parser;
pub mod render;
pub mod templates;
pub mod text;
