//! The core of a modal, structural code editor: a buffer that holds a text as a rope together
//! with its syntax tree and what is laid over it, selection modes that move cursors over
//! characters, words, lines, syntax nodes, matches of a search and bookmarks, transactions that
//! apply the edits of many cursors at once, and a history that takes changes back and does
//! them again.
//!
//! Every function states what it does as a contract over mathematical views of its data, and
//! the contracts are proved. What the rope, the regular expressions, the diffs and the parser
//! do is taken on trust from the crates that provide them; each such place says so.

pub mod app;
pub mod buffer;
pub mod char_index;
pub mod components;
pub mod context;
pub mod diagnostic;
pub mod edit;
pub mod error;
pub mod history;
pub mod key_event_parser;
pub mod list;
pub mod lsp;
pub mod overlay;
pub mod parser;
pub mod rectangle;
pub mod regex_search;
pub mod selection;
pub mod selection_mode;
pub mod sorting;
pub mod syntax;
pub mod text;
pub mod words;
