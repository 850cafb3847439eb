//! A line-oriented shell over a small collection of tagged bookmarks kept in a
//! flat text file: the record codec, the store's line format, the tokenizer,
//! the command registry and the shell's dispatch, each with its contract.

/// Character-level helpers: words, joins, substrings, decimal positions.
pub mod text;
/// The bookmark record and its stored and human-oriented lines.
pub mod data;
/// Loading and saving a collection as stored lines.
pub mod store;
/// The shell session: commands, their registry and the dispatch of one line.
pub mod live;
