//! The modal cursor-motion engine of a text editor, with the pure parts
//! of the panels built around it: address translation between offsets
//! and (line, column) pairs, word/WORD and paragraph boundary motions,
//! single-character search with repeat, a count accumulator, the mode
//! state machine that dispatches key events, find and replace, the
//! command input and palette, the file tree, icon lookup, and workspace
//! search helpers.  Positions are always indices into the buffer's
//! sequence of Unicode scalar values, clamped to `[0, char_count]`.

pub mod autocomplete;
pub mod chars;
pub mod classify;
pub mod command_input;
pub mod command_palette;
pub mod dispatch;
pub mod file_tree;
pub mod fuzzy_finder;
pub mod find_replace;
pub mod hotkey;
pub mod icons;
pub mod laws;
pub mod lines;
pub mod modes;
pub mod motions_basic;
pub mod motions_find;
pub mod motions_para;
pub mod motions_word;
pub mod search;
pub mod syntax;
pub mod terminal;
pub mod text_search;
pub mod vim_mode;
