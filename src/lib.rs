//! A small interpreter for branching text adventures: a story document is
//! parsed into a tree, the tree is turned into a graph of nodes and choices,
//! and a session walks that graph one line of player input at a time.

pub mod document;
pub mod error;
pub mod game;
pub mod story;
