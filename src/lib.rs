//! Searching a manual page's rendered text: cleaning the renderer's output,
//! finding the lines that hold a term, and the selection state of the
//! interactive list of hits.

pub mod chars;
pub mod sanitize;
pub mod search;
pub mod display;
pub mod selector;
pub mod page;
