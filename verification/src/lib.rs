//! Word counting for a book: a per-chapter word count under a configurable
//! word definition, and an aggregation pass over the chapter tree that
//! applies a chapter-name exclusion list and accumulates a grand total.

pub mod book;
pub mod report;
pub mod words;
