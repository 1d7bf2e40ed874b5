//! The book tree the counter walks, and the configuration it reads.

use vstd::prelude::*;

verus! {

/// A named node of the book tree, carrying its own text and its
/// sub-chapters. Names need not be unique and may be empty.
pub struct Chapter {
    pub name: String,
    pub content: String,
    pub sub_items: Vec<BookItem>,
}

/// A node of the book tree: a chapter, or a marker that carries no
/// countable text.
pub enum BookItem {
    Chapter(Chapter),
    Separator,
}

/// The configuration the counter reads: the names of the chapters to leave
/// out of the count.
#[derive(Debug)]
pub struct WordcountConfig {
    pub ignores: Vec<String>,
}

impl Default for WordcountConfig {
    /// The default configuration excludes no chapter.
    fn default() -> (cfg: WordcountConfig)
        ensures
            cfg.ignores@ == Seq::<String>::empty(),
    {
        WordcountConfig { ignores: Vec::new() }
    }
}

/// The exclusion configuration for a run: the section as it was found, or
/// the default (no exclusions) where the configuration has no such section.
pub fn resolve_config(section: Option<WordcountConfig>) -> (cfg: WordcountConfig)
    ensures
        match section {
            Some(c) => cfg == c,
            None => cfg.ignores@ == Seq::<String>::empty(),
        },
{
    match section {
        Some(c) => c,
        None => WordcountConfig::default(),
    }
}

} // verus!
