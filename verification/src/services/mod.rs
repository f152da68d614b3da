//! Services over the models: autosave scheduling, word counts, search and
//! preview text.

pub mod autosave;
pub mod preview;
pub mod search;
pub mod word_count;

pub use autosave::{action_for, DebounceTimer, SaveAction, SaveTrigger, TEXT_DEBOUNCE_MS};
pub use word_count::{
    block_counts_toward_words, count_chapter, count_chars, count_script, update_book_total,
    ChapterStats, CharBreakdown, ScriptStats,
};
