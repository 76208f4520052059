//! Reference-counted handles over an explicit, checked heap.
//!
//! Every block lives in a slot of a `Store`; a `Ptr` names a slot. Freed
//! slots are never reused, so a freed block stays freed for every alias.

mod garbage;
mod laws;
mod ptr;

pub use garbage::{check_heap, Garbage, Heap};
pub use laws::{
    handle_step, lemma_count_after_copies, lemma_create_release_balanced,
    lemma_freed_is_terminal, lemma_release_keeps_aliases, lemma_release_to_zero_frees,
    lemma_replace_visible, lemma_second_release_refused,
};
pub use ptr::{live_count, Ptr, Store};
