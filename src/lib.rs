//! A byte buffer that keeps up to `N` bytes inline in a `SmallVec` and
//! spills to the heap past that, with a two-phase "take a writable chunk,
//! then commit" write path.

mod buffer;
mod laws;
mod source;
mod store;

pub use buffer::{be_u16, chunk_capacity, fill_len, lex_cmp, SmallBytes, CHUNK_GROWTH};
pub use laws::{
    lemma_fill_len_clamps, lemma_remaining_after_write, lemma_reserve_never_shrinks,
    lemma_spill_invisible, lemma_truncate_then_append, written, written_all, Write,
};
pub use source::ByteSource;
pub use store::{next_pow2, pow2_at_least, repeat, reserved_capacity, MAX_LEN};
