//! A fixed-capacity, append-only ring buffer with derived analytics:
//! running min/max range discovery over the stored values.
//!
//! When the buffer is full, each append overwrites the logically oldest
//! element. Iteration always runs from the oldest surviving element to the
//! newest.

mod elem;
mod hist;
mod range;
mod ring;

pub use elem::Element;
pub use hist::check_ring_size;
pub use hist::Error;
pub use range::FindRange;
pub use range::Range;
pub use ring::lemma_filling_keeps_all;
pub use ring::lemma_full_keeps_newest;
pub use ring::lemma_newest_is_last_appended;
pub use ring::lemma_surviving_step;
pub use ring::surviving;
pub use ring::Ring;
pub use ring::RingIterator;
