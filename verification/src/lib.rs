//! A deterministic, seedable byte-buffer mutation engine: the havoc stage of
//! a coverage-guided fuzzer.  A caller-owned chained generator drives a
//! library of small structural edits (bit flips, interesting-constant
//! overwrites, arithmetic perturbation, block copy/overwrite, block delete,
//! block insertion) over an owned byte buffer with a logical length.

pub mod chain_rng;
pub mod mutator;

pub use chain_rng::ChainRng;
pub use chain_rng::hash64;
pub use chain_rng::ri;
pub use mutator::bitflip_1;
pub use mutator::byte_arith;
pub use mutator::byte_intersting;
pub use mutator::byte_random;
pub use mutator::bytes_random;
pub use mutator::choose_block_len;
pub use mutator::dword_arith;
pub use mutator::dword_intersting;
pub use mutator::havoc;
pub use mutator::min;
pub use mutator::random_delete_bytes;
pub use mutator::random_grow_bytes;
pub use mutator::swap16;
pub use mutator::swap32;
pub use mutator::word_arith;
pub use mutator::word_intersting;
