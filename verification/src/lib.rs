//! Small verified components: a lexicographic string comparison, a summing
//! buffer, a stack, a reference-counted pointer, a wake-up signal, a run
//! queue, and a key-value service with its command parser and web replies.
pub mod assoc;
pub mod buffer;
pub mod command;
pub mod filter;
pub mod http;
pub mod letters;
pub mod lifo;
pub mod my_rc;
pub mod number;
pub mod redis;
pub mod run_queue;
pub mod signal;
pub mod strcmp;
pub mod sums;
pub mod text;
