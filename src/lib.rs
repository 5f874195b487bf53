//! A concurrent double-ended queue whose four operations coordinate through a
//! packed cursor, tagged slot entries and an arena of payload cells. Slot claims
//! and cursor moves are lock-free; each arena cell is exchanged under a short
//! lock of its own.
//!
//! What is proved of `Joque` itself is what holds whatever the shared words
//! hold: each decision an operation takes on the values it read goes through a
//! function of `word`, `ring`, `arena` or `step` with an exact contract, no
//! operation panics or overflows, every loop ends, a failed push hands its
//! payload back, and every payload a pop hands out satisfies the predicate the
//! deque was built with. The deque's contents live in atomics whose values the
//! verifier does not follow across calls, so the laws about them (order at each
//! end, transit between ends, wrap, no duplication, no forged payload) are
//! proved in `model` over the quiescent model built from those same decision
//! functions, and the cursor bounds in `cursor` over any order of cursor moves.
//! No proof ties the steps of `Joque` to the steps of the model.
pub mod word;
pub mod cursor;
pub mod ring;
pub mod arena;
pub mod step;
pub mod joque;
pub mod model;

pub use joque::{Joque, PopError, PushError};
pub use ring::End;
