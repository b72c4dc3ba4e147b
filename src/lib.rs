//! Shuffles that leave no element where it started.
//!
//! A result is drawn by rejection: the candidate is permuted at random until no
//! position holds an element equal to the one the source holds there (and, in
//! the extended form, to the one a prior sequence holds there).
pub mod derange;
pub mod positions;
mod random;

pub use derange::{extended_shuffle, extended_shuffle_within, shuffle, shuffle_within};
pub use positions::{any_eq, extended_any_eq};
