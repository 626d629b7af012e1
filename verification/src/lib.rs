//! A small verified library built around two ideas: a closed set of shape
//! variants evaluated by exhaustive dispatch, and fallible arithmetic
//! operations whose outcomes are explicit values rather than sentinels.
//!
//! Numeric quantities are fixed-point decimals ([`fixed::Fixed`]): an integer
//! count of trillionths, so twelve decimal places are carried exactly and
//! every arithmetic claim is proved over plain integers.

pub mod counter;
pub mod fixed;
pub mod ops;
pub mod shape;
pub mod outcome;
pub mod search;
pub mod text;
