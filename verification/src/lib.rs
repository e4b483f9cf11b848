//! A dice roller whose every result is fixed by a seed.
//!
//! A [`SeededDiceRoller`] is built from a seed and a step. It rolls dice,
//! draws integers and booleans, and picks one entry of a weighted list, and
//! it gives the same answers whenever the same calls are made in the same
//! order on the same seed and step.
//!
//! - [`generator`]: the roller, its state as the proofs see it, and its draws.
//! - [`dice`]: rolls of dice.
//! - [`choices`]: dice expressions, methods, weighted entries and lists.
//! - [`intervals`]: the scale that shares the totals out among the entries.
//! - [`select`]: picking an entry with each of the methods.
//! - [`theorems`]: what holds of every roll and every selection.

pub mod choices;
pub mod dice;
pub mod generator;
pub mod intervals;
pub mod select;
pub mod theorems;

pub use crate::choices::{
    CopyableRollToProcess, CopyableWeightedResult, PreparedRoll, RangedResult, RollMethod,
    RollToProcess, WeightedResult,
};
pub use crate::generator::{ranged_draw, stream_word, RollerState, SeededDiceRoller};
