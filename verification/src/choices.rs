//! The values that describe a selection: dice expressions, methods, weighted
//! entries and the lists they form.

use vstd::prelude::*;

verus! {

/// `dice` dice of `die_type` sides each, plus `modifier`.
#[derive(Copy, Clone, Eq, PartialEq, Structural, Ord, PartialOrd, Hash, Debug)]
pub struct PreparedRoll {
    /// How many dice are rolled.
    pub dice: u16,
    /// How many sides each die has. Any number will do, not only those of real dice.
    pub die_type: u32,
    /// What is added to the sum of the dice.
    pub modifier: i32,
}

impl PreparedRoll {
    pub fn new(dice: u16, die_type: u32, modifier: i32) -> (roll: PreparedRoll)
        ensures
            roll == (PreparedRoll { dice, die_type, modifier }),
    {
        PreparedRoll { dice, die_type, modifier }
    }
}

impl Default for PreparedRoll {
    /// One six-sided die, unmodified.
    fn default() -> (roll: PreparedRoll)
        ensures
            roll == (PreparedRoll { dice: 1, die_type: 6, modifier: 0 }),
    {
        PreparedRoll { dice: 1, die_type: 6, modifier: 0 }
    }
}

/// How one entry of a list is picked.
#[derive(Copy, Clone, Eq, PartialEq, Structural, Ord, PartialOrd, Hash, Debug)]
pub enum RollMethod {
    /// Rolls the given dice expression and takes the entry whose share of the
    /// scale holds the total.
    PreparedRoll(PreparedRoll),
    /// Rolls the given number of dice over the combined weight: the more dice,
    /// the more the middle of the list is favoured.
    GaussianRoll(u16),
    /// One die over the combined weight: each entry is as likely as it is heavy.
    SimpleRoll,
}

impl Default for RollMethod {
    fn default() -> (method: RollMethod)
        ensures
            method == RollMethod::SimpleRoll,
    {
        RollMethod::SimpleRoll
    }
}

/// An entry that can be picked, and how heavy it is against the others.
#[derive(Clone, Debug, Default)]
pub struct WeightedResult<T> {
    /// What is handed out when the entry is picked.
    pub result: T,
    /// The entry's share: under [`RollMethod::SimpleRoll`] an entry of weight
    /// 5 is picked five times as often as one of weight 1.
    pub weight: u32,
}

impl<T> WeightedResult<T> {
    pub fn new(result: T, weight: u32) -> (entry: WeightedResult<T>)
        ensures
            entry.result == result,
            entry.weight == weight,
    {
        WeightedResult { result, weight }
    }
}

/// A [`WeightedResult`] whose result can be copied out of the list.
#[derive(Copy, Clone, Debug, Default)]
pub struct CopyableWeightedResult<T> where T: Copy + std::fmt::Debug {
    /// What is handed out when the entry is picked.
    pub result: T,
    /// The entry's share, as in [`WeightedResult`].
    pub weight: u32,
}

impl<T: Copy + std::fmt::Debug> CopyableWeightedResult<T> {
    pub fn new(result: T, weight: u32) -> (entry: CopyableWeightedResult<T>)
        ensures
            entry.result == result,
            entry.weight == weight,
    {
        CopyableWeightedResult { result, weight }
    }
}

/// A list to pick from, and the method to pick with.
#[derive(Clone, Debug, Default)]
pub struct RollToProcess<T> {
    /// The entries, in the order in which they share out the scale.
    pub possible_results: Vec<WeightedResult<T>>,
    /// How the entry is picked.
    pub roll_method: RollMethod,
}

impl<T> RollToProcess<T> {
    pub fn new(possible_results: Vec<WeightedResult<T>>, roll_method: RollMethod) -> (list:
        RollToProcess<T>)
        ensures
            list.possible_results == possible_results,
            list.roll_method == roll_method,
    {
        RollToProcess { possible_results, roll_method }
    }

    /// The weights of the entries, in order.
    pub open spec fn weights(&self) -> Seq<u32> {
        Seq::new(self.possible_results@.len(), |i: int| self.possible_results@[i].weight)
    }
}

/// A [`RollToProcess`] whose results can be copied out of the list.
#[derive(Clone, Debug, Default)]
pub struct CopyableRollToProcess<T> where T: Copy + std::fmt::Debug {
    /// The entries, in the order in which they share out the scale.
    pub possible_results: Vec<CopyableWeightedResult<T>>,
    /// How the entry is picked.
    pub roll_method: RollMethod,
}

impl<T: Copy + std::fmt::Debug> CopyableRollToProcess<T> {
    pub fn new(
        possible_results: Vec<CopyableWeightedResult<T>>,
        roll_method: RollMethod,
    ) -> (list: CopyableRollToProcess<T>)
        ensures
            list.possible_results == possible_results,
            list.roll_method == roll_method,
    {
        CopyableRollToProcess { possible_results, roll_method }
    }

    /// The weights of the entries, in order.
    pub open spec fn weights(&self) -> Seq<u32> {
        Seq::new(self.possible_results@.len(), |i: int| self.possible_results@[i].weight)
    }
}

/// The share of the scale that belongs to one entry: the totals from `min`
/// up to, but not including, `max`.
#[derive(Copy, Clone, Eq, PartialEq, Structural, Ord, PartialOrd, Hash, Debug, Default)]
pub struct RangedResult {
    /// The place of the entry in its list.
    pub result_index: usize,
    /// The lowest total that picks the entry.
    pub min: i64,
    /// The lowest total above `min` that no longer picks it.
    pub max: i64,
}

impl RangedResult {
    pub fn new(result_index: usize, min: i64, max: i64) -> (range: RangedResult)
        ensures
            range == (RangedResult { result_index, min, max }),
    {
        RangedResult { result_index, min, max }
    }

    /// Whether `roll` picks this entry.
    pub open spec fn holds(self, roll: int) -> bool {
        self.min <= roll < self.max
    }
}

} // verus!
