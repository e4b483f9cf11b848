//! Picking one entry of a weighted list: a scale is laid over the list, one
//! total is rolled, and the entry whose stretch holds the total is taken.

use crate::choices::{
    CopyableRollToProcess, CopyableWeightedResult, PreparedRoll, RangedResult, RollMethod,
    RollToProcess, WeightedResult,
};
use crate::dice::{roll_sum, roll_total};
use crate::generator::{RollerState, SeededDiceRoller};
use crate::intervals::{die_size, first_holder, lemma_scan_finds_picked, picked, scale};
use vstd::prelude::*;

verus! {

/// Where the boundaries of the scale start under a method.
pub open spec fn scale_base(method: RollMethod) -> i64 {
    match method {
        RollMethod::PreparedRoll(prepared) => prepared.dice as i64,
        RollMethod::GaussianRoll(dice) => dice as i64,
        RollMethod::SimpleRoll => 1,
    }
}

/// How many times each weight counts on the scale under a method.
pub open spec fn scale_multiplier(method: RollMethod) -> i64 {
    match method {
        RollMethod::PreparedRoll(_) => 1,
        RollMethod::GaussianRoll(dice) => dice as i64,
        RollMethod::SimpleRoll => 1,
    }
}

/// The state in which the dice of a gaussian roll are rolled: an even number
/// of dice spends one draw on a coin first.
pub open spec fn gaussian_start(state: RollerState, dice: u16) -> RollerState {
    if dice % 2 == 0 {
        state.skip(1)
    } else {
        state
    }
}

/// What a gaussian roll adds to its dice so that the totals centre on the
/// scale: half the number of dice, and one less where that number is even and
/// the coin came up.
pub open spec fn gaussian_modifier(state: RollerState, dice: u16) -> int {
    if dice % 2 == 0 && state.coin() {
        dice / 2 - 1
    } else {
        dice as int / 2
    }
}

/// The total that a method rolls over a list from `state`.
pub open spec fn method_total(state: RollerState, weights: Seq<u32>, method: RollMethod) -> int {
    match method {
        RollMethod::PreparedRoll(prepared) => roll_total(
            state,
            prepared.dice,
            prepared.die_type,
            prepared.modifier,
        ),
        RollMethod::GaussianRoll(dice) => roll_sum(
            gaussian_start(state, dice),
            dice as nat,
            die_size(weights) as u32,
        ) + gaussian_modifier(state, dice),
        RollMethod::SimpleRoll => roll_total(state, 1, die_size(weights) as u32, 0),
    }
}

/// How many draws a method spends on a list of two entries or more.
pub open spec fn method_draws(method: RollMethod) -> nat {
    match method {
        RollMethod::PreparedRoll(prepared) => prepared.dice as nat,
        RollMethod::GaussianRoll(dice) => if dice % 2 == 0 {
            dice as nat + 1
        } else {
            dice as nat
        },
        RollMethod::SimpleRoll => 1,
    }
}

/// The entry that a method picks from a list that is not empty, when it
/// rolls: the one that the method's total picks on the method's scale.
pub open spec fn rolled_choice(state: RollerState, weights: Seq<u32>, method: RollMethod) -> int {
    picked(weights, scale_base(method), scale_multiplier(method), method_total(state, weights, method))
}

/// The index that a selection returns: none from an empty list, the only
/// entry of a list of one, and else the entry that the method rolls.
pub open spec fn selected(state: RollerState, weights: Seq<u32>, method: RollMethod) -> Option<
    int,
> {
    if weights.len() == 0 {
        None
    } else if weights.len() == 1 {
        Some(0)
    } else {
        Some(rolled_choice(state, weights, method))
    }
}

/// The state in which a selection leaves the roller: nothing is drawn for a
/// list of fewer than two entries.
pub open spec fn state_after_selection(
    state: RollerState,
    weights: Seq<u32>,
    method: RollMethod,
) -> RollerState {
    if weights.len() <= 1 {
        state
    } else {
        state.skip(method_draws(method))
    }
}

impl SeededDiceRoller {
    /// Picks with a prepared roll: the scale starts at the number of dice,
    /// each weight counts once, and the dice are rolled as prepared.
    fn process_prepared_roll<T>(
        &mut self,
        to_process: &RollToProcess<T>,
        prepared_roll: &PreparedRoll,
    ) -> (found: Option<usize>)
        ensures
            final(self)@ == old(self)@.skip(prepared_roll.dice as nat),
            to_process.possible_results@.len() == 0 ==> found.is_none(),
            to_process.possible_results@.len() >= 1 ==> found.is_some() && found.unwrap()
                == rolled_choice(
                old(self)@,
                to_process.weights(),
                RollMethod::PreparedRoll(*prepared_roll),
            ),
            found matches Some(index) ==> index < to_process.possible_results@.len(),
    {
        let length: usize = to_process.possible_results.len();
        let mut choices: Vec<RangedResult> = Vec::new();
        Self::fill_choices(to_process, prepared_roll.dice as i64, 1, &mut choices);

        let roll: i64 = self.roll_prepared(prepared_roll);
        proof {
            lemma_total_below_limit(
                prepared_roll.dice,
                prepared_roll.die_type,
                prepared_roll.modifier,
                roll as int,
            );
            lemma_first_holder_is_picked(
                to_process.weights(),
                length,
                prepared_roll.dice as i64,
                1,
                roll,
                choices@,
            );
        }
        Self::find_choice(&choices, roll)
    }

    /// Picks with a gaussian roll: the scale starts at the number of dice,
    /// each weight counts once for every die, and that many dice are rolled
    /// over the combined weight and centred.
    fn process_gaussian_roll<T>(&mut self, to_process: &RollToProcess<T>, dice: u16) -> (found:
        Option<usize>)
        ensures
            final(self)@ == gaussian_start(old(self)@, dice).skip(dice as nat),
            to_process.possible_results@.len() == 0 ==> found.is_none(),
            to_process.possible_results@.len() >= 1 ==> found.is_some() && found.unwrap()
                == rolled_choice(
                old(self)@,
                to_process.weights(),
                RollMethod::GaussianRoll(dice),
            ),
            found matches Some(index) ==> index < to_process.possible_results@.len(),
    {
        let length: usize = to_process.possible_results.len();
        let mut choices: Vec<RangedResult> = Vec::new();
        Self::fill_choices(to_process, dice as i64, dice as i64, &mut choices);

        let max: u32 = Self::calculate_die_type(to_process);
        // Half the dice are added so that the totals gather round the middle
        // of the scale; between two middles a coin decides.
        let mut modifier: i32 = (dice / 2) as i32;
        if dice % 2 == 0 {
            let lower: bool = self.gen_bool();
            if lower {
                modifier = modifier - 1;
            }
        }
        let roll: i64 = self.roll(dice, max, modifier);
        proof {
            lemma_total_below_limit(dice, max, modifier, roll as int);
            lemma_first_holder_is_picked(
                to_process.weights(),
                length,
                dice as i64,
                dice as i64,
                roll,
                choices@,
            );
        }
        Self::find_choice(&choices, roll)
    }

    /// Picks with a simple roll: the scale starts at 1, each weight counts
    /// once, and one die is rolled over the combined weight.
    fn process_simple_roll<T>(&mut self, to_process: &RollToProcess<T>) -> (found: Option<usize>)
        ensures
            final(self)@ == old(self)@.skip(1),
            to_process.possible_results@.len() == 0 ==> found.is_none(),
            to_process.possible_results@.len() >= 1 ==> found.is_some() && found.unwrap()
                == rolled_choice(old(self)@, to_process.weights(), RollMethod::SimpleRoll),
            found matches Some(index) ==> index < to_process.possible_results@.len(),
    {
        let length: usize = to_process.possible_results.len();
        let mut choices: Vec<RangedResult> = Vec::new();
        Self::fill_choices(to_process, 1, 1, &mut choices);

        let max: u32 = Self::calculate_die_type(to_process);
        let roll: i64 = self.roll(1, max, 0);
        proof {
            lemma_total_below_limit(1, max, 0, roll as int);
            lemma_first_holder_is_picked(to_process.weights(), length, 1, 1, roll, choices@);
        }
        Self::find_choice(&choices, roll)
    }

    /// Picks one entry of the list with the list's method and returns its
    /// index. An empty list gives `None`. A list of one entry gives that entry
    /// and draws nothing.
    pub fn get_result_index<T>(&mut self, to_process: &RollToProcess<T>) -> (index: Option<usize>)
        ensures
            index matches Some(i) ==> selected(
                old(self)@,
                to_process.weights(),
                to_process.roll_method,
            ) == Some(i as int),
            index.is_none() ==> selected(
                old(self)@,
                to_process.weights(),
                to_process.roll_method,
            ).is_none(),
            final(self)@ == state_after_selection(
                old(self)@,
                to_process.weights(),
                to_process.roll_method,
            ),
            index.is_some() <==> to_process.possible_results@.len() > 0,
            index matches Some(i) ==> i < to_process.possible_results@.len(),
            to_process.possible_results@.len() == 1 ==> index == Some(0usize) && final(self)@
                == old(self)@,
    {
        let length: usize = to_process.possible_results.len();
        assert(to_process.weights().len() == length);
        if length == 0 {
            None
        } else if length == 1 {
            Some(0)
        } else {
            match &to_process.roll_method {
                RollMethod::PreparedRoll(roll) => self.process_prepared_roll(to_process, roll),
                RollMethod::GaussianRoll(dice) => self.process_gaussian_roll(to_process, *dice),
                RollMethod::SimpleRoll => self.process_simple_roll(to_process),
            }
        }
    }

    /// Picks one entry of the list with the list's method and returns a copy
    /// of its result, as [`SeededDiceRoller::get_result_index`] returns its
    /// index.
    pub fn get_result<T: Copy + std::fmt::Debug>(
        &mut self,
        to_process: &CopyableRollToProcess<T>,
    ) -> (result: Option<T>)
        ensures
            final(self)@ == state_after_selection(
                old(self)@,
                to_process.weights(),
                to_process.roll_method,
            ),
            match selected(old(self)@, to_process.weights(), to_process.roll_method) {
                Some(i) => 0 <= i < to_process.possible_results@.len() && result == Some(
                    to_process.possible_results@[i].result,
                ),
                None => result.is_none(),
            },
            result.is_some() <==> to_process.possible_results@.len() > 0,
    {
        let mut entries: Vec<WeightedResult<T>> = Vec::new();
        let mut i: usize = 0;
        while i < to_process.possible_results.len()
            invariant
                i <= to_process.possible_results@.len(),
                entries@.len() == i,
                forall|k: int|
                    0 <= k < i ==> entries@[k].weight == to_process.possible_results@[k].weight,
            decreases to_process.possible_results@.len() - i,
        {
            let entry: CopyableWeightedResult<T> = to_process.possible_results[i];
            entries.push(WeightedResult { result: entry.result, weight: entry.weight });
            i = i + 1;
        }
        let standard_to_process = RollToProcess {
            possible_results: entries,
            roll_method: to_process.roll_method,
        };
        assert(standard_to_process.weights() =~= to_process.weights());
        match self.get_result_index(&standard_to_process) {
            Some(index) => Some(to_process.possible_results[index].result),
            None => None,
        }
    }

    /// A list of entries of weight 1 with the given results, in order.
    pub fn to_copyable_possible_results<T: Copy + std::fmt::Debug>(vec: Vec<T>) -> (list: Vec<
        CopyableWeightedResult<T>,
    >)
        ensures
            list@.len() == vec@.len(),
            forall|k: int|
                0 <= k < vec@.len() ==> list@[k].result == vec@[k] && list@[k].weight == 1,
    {
        let mut list: Vec<CopyableWeightedResult<T>> = Vec::new();
        let mut i: usize = 0;
        while i < vec.len()
            invariant
                i <= vec@.len(),
                list@.len() == i,
                forall|k: int| 0 <= k < i ==> list@[k].result == vec@[k] && list@[k].weight == 1,
            decreases vec@.len() - i,
        {
            list.push(CopyableWeightedResult { result: vec[i], weight: 1 });
            i = i + 1;
        }
        list
    }

    /// A list of entries of weight 1 with the given results, in order.
    pub fn to_possible_results<T>(vec: Vec<T>) -> (list: Vec<WeightedResult<T>>)
        ensures
            list@.len() == vec@.len(),
            forall|k: int|
                0 <= k < vec@.len() ==> list@[k].result == vec@[k] && list@[k].weight == 1,
    {
        let ghost given = vec@;
        let mut rest = vec;
        let mut turned: Vec<WeightedResult<T>> = Vec::new();
        while rest.len() > 0
            invariant
                rest@.len() + turned@.len() == given.len(),
                rest@ == given.take(rest@.len() as int),
                forall|k: int|
                    0 <= k < turned@.len() ==> turned@[k].result == given[given.len() - 1 - k]
                        && turned@[k].weight == 1,
            decreases rest@.len(),
        {
            match rest.pop() {
                Some(item) => turned.push(WeightedResult { result: item, weight: 1 }),
                None => {},
            }
        }
        let mut list: Vec<WeightedResult<T>> = Vec::new();
        while turned.len() > 0
            invariant
                list@.len() + turned@.len() == given.len(),
                forall|k: int|
                    0 <= k < turned@.len() ==> turned@[k].result == given[given.len() - 1 - k]
                        && turned@[k].weight == 1,
                forall|k: int|
                    0 <= k < list@.len() ==> list@[k].result == given[k] && list@[k].weight == 1,
            decreases turned@.len(),
        {
            match turned.pop() {
                Some(entry) => list.push(entry),
                None => {},
            }
        }
        list
    }
}

/// On the scale of a list, the first stretch that holds a total below the
/// largest 64-bit number carries the index that the total picks; an empty
/// list has no stretch to hold it.
proof fn lemma_first_holder_is_picked(
    weights: Seq<u32>,
    length: usize,
    base: i64,
    multiplier: i64,
    roll: i64,
    choices: Seq<RangedResult>,
)
    requires
        weights.len() == length,
        roll < i64::MAX,
        choices == Seq::<RangedResult>::empty() + scale(weights, base, multiplier),
    ensures
        length == 0 ==> first_holder(choices, roll as int, 0).is_none(),
        length >= 1 ==> first_holder(choices, roll as int, 0) == Some(
            picked(weights, base, multiplier, roll as int) as usize,
        ) && 0 <= picked(weights, base, multiplier, roll as int) < length,
{
    assert(choices =~= scale(weights, base, multiplier));
    if length >= 1 {
        lemma_scan_finds_picked(weights, base, multiplier, roll as int, 0);
    }
}

/// A roll stays far below the largest 64-bit number.
proof fn lemma_total_below_limit(dice: u16, die_type: u32, modifier: i32, total: int)
    requires
        die_type >= 1 ==> total <= dice * die_type + modifier,
        die_type == 0 ==> total == dice + modifier,
    ensures
        total < i64::MAX,
{
    assert(dice * die_type <= 0xffff * 0xffff_ffff) by (nonlinear_arith)
        requires
            0 <= dice <= 0xffff,
            0 <= die_type <= 0xffff_ffff,
    ;
}

} // verus!
