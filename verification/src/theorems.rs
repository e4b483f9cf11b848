//! What holds of rolls and selections whatever the list and the state of the
//! roller.

use crate::choices::{PreparedRoll, RollMethod};
use crate::dice::{die_face, roll_sum, roll_total};
use crate::generator::{fresh_state, RollerState};
use crate::intervals::{
    lemma_boundary_is_offset_sum, lemma_picked_brackets_roll, lemma_total_weight_prefix,
    picked, total_weight,
};
use crate::select::{
    method_total, scale_base, scale_multiplier, selected, state_after_selection,
};
use vstd::prelude::*;

verus! {

/// Rollers made from the same seed and the same step start in the same
/// state.
pub proof fn lemma_same_seed_same_start(
    seed: Seq<char>,
    step: Seq<char>,
    other_seed: Seq<char>,
    other_step: Seq<char>,
)
    requires
        seed == other_seed,
        step == other_step,
    ensures
        fresh_state(seed, step) == fresh_state(other_seed, other_step),
{
}

/// From the same state the same roll gives the same total, the same
/// selection picks the same entry, and both leave the same state behind. So
/// two rollers that start alike answer alike, call after call.
pub proof fn lemma_same_state_same_answers(
    first: RollerState,
    second: RollerState,
    dice: u16,
    die_type: u32,
    modifier: i32,
    weights: Seq<u32>,
    method: RollMethod,
)
    requires
        first == second,
    ensures
        roll_total(first, dice, die_type, modifier) == roll_total(
            second,
            dice,
            die_type,
            modifier,
        ),
        first.skip(dice as nat) == second.skip(dice as nat),
        selected(first, weights, method) == selected(second, weights, method),
        state_after_selection(first, weights, method) == state_after_selection(
            second,
            weights,
            method,
        ),
{
}

/// A selection picks an entry of the list whenever the list is not empty, and
/// only then.
pub proof fn lemma_selection_is_total(state: RollerState, weights: Seq<u32>, method: RollMethod)
    ensures
        selected(state, weights, method).is_some() <==> weights.len() > 0,
        selected(state, weights, method) matches Some(index) ==> 0 <= index < weights.len(),
{
    if weights.len() >= 2 {
        lemma_picked_brackets_roll(
            weights,
            scale_base(method),
            scale_multiplier(method),
            method_total(state, weights, method),
            0,
        );
    }
}

/// A list of one entry gives that entry and leaves the roller as it was.
pub proof fn lemma_single_entry_is_picked_unrolled(
    state: RollerState,
    weights: Seq<u32>,
    method: RollMethod,
)
    requires
        weights.len() == 1,
    ensures
        selected(state, weights, method) == Some(0int),
        state_after_selection(state, weights, method) == state,
{
}

/// A prepared roll of no dice whose modifier is the smallest 32-bit number
/// picks the first entry of any list that is not empty.
pub proof fn lemma_lowest_modifier_picks_first(state: RollerState, weights: Seq<u32>)
    requires
        weights.len() >= 1,
    ensures
        selected(
            state,
            weights,
            RollMethod::PreparedRoll(PreparedRoll { dice: 0, die_type: 0, modifier: i32::MIN }),
        ) == Some(0int),
{
    if weights.len() >= 2 {
        lemma_boundary_is_offset_sum(weights, 0, 1, 1);
        lemma_total_weight_prefix(weights, 1);
        lemma_picked_brackets_roll(weights, 0, 1, i32::MIN as int, 0);
    }
}

/// A prepared roll of no dice whose modifier is the largest 32-bit number
/// picks the last entry of a list that is not empty, provided the weights of
/// the entries before it sum to no more than that number.
pub proof fn lemma_highest_modifier_picks_last(state: RollerState, weights: Seq<u32>)
    requires
        weights.len() >= 1,
        total_weight(weights.drop_last()) <= i32::MAX,
    ensures
        selected(
            state,
            weights,
            RollMethod::PreparedRoll(PreparedRoll { dice: 0, die_type: 0, modifier: i32::MAX }),
        ) == Some(weights.len() - 1),
{
    if weights.len() >= 2 {
        let last = weights.len() - 1;
        assert(weights.take(last) =~= weights.drop_last());
        lemma_boundary_is_offset_sum(weights, 0, 1, last);
        lemma_picked_brackets_roll(weights, 0, 1, i32::MAX as int, last);
    }
}

/// On the scale of a simple roll, a face of the die picks an entry exactly
/// when it lies above the weights before the entry and not above those up to
/// and including it. So of the faces of the die, which are as many as the
/// weights sum to, each entry is picked by as many as its weight.
pub proof fn lemma_simple_roll_shares(weights: Seq<u32>, face: int, entry: int)
    requires
        0 <= entry < weights.len(),
        1 <= face <= total_weight(weights),
        total_weight(weights) <= u32::MAX,
    ensures
        picked(weights, 1, 1, face) == entry <==> total_weight(weights.take(entry)) < face
            <= total_weight(weights.take(entry + 1)),
{
    lemma_boundary_is_offset_sum(weights, 1, 1, entry);
    lemma_boundary_is_offset_sum(weights, 1, 1, entry + 1);
    lemma_total_weight_prefix(weights, entry);
    lemma_total_weight_prefix(weights, entry + 1);
    assert(weights.take(0) =~= Seq::<u32>::empty());
    assert(weights.take(weights.len() as int) =~= weights);
    lemma_picked_brackets_roll(weights, 1, 1, face, entry);
}

/// A simple roll over a list of two entries or more picks an entry exactly
/// when the draw, taken modulo the sum of the weights and counted from 1,
/// lies in the entry's share: of the remainders that the draw can leave, each
/// entry has as many as its weight.
pub proof fn lemma_simple_roll_picks_by_share(state: RollerState, weights: Seq<u32>, entry: int)
    requires
        weights.len() >= 2,
        0 <= entry < weights.len(),
        1 <= total_weight(weights) <= u32::MAX,
    ensures
        selected(state, weights, RollMethod::SimpleRoll) == Some(entry) <==> total_weight(
            weights.take(entry),
        ) < state.draw() as int % total_weight(weights) + 1 <= total_weight(
            weights.take(entry + 1),
        ),
{
    let sides = total_weight(weights) as u32;
    let face = die_face(state.draw(), sides);
    assert(state.skip(0) == state);
    assert(roll_total(state, 1, sides, 0) == face) by {
        reveal_with_fuel(roll_sum, 2);
    }
    lemma_simple_roll_shares(weights, face, entry);
}

} // verus!
