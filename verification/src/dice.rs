//! Dice rolls: the sum of some dice, each read off one 32-bit draw, plus a
//! modifier.

use crate::choices::PreparedRoll;
use crate::generator::{RollerState, SeededDiceRoller};
use vstd::prelude::*;

verus! {

/// The face that a die of `die_type` sides shows for a draw, counted from 1.
/// A die without sides shows 1 whatever is drawn, as a die of one side does.
pub open spec fn die_face(draw: u32, die_type: u32) -> int {
    if die_type == 0 {
        1
    } else {
        draw as int % die_type as int + 1
    }
}

/// The sum of `dice` dice of `die_type` sides, read off the next `dice` draws
/// of `state` in order.
pub open spec fn roll_sum(state: RollerState, dice: nat, die_type: u32) -> int
    decreases dice,
{
    if dice == 0 {
        0
    } else {
        roll_sum(state, (dice - 1) as nat, die_type) + die_face(
            state.skip((dice - 1) as nat).draw(),
            die_type,
        )
    }
}

/// What a roll of `dice` dice of `die_type` sides plus `modifier` totals from
/// `state`.
pub open spec fn roll_total(state: RollerState, dice: u16, die_type: u32, modifier: i32) -> int {
    roll_sum(state, dice as nat, die_type) + modifier
}

/// Every die shows at least 1 and at most its number of sides, so the sum of
/// `dice` dice lies between `dice` and `dice * die_type`. Dice without sides
/// sum to their number.
pub proof fn lemma_roll_sum_bounds(state: RollerState, dice: nat, die_type: u32)
    ensures
        die_type >= 1 ==> dice <= roll_sum(state, dice, die_type) <= dice * die_type,
        die_type == 0 ==> roll_sum(state, dice, die_type) == dice,
    decreases dice,
{
    if dice > 0 {
        let rest = (dice - 1) as nat;
        lemma_roll_sum_bounds(state, rest, die_type);
        assert(rest * die_type + die_type == dice * die_type) by (nonlinear_arith)
            requires
                rest + 1 == dice,
        ;
    } else {
        assert(dice * die_type == 0) by (nonlinear_arith)
            requires
                dice == 0,
        ;
    }
}

/// A roll without modifier of at least one die with at least one side totals
/// no less than the number of dice and no more than that number times the
/// number of sides.
pub proof fn lemma_roll_within_bounds(state: RollerState, dice: u16, die_type: u32)
    requires
        dice >= 1,
        die_type >= 1,
    ensures
        dice <= roll_total(state, dice, die_type, 0) <= dice * die_type,
{
    lemma_roll_sum_bounds(state, dice as nat, die_type);
}

impl SeededDiceRoller {
    /// The face that a die of `die_type` sides shows for `draw`.
    pub fn die_value(draw: u32, die_type: u32) -> (face: i64)
        ensures
            face == die_face(draw, die_type),
            die_type >= 1 ==> 1 <= face <= die_type,
            die_type == 0 ==> face == 1,
    {
        if die_type == 0 {
            1
        } else {
            (draw as i64) % (die_type as i64) + 1
        }
    }

    /// Rolls `dice` dice of `die_type` sides, one draw each, and returns their
    /// sum plus `modifier`.
    pub fn roll(&mut self, dice: u16, die_type: u32, modifier: i32) -> (total: i64)
        ensures
            total == roll_total(old(self)@, dice, die_type, modifier),
            final(self)@ == old(self)@.skip(dice as nat),
            die_type >= 1 ==> dice + modifier <= total <= dice * die_type + modifier,
            die_type == 0 ==> total == dice + modifier,
    {
        let ghost start = self@;
        let mut result: i64 = 0;
        let mut rolled: u16 = 0;
        while rolled < dice
            invariant
                rolled <= dice,
                self@ == start.skip(rolled as nat),
                result == roll_sum(start, rolled as nat, die_type),
                0 <= result <= rolled * 0x1_0000_0000,
            decreases dice - rolled,
        {
            let draw: u32 = self.gen_u32();
            result = result + Self::die_value(draw, die_type);
            rolled = rolled + 1;
        }
        proof {
            lemma_roll_sum_bounds(start, dice as nat, die_type);
        }
        result + modifier as i64
    }

    /// Rolls the dice that `to_roll` describes, as [`SeededDiceRoller::roll`]
    /// does.
    pub fn roll_prepared(&mut self, to_roll: &PreparedRoll) -> (total: i64)
        ensures
            total == roll_total(old(self)@, to_roll.dice, to_roll.die_type, to_roll.modifier),
            final(self)@ == old(self)@.skip(to_roll.dice as nat),
            to_roll.die_type >= 1 ==> to_roll.dice + to_roll.modifier <= total <= to_roll.dice
                * to_roll.die_type + to_roll.modifier,
            to_roll.die_type == 0 ==> total == to_roll.dice + to_roll.modifier,
    {
        self.roll(to_roll.dice, to_roll.die_type, to_roll.modifier)
    }
}

} // verus!
