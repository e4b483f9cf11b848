//! The scale on which a total picks an entry: each entry of a list owns the
//! stretch between two boundaries, as long as its weight, and the first and
//! the last entry own whatever lies beyond the ends.

use crate::choices::{RangedResult, RollToProcess};
use crate::generator::SeededDiceRoller;
use vstd::prelude::*;

verus! {

/// The length of an entry's stretch: its weight times the multiplier, no less
/// than 0 and no more than the largest 64-bit number.
pub open spec fn scaled_weight(weight: u32, multiplier: i64) -> int {
    let product = weight as int * multiplier as int;
    if product < 0 {
        0
    } else if product > i64::MAX {
        i64::MAX as int
    } else {
        product
    }
}

/// The boundary below entry `k`: `base` plus the stretches of the entries
/// before it, held at the largest 64-bit number once the sum has reached it.
pub open spec fn boundary(weights: Seq<u32>, base: i64, multiplier: i64, k: int) -> int
    decreases k,
{
    if k <= 0 || k > weights.len() {
        base as int
    } else {
        let next = boundary(weights, base, multiplier, k - 1) + scaled_weight(
            weights[k - 1],
            multiplier,
        );
        if next > i64::MAX {
            i64::MAX as int
        } else {
            next
        }
    }
}

/// The stretch of entry `i`. The first one starts at the smallest 64-bit
/// number and the last one ends at the largest, so that no total below the
/// largest falls outside the scale.
pub open spec fn stretch(weights: Seq<u32>, base: i64, multiplier: i64, i: int) -> RangedResult {
    RangedResult {
        result_index: i as usize,
        min: if i == 0 {
            i64::MIN
        } else {
            boundary(weights, base, multiplier, i) as i64
        },
        max: if i == weights.len() - 1 {
            i64::MAX
        } else {
            boundary(weights, base, multiplier, i + 1) as i64
        },
    }
}

/// The scale of a list: the stretches of its entries, in order.
pub open spec fn scale(weights: Seq<u32>, base: i64, multiplier: i64) -> Seq<RangedResult> {
    Seq::new(weights.len(), |i: int| stretch(weights, base, multiplier, i))
}

/// The index held by the first stretch at or after `from` that holds `roll`.
pub open spec fn first_holder(choices: Seq<RangedResult>, roll: int, from: int) -> Option<usize>
    decreases choices.len() - from,
{
    if from < 0 || from >= choices.len() {
        None
    } else if choices[from].holds(roll) {
        Some(choices[from].result_index)
    } else {
        first_holder(choices, roll, from + 1)
    }
}

/// The entry that `roll` picks on the scale of a list that is not empty: the
/// first one, from `from` on, whose upper boundary lies above `roll`, or the
/// last one.
pub open spec fn picked_from(
    weights: Seq<u32>,
    base: i64,
    multiplier: i64,
    roll: int,
    from: int,
) -> int
    decreases weights.len() - from,
{
    if from + 1 >= weights.len() {
        from
    } else if roll < boundary(weights, base, multiplier, from + 1) {
        from
    } else {
        picked_from(weights, base, multiplier, roll, from + 1)
    }
}

/// The entry that `roll` picks on the scale of a list that is not empty.
pub open spec fn picked(weights: Seq<u32>, base: i64, multiplier: i64, roll: int) -> int {
    picked_from(weights, base, multiplier, roll, 0)
}

/// The sum of the weights.
pub open spec fn total_weight(weights: Seq<u32>) -> int
    decreases weights.len(),
{
    if weights.len() == 0 {
        0
    } else {
        total_weight(weights.drop_last()) + weights.last()
    }
}

/// The number of sides of the die that is rolled over a list: the sum of the
/// weights, or the largest 32-bit number where the sum is above it.
pub open spec fn die_size(weights: Seq<u32>) -> int {
    if total_weight(weights) > u32::MAX {
        u32::MAX as int
    } else {
        total_weight(weights)
    }
}

/// Boundaries lie within the 64-bit numbers and never fall from one entry to
/// the next.
pub proof fn lemma_boundary_steps(weights: Seq<u32>, base: i64, multiplier: i64, k: int)
    ensures
        i64::MIN <= boundary(weights, base, multiplier, k) <= i64::MAX,
        0 <= k < weights.len() ==> boundary(weights, base, multiplier, k) <= boundary(
            weights,
            base,
            multiplier,
            k + 1,
        ),
    decreases k,
{
    if 0 < k <= weights.len() {
        lemma_boundary_steps(weights, base, multiplier, k - 1);
    }
}

/// Boundaries never fall along the list.
pub proof fn lemma_boundary_monotone(
    weights: Seq<u32>,
    base: i64,
    multiplier: i64,
    low: int,
    high: int,
)
    requires
        0 <= low <= high <= weights.len(),
    ensures
        boundary(weights, base, multiplier, low) <= boundary(weights, base, multiplier, high),
    decreases high - low,
{
    if low < high {
        lemma_boundary_monotone(weights, base, multiplier, low, high - 1);
        lemma_boundary_steps(weights, base, multiplier, high - 1);
    }
}

/// The weights before an entry sum to no more than all the weights, and an
/// entry adds its own weight to the sum of those before it.
pub proof fn lemma_total_weight_prefix(weights: Seq<u32>, k: int)
    requires
        0 <= k <= weights.len(),
    ensures
        0 <= total_weight(weights.take(k)) <= total_weight(weights),
        k < weights.len() ==> total_weight(weights.take(k + 1)) == total_weight(weights.take(k))
            + weights[k],
    decreases weights.len() - k,
{
    if k < weights.len() {
        assert(weights.take(k + 1).drop_last() =~= weights.take(k));
        lemma_total_weight_prefix(weights, k + 1);
        lemma_total_weight_nonnegative(weights.take(k));
    } else {
        assert(weights.take(k) =~= weights);
        lemma_total_weight_nonnegative(weights);
    }
}

/// No sum of weights is negative.
pub proof fn lemma_total_weight_nonnegative(weights: Seq<u32>)
    ensures
        0 <= total_weight(weights),
    decreases weights.len(),
{
    if weights.len() > 0 {
        lemma_total_weight_nonnegative(weights.drop_last());
    }
}

/// Where the base and the multiplier are not negative, the boundary below an
/// entry is the base plus the multiplier times the weights before the entry,
/// held at the largest 64-bit number.
pub proof fn lemma_boundary_is_offset_sum(weights: Seq<u32>, base: i64, multiplier: i64, k: int)
    requires
        0 <= k <= weights.len(),
        0 <= base,
        0 <= multiplier,
    ensures
        boundary(weights, base, multiplier, k) == if base + multiplier * total_weight(
            weights.take(k),
        ) > i64::MAX {
            i64::MAX as int
        } else {
            base + multiplier * total_weight(weights.take(k))
        },
    decreases k,
{
    if k > 0 {
        lemma_boundary_is_offset_sum(weights, base, multiplier, k - 1);
        lemma_total_weight_prefix(weights, k - 1);
        let before = total_weight(weights.take(k - 1));
        let weight = weights[k - 1];
        assert(multiplier * (before + weight) == multiplier * before + weight * multiplier
            && weight * multiplier >= 0 && multiplier * before >= 0) by (nonlinear_arith)
            requires
                0 <= multiplier,
                0 <= before,
                0 <= weight,
        ;
    } else {
        assert(weights.take(0) =~= Seq::<u32>::empty());
        assert(multiplier * 0 == 0) by (nonlinear_arith);
    }
}

/// On the scale of a list that is not empty, the first stretch from `from` on
/// that holds `roll` is the one that `roll` picks, provided `roll` is not
/// below the stretch at `from` and is not the largest 64-bit number.
pub proof fn lemma_scan_finds_picked(
    weights: Seq<u32>,
    base: i64,
    multiplier: i64,
    roll: int,
    from: int,
)
    requires
        weights.len() <= usize::MAX,
        0 <= from < weights.len(),
        i64::MIN <= roll < i64::MAX,
        from > 0 ==> boundary(weights, base, multiplier, from) <= roll,
    ensures
        from <= picked_from(weights, base, multiplier, roll, from) < weights.len(),
        first_holder(scale(weights, base, multiplier), roll, from) == Some(
            picked_from(weights, base, multiplier, roll, from) as usize,
        ),
    decreases weights.len() - from,
{
    lemma_boundary_steps(weights, base, multiplier, from);
    lemma_boundary_steps(weights, base, multiplier, from + 1);
    if from + 1 < weights.len() && roll >= boundary(weights, base, multiplier, from + 1) {
        lemma_scan_finds_picked(weights, base, multiplier, roll, from + 1);
    }
}

/// The entry that a total picks is the one between whose boundaries the total
/// lies, the first entry reaching down and the last one up without end; and
/// no other entry lies so.
pub proof fn lemma_picked_brackets_roll(
    weights: Seq<u32>,
    base: i64,
    multiplier: i64,
    roll: int,
    other: int,
)
    requires
        weights.len() >= 1,
    ensures
        ({
            let i = picked(weights, base, multiplier, roll);
            &&& 0 <= i < weights.len()
            &&& (i == 0 || boundary(weights, base, multiplier, i) <= roll)
            &&& (i == weights.len() - 1 || roll < boundary(weights, base, multiplier, i + 1))
        }),
        ({
            &&& 0 <= other < weights.len()
            &&& (other == 0 || boundary(weights, base, multiplier, other) <= roll)
            &&& (other == weights.len() - 1 || roll < boundary(
                weights,
                base,
                multiplier,
                other + 1,
            ))
        }) ==> other == picked(weights, base, multiplier, roll),
{
    lemma_picked_from_brackets(weights, base, multiplier, roll, 0);
    let i = picked(weights, base, multiplier, roll);
    if 0 <= other < i {
        lemma_boundary_monotone(weights, base, multiplier, other + 1, i);
    }
    if i < other < weights.len() {
        lemma_boundary_monotone(weights, base, multiplier, i + 1, other);
    }
}

proof fn lemma_picked_from_brackets(
    weights: Seq<u32>,
    base: i64,
    multiplier: i64,
    roll: int,
    from: int,
)
    requires
        0 <= from < weights.len(),
        from > 0 ==> boundary(weights, base, multiplier, from) <= roll,
    ensures
        ({
            let i = picked_from(weights, base, multiplier, roll, from);
            &&& from <= i < weights.len()
            &&& (i == 0 || boundary(weights, base, multiplier, i) <= roll)
            &&& (i == weights.len() - 1 || roll < boundary(weights, base, multiplier, i + 1))
        }),
    decreases weights.len() - from,
{
    if from + 1 < weights.len() && roll >= boundary(weights, base, multiplier, from + 1) {
        lemma_picked_from_brackets(weights, base, multiplier, roll, from + 1);
    }
}

/// A total below the largest 64-bit number lies in the stretch of the entry
/// that it picks, and in no other stretch of the scale.
pub proof fn lemma_scale_holds_roll_once(
    weights: Seq<u32>,
    base: i64,
    multiplier: i64,
    roll: int,
    other: int,
)
    requires
        weights.len() >= 1,
        i64::MIN <= roll < i64::MAX,
    ensures
        0 <= picked(weights, base, multiplier, roll) < weights.len(),
        scale(weights, base, multiplier)[picked(weights, base, multiplier, roll)].holds(roll),
        0 <= other < weights.len() && scale(weights, base, multiplier)[other].holds(roll)
            ==> other == picked(weights, base, multiplier, roll),
{
    let i = picked(weights, base, multiplier, roll);
    lemma_picked_brackets_roll(weights, base, multiplier, roll, other);
    lemma_boundary_steps(weights, base, multiplier, i);
    lemma_boundary_steps(weights, base, multiplier, i + 1);
    lemma_boundary_steps(weights, base, multiplier, other);
    lemma_boundary_steps(weights, base, multiplier, other + 1);
}

impl SeededDiceRoller {
    /// The length of the stretch of an entry of the given weight.
    pub fn stretch_length(weight: u32, weight_multiplier: i64) -> (length: i64)
        ensures
            length == scaled_weight(weight, weight_multiplier),
    {
        match (weight as i64).checked_mul(weight_multiplier) {
            Some(product) => {
                if product < 0 {
                    0
                } else {
                    product
                }
            },
            None => {
                assert(weight as int * weight_multiplier as int > i64::MAX <==> weight_multiplier
                    > 0) by (nonlinear_arith)
                    requires
                        0 <= weight,
                        (weight as int * weight_multiplier as int > i64::MAX) || (weight as int
                            * weight_multiplier as int) < (i64::MIN as int),
                ;
                if weight_multiplier > 0 {
                    i64::MAX
                } else {
                    0
                }
            },
        }
    }

    /// Appends to `choices` the scale of the list: one stretch for each entry,
    /// in order, the boundaries starting at `min` and each weight counted
    /// `weight_multiplier` times.
    pub fn fill_choices<T>(
        to_process: &RollToProcess<T>,
        min: i64,
        weight_multiplier: i64,
        choices: &mut Vec<RangedResult>,
    )
        ensures
            final(choices)@ == old(choices)@ + scale(to_process.weights(), min, weight_multiplier),
    {
        let ghost weights = to_process.weights();
        let ghost before = choices@;
        let length: usize = to_process.possible_results.len();
        let mut last_end: i64 = min;
        let mut i: usize = 0;
        while i < length
            invariant
                i <= length,
                length == to_process.possible_results@.len(),
                weights == to_process.weights(),
                last_end == boundary(weights, min, weight_multiplier, i as int),
                choices@ == before + scale(weights, min, weight_multiplier).take(i as int),
            decreases length - i,
        {
            let weight: i64 = Self::stretch_length(
                to_process.possible_results[i].weight,
                weight_multiplier,
            );
            let low: i64 = if i == 0 {
                i64::MIN
            } else {
                last_end
            };
            last_end =
            match last_end.checked_add(weight) {
                Some(end) => end,
                None => i64::MAX,
            };
            let high: i64 = if i == length - 1 {
                i64::MAX
            } else {
                last_end
            };
            choices.push(RangedResult { result_index: i, min: low, max: high });
            proof {
                let whole = scale(weights, min, weight_multiplier);
                assert(whole.take(i as int + 1) =~= whole.take(i as int).push(whole[i as int]));
            }
            i = i + 1;
        }
        proof {
            let whole = scale(weights, min, weight_multiplier);
            assert(whole.take(length as int) =~= whole);
        }
    }

    /// The index held by the first stretch of `choices` that holds `roll`, if
    /// any does.
    pub fn find_choice(choices: &Vec<RangedResult>, roll: i64) -> (found: Option<usize>)
        ensures
            found == first_holder(choices@, roll as int, 0),
    {
        let mut i: usize = 0;
        while i < choices.len()
            invariant
                i <= choices@.len(),
                first_holder(choices@, roll as int, 0) == first_holder(
                    choices@,
                    roll as int,
                    i as int,
                ),
            decreases choices@.len() - i,
        {
            if roll >= choices[i].min && roll < choices[i].max {
                return Some(choices[i].result_index);
            }
            i = i + 1;
        }
        None
    }

    /// The number of sides of the die that is rolled over the list: the sum of
    /// its weights, held at the largest 32-bit number.
    pub fn calculate_die_type<T>(to_process: &RollToProcess<T>) -> (sides: u32)
        ensures
            sides == die_size(to_process.weights()),
    {
        let ghost weights = to_process.weights();
        let mut sides: u32 = 0;
        let mut i: usize = 0;
        while i < to_process.possible_results.len()
            invariant
                i <= to_process.possible_results@.len(),
                weights == to_process.weights(),
                sides == die_size(weights.take(i as int)),
            decreases to_process.possible_results@.len() - i,
        {
            proof {
                assert(weights.take(i as int + 1).drop_last() =~= weights.take(i as int));
            }
            sides = sides.saturating_add(to_process.possible_results[i].weight);
            i = i + 1;
        }
        proof {
            assert(weights.take(i as int) =~= weights);
        }
        sides
    }
}

} // verus!
