//! The seeded generator and its primitive draws.
//!
//! The generator is a `Pcg64` seeded from a text label. To the proofs it is
//! the label it was seeded with and the number of 64-bit words it has handed
//! out since. One function draws a word; the draws of other widths cut and
//! join words, in the way `rand` does for a `Pcg64`, so that a roller draws
//! what `Rng::gen` would draw from the same generator.
//!
//! What `rand`, `rand_pcg` and `rand_seeder` compute is taken on trust, in
//! the contracts of the few functions here that call them; each says in its
//! comment which call it makes and what it takes of it.

use rand::Rng;
use rand_pcg::Pcg64;
use rand_seeder::Seeder;
use vstd::prelude::*;
use vstd::string::StringExecFns;

verus! {

/// `rand_pcg::Pcg64`, the generator inside a roller. The proofs see nothing
/// of what it holds.
#[verifier::external_type_specification]
#[verifier::external_body]
pub struct ExPcg64(rand_pcg::Pcg64);

/// The word that `Pcg64::next_u64` returns on its call number `position`
/// (counted from zero) after the generator was seeded with
/// `Seeder::from(label).make_rng()`.
pub uninterp spec fn stream_word(label: Seq<char>, position: nat) -> u64;

/// What `Rng::gen_range(low..=high)` returns for `i32` bounds on such a
/// generator of which `position` words are spent, and how many words it
/// spends on it.
pub uninterp spec fn ranged_draw(label: Seq<char>, position: nat, low: i32, high: i32) -> (
    i32,
    nat,
);

/// The number below `modulus` read as a two's complement number of that width.
pub open spec fn as_signed(value: int, modulus: int) -> int {
    if 2 * value < modulus {
        value
    } else {
        value - modulus
    }
}

/// What a roller is to the proofs: the label that seeded it and how many words
/// of its stream are spent.
pub struct RollerState {
    pub label: Seq<char>,
    pub position: nat,
}

impl RollerState {
    /// The state after `words` more words are spent.
    pub open spec fn skip(self, words: nat) -> RollerState {
        RollerState { label: self.label, position: self.position + words }
    }

    /// The next word of the stream.
    pub open spec fn word(self) -> u64 {
        stream_word(self.label, self.position)
    }

    /// The low 32 bits of the next word: what a 32-bit draw returns.
    pub open spec fn draw(self) -> u32 {
        (self.word() as int % 0x1_0000_0000) as u32
    }

    /// The top bit of the next 32-bit draw: what a draw of a boolean returns.
    pub open spec fn coin(self) -> bool {
        self.word() as int % 0x1_0000_0000 >= 0x8000_0000
    }
}

/// The label under which a seed and a step select a stream.
pub open spec fn seed_label(seed: Seq<char>, step: Seq<char>) -> Seq<char> {
    step + seq!['_'] + seed
}

/// The state of a roller that has drawn nothing yet.
pub open spec fn fresh_state(seed: Seq<char>, step: Seq<char>) -> RollerState {
    RollerState { label: seed_label(seed, step), position: 0 }
}

/// Rolls dice and draws numbers in an order fixed by a seed and a step.
///
/// `label` and `position` are there for the proofs alone: they say which
/// stream `rng` draws from and how far into it `rng` has come. Nothing but
/// the functions of this file that call into `rand` touches `rng`, and the
/// contract of each says where its call leaves `position`.
pub struct SeededDiceRoller {
    rng: Pcg64,
    label: Ghost<Seq<char>>,
    position: Ghost<nat>,
}

impl View for SeededDiceRoller {
    type V = RollerState;

    closed spec fn view(&self) -> RollerState {
        RollerState { label: self.label@, position: self.position@ }
    }
}

impl SeededDiceRoller {
    /// `Seeder::from(label).make_rng::<Pcg64>()`: the generator that the
    /// label seeds, with none of its words spent.
    #[verifier::external_body]
    fn seeded(label: String) -> (roller: SeededDiceRoller)
        ensures
            roller@ == (RollerState { label: label@, position: 0 }),
    {
        SeededDiceRoller {
            rng: Seeder::from(label).make_rng(),
            label: Ghost(label@),
            position: Ghost(0),
        }
    }

    /// A roller for the given seed and step, with nothing drawn yet.
    pub fn new(seed: &str, step: &str) -> (roller: SeededDiceRoller)
        ensures
            roller@ == fresh_state(seed@, step@),
    {
        let mut label = String::from_str(step);
        label.append("_");
        label.append(seed);
        proof {
            reveal_strlit("_");
            assert("_"@ =~= seq!['_']);
        }
        Self::seeded(label)
    }

    /// `Rng::gen::<u64>()`, which for a `Pcg64` is `next_u64()`: the next word
    /// of the stream, which is spent.
    #[verifier::external_body]
    pub fn gen_u64(&mut self) -> (value: u64)
        ensures
            value == stream_word(old(self)@.label, old(self)@.position),
            final(self)@ == old(self)@.skip(1),
    {
        self.rng.gen::<u64>()
    }

    /// Draws a boolean: whether the top bit of a 32-bit draw is set.
    pub fn gen_bool(&mut self) -> (value: bool)
        ensures
            value == old(self)@.coin(),
            final(self)@ == old(self)@.skip(1),
    {
        self.gen_u32() >= 0x8000_0000
    }

    /// Draws 8 bits: the low 8 bits of the next word.
    pub fn gen_u8(&mut self) -> (value: u8)
        ensures
            value as int == old(self)@.word() as int % 0x100,
            final(self)@ == old(self)@.skip(1),
    {
        (self.gen_u64() % 0x100) as u8
    }

    /// Draws 16 bits: the low 16 bits of the next word.
    pub fn gen_u16(&mut self) -> (value: u16)
        ensures
            value as int == old(self)@.word() as int % 0x1_0000,
            final(self)@ == old(self)@.skip(1),
    {
        (self.gen_u64() % 0x1_0000) as u16
    }

    /// Draws 32 bits: the low 32 bits of the next word.
    pub fn gen_u32(&mut self) -> (value: u32)
        ensures
            value == old(self)@.draw(),
            final(self)@ == old(self)@.skip(1),
    {
        (self.gen_u64() % 0x1_0000_0000) as u32
    }

    /// Draws 128 bits: the next word for the low half, the one after it for
    /// the high half.
    pub fn gen_u128(&mut self) -> (value: u128)
        ensures
            value as int == old(self)@.word() as int + old(self)@.skip(1).word() as int * (
            u64::MAX as int + 1),
            final(self)@ == old(self)@.skip(2),
    {
        let low: u128 = self.gen_u64() as u128;
        let high: u128 = self.gen_u64() as u128;
        high * 0x1_0000_0000_0000_0000 + low
    }

    /// Draws a number as wide as a pointer: the low bits of the next word,
    /// as many as the width.
    pub fn gen_usize(&mut self) -> (value: usize)
        ensures
            value as int == old(self)@.word() as int % (usize::MAX as int + 1),
            final(self)@ == old(self)@.skip(1),
    {
        let word: u64 = self.gen_u64();
        let widest: u64 = usize::MAX as u64;
        if widest == u64::MAX {
            word as usize
        } else {
            (word % (widest + 1)) as usize
        }
    }

    /// Draws 8 bits and reads them as a signed number.
    pub fn gen_i8(&mut self) -> (value: i8)
        ensures
            value as int == as_signed(old(self)@.word() as int % 0x100, 0x100),
            final(self)@ == old(self)@.skip(1),
    {
        let bits: u8 = self.gen_u8();
        if bits < 0x80 {
            bits as i8
        } else {
            (bits as i16 - 0x100) as i8
        }
    }

    /// Draws 16 bits and reads them as a signed number.
    pub fn gen_i16(&mut self) -> (value: i16)
        ensures
            value as int == as_signed(old(self)@.word() as int % 0x1_0000, 0x1_0000),
            final(self)@ == old(self)@.skip(1),
    {
        let bits: u16 = self.gen_u16();
        if bits < 0x8000 {
            bits as i16
        } else {
            (bits as i32 - 0x1_0000) as i16
        }
    }

    /// Draws 32 bits and reads them as a signed number.
    pub fn gen_i32(&mut self) -> (value: i32)
        ensures
            value as int == as_signed(old(self)@.word() as int % 0x1_0000_0000, 0x1_0000_0000),
            final(self)@ == old(self)@.skip(1),
    {
        let bits: u32 = self.gen_u32();
        if bits < 0x8000_0000 {
            bits as i32
        } else {
            (bits as i64 - 0x1_0000_0000) as i32
        }
    }

    /// Draws 64 bits and reads them as a signed number.
    pub fn gen_i64(&mut self) -> (value: i64)
        ensures
            value as int == as_signed(old(self)@.word() as int, u64::MAX as int + 1),
            final(self)@ == old(self)@.skip(1),
    {
        let bits: u64 = self.gen_u64();
        if bits < 0x8000_0000_0000_0000 {
            bits as i64
        } else {
            (bits as i128 - 0x1_0000_0000_0000_0000) as i64
        }
    }

    /// Draws 128 bits and reads them as a signed number.
    pub fn gen_i128(&mut self) -> (value: i128)
        ensures
            value as int == as_signed(
                old(self)@.word() as int + old(self)@.skip(1).word() as int * (u64::MAX as int
                    + 1),
                u128::MAX as int + 1,
            ),
            final(self)@ == old(self)@.skip(2),
    {
        let bits: u128 = self.gen_u128();
        if bits <= i128::MAX as u128 {
            bits as i128
        } else {
            -((u128::MAX - bits) as i128) - 1
        }
    }

    /// Draws a number as wide as a pointer and reads it as a signed number.
    pub fn gen_isize(&mut self) -> (value: isize)
        ensures
            value as int == as_signed(
                old(self)@.word() as int % (usize::MAX as int + 1),
                usize::MAX as int + 1,
            ),
            final(self)@ == old(self)@.skip(1),
    {
        let bits: usize = self.gen_usize();
        if bits <= isize::MAX as usize {
            bits as isize
        } else {
            -((usize::MAX - bits) as isize) - 1
        }
    }

    /// `Rng::gen_range(low..=high)` on `i32`: a number from `low` to `high`,
    /// both included, for which at least one word is spent. Which number, and
    /// how many words, is fixed by the state and the bounds.
    #[verifier::external_body]
    pub fn gen_range(&mut self, low: i32, high: i32) -> (value: i32)
        requires
            low <= high,
        ensures
            low <= value <= high,
            value == ranged_draw(old(self)@.label, old(self)@.position, low, high).0,
            final(self)@ == old(self)@.skip(
                ranged_draw(old(self)@.label, old(self)@.position, low, high).1,
            ),
            final(self)@.position > old(self)@.position,
    {
        self.rng.gen_range(low..=high)
    }

    /// `Rng::gen_range(low..=high)` on `usize`: a number from `low` to `high`,
    /// both included, for which at least one word is spent.
    #[verifier::external_body]
    pub fn gen_range_usize(&mut self, low: usize, high: usize) -> (value: usize)
        requires
            low <= high,
        ensures
            low <= value <= high,
            final(self)@.label == old(self)@.label,
            final(self)@.position > old(self)@.position,
    {
        self.rng.gen_range(low..=high)
    }
}

impl Default for SeededDiceRoller {
    /// A roller for the label `seed`, with nothing drawn yet.
    fn default() -> (roller: SeededDiceRoller)
        ensures
            roller@ == (RollerState { label: "seed"@, position: 0 }),
    {
        Self::seeded(String::from_str("seed"))
    }
}

impl Clone for SeededDiceRoller {
    /// `Pcg64::clone`: a second generator in the same state, which draws what
    /// the first one draws.
    #[verifier::external_body]
    fn clone(&self) -> (copy: SeededDiceRoller)
        ensures
            copy@ == self@,
    {
        SeededDiceRoller { rng: self.rng.clone(), label: self.label, position: self.position }
    }
}

} // verus!
