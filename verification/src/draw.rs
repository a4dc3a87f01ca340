use vstd::prelude::*;
use crate::scalar::in_draw_range;
use crate::scalar::DRAW_HIGH;
use crate::scalar::DRAW_LOW;

verus! {

/// A random word is divided by this, two to the twelfth, to leave the 52
/// bits that select a draw.
pub const WORDS_PER_STEP: u64 = 0x1000;

/// Two to the fiftieth: the number of steps that a draw can take between
/// one whole number and the next.
pub const STEPS_PER_UNIT: u64 = 0x4_0000_0000_0000;

/// Two to the fifty-second: the number of fractions that a pattern can
/// hold under one exponent.
pub const FRACTIONS: u64 = 0x10_0000_0000_0000;

/// The pattern of two.
pub const TWO: u64 = 0x4000_0000_0000_0000;

/// The pattern of four.
pub const FOUR: u64 = 0x4010_0000_0000_0000;

/// The step that a random word selects: a whole number from zero up to,
/// and not including, two to the fifty-second.
pub open spec fn step_of(word: u64) -> int {
    word as int / WORDS_PER_STEP as int
}

/// The pattern of the number one plus `step` times two to the minus
/// fiftieth, for a step below two to the fifty-second.
///
/// From one to two a pattern grows by four for each step, from two to
/// four by two, and from four to five by one.
pub open spec fn pattern_of_step(step: int) -> int {
    if step < STEPS_PER_UNIT {
        DRAW_LOW + 4 * step
    } else if step < 3 * STEPS_PER_UNIT {
        TWO + 2 * (step - STEPS_PER_UNIT)
    } else {
        FOUR + (step - 3 * STEPS_PER_UNIT)
    }
}

/// The draw that a random word stands for.
pub open spec fn draw_of(word: u64) -> u64 {
    pattern_of_step(step_of(word)) as u64
}

/// Whether a pattern is the draw of some word.
pub open spec fn is_draw(cell: u64) -> bool {
    exists|word: u64| cell == #[trigger] draw_of(word)
}

/// Whether a pattern is the draw of a word that `source` may give.
pub open spec fn is_draw_from<S: Fn() -> u64>(source: S, cell: u64) -> bool {
    exists|word: u64| #[trigger] source.ensures((), word) && cell == draw_of(word)
}

/// The number that a pattern stands for, times two to the fifty-second,
/// for a pattern from that of one up to, and not including, that of
/// eight: the fraction with its leading one, doubled for each exponent
/// above that of one.
pub open spec fn scaled_number(pattern: u64) -> int {
    let exponent = pattern as int / FRACTIONS as int;
    let fraction = pattern as int % FRACTIONS as int;
    let doubling: int = if exponent == 0x3FF {
        1
    } else if exponent == 0x400 {
        2
    } else {
        4
    };
    (FRACTIONS + fraction) * doubling
}

/// Turns a random word into a draw from one, included, to five,
/// excluded.
///
/// The low twelve bits of the word are dropped; the other 52 select one
/// of two to the fifty-second numbers, evenly spaced from one upwards. A
/// word drawn uniformly gives a number drawn uniformly among them.
pub fn draw_pattern(word: u64) -> (cell: u64)
    ensures
        cell == draw_of(word),
        in_draw_range(cell),
{
    let step: u64 = word / WORDS_PER_STEP;
    if step < STEPS_PER_UNIT {
        DRAW_LOW + 4 * step
    } else if step < 3 * STEPS_PER_UNIT {
        TWO + 2 * (step - STEPS_PER_UNIT)
    } else {
        FOUR + (step - 3 * STEPS_PER_UNIT)
    }
}

/// A word from the generator of the calling thread.
///
/// Calls `rand::thread_rng` and, on the generator it hands out,
/// `rand::RngCore::next_u64`. Nothing is claimed of the word: every
/// 64-bit value may come back, and two calls may differ. The first call
/// in a thread seeds the generator from the operating system, and stops
/// the program if the system has no randomness to give.
#[verifier::external_body]
pub(crate) fn thread_word() -> u64 {
    rand::RngCore::next_u64(&mut rand::thread_rng())
}

/// Every draw lies from one, included, to five, excluded.
pub proof fn lemma_draw_in_range(word: u64)
    ensures
        in_draw_range(draw_of(word)),
{
}

/// The draw of a word stands for one plus its step times two to the
/// minus fiftieth: the draws are evenly spaced.
pub proof fn lemma_draw_number(word: u64)
    ensures
        scaled_number(draw_of(word)) == FRACTIONS + 4 * step_of(word),
{
}

/// A greater word never gives a lesser draw, and the words of one step
/// give one draw.
pub proof fn lemma_draw_monotone(low: u64, high: u64)
    requires
        low <= high,
    ensures
        draw_of(low) <= draw_of(high),
        step_of(low) == step_of(high) <==> draw_of(low) == draw_of(high),
{
}

/// The least word gives one; the greatest gives the last number before
/// five.
pub proof fn lemma_draw_ends()
    ensures
        draw_of(0) == DRAW_LOW,
        draw_of(u64::MAX) == DRAW_HIGH - 1,
{
}

} // verus!
