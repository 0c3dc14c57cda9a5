//! Transition curves: how far a run has travelled after some time.
//!
//! Progress is held in fixed point: `0` is rest and [`UNIT`] is the fully
//! hovered or pressed extreme. Time is counted in whole milliseconds.
use vstd::prelude::*;
use vstd::arithmetic::div_mod::{lemma_div_by_multiple, lemma_div_is_ordered};
use vstd::arithmetic::mul::lemma_mul_inequality;

verus! {

/// Number of units that stand for a whole transition (and a whole colour channel).
pub const UNIT: u32 = 1_000_000;

/// The type of effect for the animation
#[derive(Debug, Clone, Copy, PartialEq, Eq, Structural)]
pub enum AnimationEffect {
    /// Transition is linear.
    Linear,
    /// Transition is a cubic ease out.
    EaseOut,
    /// Transition is instantaneous.
    Instantaneous,
}

/// Direction of the animation
#[derive(Debug, Clone, Copy, PartialEq, Eq, Structural)]
pub enum AnimationDirection {
    /// The animation goes forward, from rest towards the hovered or pressed state
    Forward,
    /// The animation goes backward, towards rest
    Backward,
}

impl Default for AnimationEffect {
    fn default() -> (r: Self)
        ensures
            r == AnimationEffect::Linear,
    {
        AnimationEffect::Linear
    }
}

impl Default for AnimationDirection {
    fn default() -> (r: Self)
        ensures
            r == AnimationDirection::Forward,
    {
        AnimationDirection::Forward
    }
}

/// Milliseconds from `started` to `now`; an instant before the start counts as no time.
pub open spec fn elapsed_spec(started: u64, now: u64) -> nat {
    if now >= started {
        (now - started) as nat
    } else {
        0
    }
}

/// `x` to the third power.
pub open spec fn cube(x: int) -> int {
    x * x * x
}

/// The share of a whole transition that a constant-rate run covers after
/// `elapsed` of `duration` milliseconds, in units, capped at a whole one.
pub open spec fn linear_fraction(elapsed: nat, duration: nat) -> nat {
    if elapsed >= duration {
        UNIT as nat
    } else {
        ((elapsed * UNIT) / (duration as int)) as nat
    }
}

/// The same share for the cubic ease out `1 - (1 - t)^3`, with `t = elapsed / duration`.
pub open spec fn ease_out_fraction(elapsed: nat, duration: nat) -> nat {
    if elapsed >= duration {
        UNIT as nat
    } else {
        (UNIT - (UNIT * cube(duration - elapsed)) / cube(duration as int)) as nat
    }
}

/// The share of a whole transition that `effect` covers; `Instantaneous` moves nothing by time.
pub open spec fn covered(effect: AnimationEffect, elapsed: nat, duration: nat) -> nat {
    match effect {
        AnimationEffect::Linear => linear_fraction(elapsed, duration),
        AnimationEffect::EaseOut => ease_out_fraction(elapsed, duration),
        AnimationEffect::Instantaneous => 0,
    }
}

/// Progress after a tick of a running animation, from the baseline `initial`,
/// the `current` progress and the time since the run (or its direction) began.
///
/// A zero forward duration finishes the forward leg at once; a zero backward
/// duration likewise finishes the backward leg of a moving effect at once.
pub open spec fn advanced_progress(
    effect: AnimationEffect,
    direction: AnimationDirection,
    initial: nat,
    current: nat,
    elapsed: nat,
    forward_ms: nat,
    backward_ms: nat,
) -> nat {
    match direction {
        AnimationDirection::Forward => {
            if forward_ms == 0 {
                UNIT as nat
            } else if effect == AnimationEffect::Instantaneous {
                current
            } else if initial + covered(effect, elapsed, forward_ms) >= UNIT {
                UNIT as nat
            } else {
                initial + covered(effect, elapsed, forward_ms)
            }
        },
        AnimationDirection::Backward => {
            if effect == AnimationEffect::Instantaneous {
                current
            } else if covered(effect, elapsed, backward_ms) >= initial {
                0
            } else {
                (initial - covered(effect, elapsed, backward_ms)) as nat
            }
        },
    }
}

/// Cubing keeps the order of non-negative numbers.
pub proof fn lemma_cube_monotone(x: int, y: int)
    requires
        0 <= x <= y,
    ensures
        0 <= cube(x) <= cube(y),
{
    assert(0 <= x * x <= y * y) by (nonlinear_arith)
        requires
            0 <= x <= y,
    ;
    assert(0 <= x * x * x <= y * y * y) by (nonlinear_arith)
        requires
            0 <= x <= y,
            0 <= x * x <= y * y,
    ;
}

/// The ease-out share lies within one whole transition.
pub proof fn lemma_ease_out_bounded(elapsed: nat, duration: nat)
    ensures
        ease_out_fraction(elapsed, duration) <= UNIT,
        elapsed < duration ==> (UNIT * cube(duration - elapsed)) / cube(duration as int) <= UNIT,
{
    if elapsed < duration {
        let d = duration as int;
        let rest = d - elapsed;
        lemma_cube_monotone(rest, d);
        lemma_cube_monotone(1, d);
        lemma_mul_inequality(cube(rest), cube(d), UNIT as int);
        lemma_div_is_ordered(UNIT * cube(rest), UNIT * cube(d), cube(d));
        assert(UNIT * cube(rest) == cube(rest) * UNIT) by (nonlinear_arith);
        assert(UNIT * cube(d) == cube(d) * UNIT) by (nonlinear_arith);
        lemma_div_by_multiple(UNIT as int, cube(d));
        assert((UNIT as int * cube(d)) / cube(d) == UNIT);
        assert(0 <= UNIT * cube(rest)) by (nonlinear_arith)
            requires
                0 <= cube(rest),
        ;
    }
}

/// The ease-out share never decreases as time goes on.
pub proof fn lemma_ease_out_monotone(e1: nat, e2: nat, duration: nat)
    requires
        e1 <= e2,
    ensures
        ease_out_fraction(e1, duration) <= ease_out_fraction(e2, duration),
{
    lemma_ease_out_bounded(e1, duration);
    lemma_ease_out_bounded(e2, duration);
    if e2 < duration {
        let d = duration as int;
        lemma_cube_monotone(d - e2, d - e1);
        lemma_cube_monotone(1, d);
        lemma_mul_inequality(cube(d - e2), cube(d - e1), UNIT as int);
        assert(UNIT * cube(d - e2) == cube(d - e2) * UNIT) by (nonlinear_arith);
        assert(UNIT * cube(d - e1) == cube(d - e1) * UNIT) by (nonlinear_arith);
        lemma_div_is_ordered(UNIT * cube(d - e2), UNIT * cube(d - e1), cube(d));
    }
}

/// The constant-rate share lies within one whole transition.
pub proof fn lemma_linear_bounded(elapsed: nat, duration: nat)
    ensures
        linear_fraction(elapsed, duration) <= UNIT,
{
    if elapsed < duration {
        lemma_mul_inequality(elapsed as int, duration as int, UNIT as int);
        lemma_div_is_ordered(elapsed * UNIT, duration * UNIT, duration as int);
        assert(duration * UNIT == UNIT * duration) by (nonlinear_arith);
        lemma_div_by_multiple(UNIT as int, duration as int);
    }
}

/// Whatever the effect, a run covers at most one whole transition.
pub proof fn lemma_covered_bounded(effect: AnimationEffect, elapsed: nat, duration: nat)
    ensures
        covered(effect, elapsed, duration) <= UNIT,
{
    lemma_linear_bounded(elapsed, duration);
    lemma_ease_out_bounded(elapsed, duration);
}

/// A tick leaves the progress within `[0, UNIT]`.
pub proof fn lemma_advanced_in_range(
    effect: AnimationEffect,
    direction: AnimationDirection,
    initial: nat,
    current: nat,
    elapsed: nat,
    forward_ms: nat,
    backward_ms: nat,
)
    requires
        initial <= UNIT,
        current <= UNIT,
    ensures
        advanced_progress(effect, direction, initial, current, elapsed, forward_ms, backward_ms)
            <= UNIT,
{
}

/// Milliseconds from `started` to `now`, zero when `now` comes first.
pub fn elapsed_ms(started: u64, now: u64) -> (r: u64)
    ensures
        r == elapsed_spec(started, now),
{
    if now >= started {
        now - started
    } else {
        0
    }
}

/// Share covered by a constant-rate run after `elapsed` of `duration` milliseconds.
fn linear(elapsed: u64, duration: u32) -> (r: u32)
    ensures
        r == linear_fraction(elapsed as nat, duration as nat),
{
    if elapsed >= duration as u64 {
        UNIT
    } else {
        proof {
            lemma_linear_bounded(elapsed as nat, duration as nat);
            lemma_mul_inequality(elapsed as int, duration as int, UNIT as int);
            assert(duration * UNIT <= 0xffff_ffff * 1_000_000) by (nonlinear_arith)
                requires
                    duration <= 0xffff_ffff,
            ;
        }
        let num: u64 = elapsed * (UNIT as u64);
        (num / (duration as u64)) as u32
    }
}

/// Share covered by the cubic ease out `1 - (1 - t)^3` after `elapsed` of
/// `duration` milliseconds.
fn ease_out_cubic(elapsed: u64, duration: u32) -> (r: u32)
    ensures
        r == ease_out_fraction(elapsed as nat, duration as nat),
{
    if elapsed >= duration as u64 {
        UNIT
    } else {
        let d: u128 = duration as u128;
        let rest: u128 = (duration as u64 - elapsed) as u128;
        proof {
            lemma_ease_out_bounded(elapsed as nat, duration as nat);
            lemma_cube_monotone(rest as int, d as int);
            assert(d * d <= 0xffff_ffff * 0xffff_ffff) by (nonlinear_arith)
                requires
                    d <= 0xffff_ffff,
            ;
            assert(d * d * d <= 0xffff_ffff * 0xffff_ffff * 0xffff_ffff) by (nonlinear_arith)
                requires
                    d <= 0xffff_ffff,
                    d * d <= 0xffff_ffff * 0xffff_ffff,
            ;
            assert(rest * rest <= d * d) by (nonlinear_arith)
                requires
                    rest <= d,
            ;
            assert(1_000_000 * (rest * rest * rest) <= 1_000_000 * (0xffff_ffff * 0xffff_ffff
                * 0xffff_ffff)) by (nonlinear_arith)
                requires
                    rest * rest * rest <= d * d * d,
                    d * d * d <= 0xffff_ffff * 0xffff_ffff * 0xffff_ffff,
            ;
        }
        let den: u128 = d * d * d;
        proof {
            lemma_cube_monotone(1, d as int);
            assert(den as int == cube(d as int));
        }
        let cubed: u128 = rest * rest * rest;
        let num: u128 = (UNIT as u128) * cubed;
        UNIT - (num / den) as u32
    }
}

/// Share of a whole transition that `effect` covers after `elapsed` of
/// `duration` milliseconds.
pub fn covered_share(effect: AnimationEffect, elapsed: u64, duration: u32) -> (r: u32)
    ensures
        r == covered(effect, elapsed as nat, duration as nat),
        r <= UNIT,
{
    proof {
        lemma_covered_bounded(effect, elapsed as nat, duration as nat);
    }
    match effect {
        AnimationEffect::Linear => linear(elapsed, duration),
        AnimationEffect::EaseOut => ease_out_cubic(elapsed, duration),
        AnimationEffect::Instantaneous => 0,
    }
}

/// Progress of a running animation after `elapsed` milliseconds, from the
/// baseline `initial` and the `current` progress.
pub fn advance(
    effect: AnimationEffect,
    direction: AnimationDirection,
    initial: u32,
    current: u32,
    elapsed: u64,
    forward_duration_ms: u32,
    backward_duration_ms: u32,
) -> (r: u32)
    requires
        initial <= UNIT,
        current <= UNIT,
    ensures
        r == advanced_progress(
            effect,
            direction,
            initial as nat,
            current as nat,
            elapsed as nat,
            forward_duration_ms as nat,
            backward_duration_ms as nat,
        ),
        r <= UNIT,
{
    match direction {
        AnimationDirection::Forward => {
            if forward_duration_ms == 0 {
                UNIT
            } else if effect == AnimationEffect::Instantaneous {
                current
            } else {
                let share = covered_share(effect, elapsed, forward_duration_ms);
                if share >= UNIT - initial {
                    UNIT
                } else {
                    initial + share
                }
            }
        },
        AnimationDirection::Backward => {
            if effect == AnimationEffect::Instantaneous {
                current
            } else {
                let share = covered_share(effect, elapsed, backward_duration_ms);
                if share >= initial {
                    0
                } else {
                    initial - share
                }
            }
        },
    }
}

} // verus!
