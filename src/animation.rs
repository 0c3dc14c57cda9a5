//! The hover and press state machine of a widget.
//!
//! Instants are milliseconds on the host's monotonic clock; the host passes
//! the current one to every operation that starts a run or advances it.
use vstd::prelude::*;
use crate::effect::{
    advance, advanced_progress, covered, elapsed_ms, elapsed_spec, lemma_advanced_in_range,
    lemma_covered_bounded, lemma_ease_out_monotone, AnimationDirection, AnimationEffect, UNIT,
};

verus! {

/// Hover animation of the widget
#[derive(Debug, Clone, Copy, PartialEq, Eq, Structural)]
pub struct HoverPressedAnimation {
    /// Animation direction: forward means it goes from non-hovered to hovered state
    pub direction: AnimationDirection,
    /// The instant the animation was started at (`None` if it is not running)
    pub started_at: Option<u64>,
    /// The progress of the animation, between 0 and `UNIT`
    pub animation_progress: u32,
    /// The progress the animation has been started at
    pub initial_progress: u32,
    /// The type of effect for the animation
    pub effect: AnimationEffect,
}

/// One operation on an animation, with the values it is given.
pub enum Operation {
    /// `reset`
    Reset,
    /// `on_press` at an instant
    Press(u64),
    /// `on_released` at an instant
    Release(u64),
    /// `on_activate` at an instant
    Activate(u64),
    /// `on_cursor_moved_update`, cursor over the widget or not, at an instant
    CursorMoved(bool, u64),
    /// `on_redraw_request_update` with the forward and backward durations, at an instant
    RedrawRequest(u32, u32, u64),
}

impl HoverPressedAnimation {
    /// Both progress values lie in `[0, UNIT]`, and an idle animation rests at `0`.
    pub open spec fn wf(self) -> bool {
        &&& self.animation_progress <= UNIT
        &&& self.initial_progress <= UNIT
        &&& self.started_at is None ==> self.animation_progress == 0
    }

    /// An idle animation at rest with the given effect.
    pub open spec fn idle(effect: AnimationEffect) -> Self {
        HoverPressedAnimation {
            direction: AnimationDirection::Forward,
            started_at: None,
            animation_progress: 0,
            initial_progress: 0,
            effect,
        }
    }

    /// Idle at rest, keeping the effect.
    pub open spec fn reset_spec(self) -> Self {
        Self::idle(self.effect)
    }

    /// A fresh forward run from rest, started at `now`.
    pub open spec fn press_spec(self, now: u64) -> Self {
        HoverPressedAnimation {
            direction: AnimationDirection::Forward,
            started_at: Some(now),
            animation_progress: 0,
            initial_progress: 0,
            effect: self.effect,
        }
    }

    /// A backward run from the current progress, started at `now`.
    pub open spec fn release_spec(self, now: u64) -> Self {
        HoverPressedAnimation {
            direction: AnimationDirection::Backward,
            started_at: Some(now),
            initial_progress: self.animation_progress,
            ..self
        }
    }

    /// A backward run from the full extreme, started at `now`.
    pub open spec fn activate_spec(self, now: u64) -> Self {
        HoverPressedAnimation {
            direction: AnimationDirection::Backward,
            started_at: Some(now),
            animation_progress: UNIT,
            initial_progress: UNIT,
            effect: self.effect,
        }
    }

    /// The state after the cursor moved, over the widget or not, at `now`.
    pub open spec fn cursor_spec(self, is_mouse_over: bool, now: u64) -> Self {
        if is_mouse_over {
            if self.started_at is Some {
                if self.direction == AnimationDirection::Backward {
                    HoverPressedAnimation {
                        direction: AnimationDirection::Forward,
                        started_at: Some(now),
                        initial_progress: self.animation_progress,
                        ..self
                    }
                } else {
                    self
                }
            } else {
                self.press_spec(now)
            }
        } else if self.started_at is Some && self.direction == AnimationDirection::Forward {
            self.release_spec(now)
        } else {
            self
        }
    }

    /// Whether a cursor move asks for a redraw.
    pub open spec fn cursor_redraw(self, is_mouse_over: bool, now: u64) -> bool {
        if is_mouse_over {
            self.cursor_spec(is_mouse_over, now).animation_progress != UNIT
        } else {
            self.started_at is Some
        }
    }

    /// The state after a redraw tick at `now`: an idle animation stays as it is,
    /// a finished backward run stops, and any other run advances along its effect.
    pub open spec fn redraw_spec(
        self,
        forward_duration_ms: u32,
        backward_duration_ms: u32,
        now: u64,
    ) -> Self {
        match self.started_at {
            None => self,
            Some(started) => {
                if self.animation_progress == 0 && self.direction == AnimationDirection::Backward {
                    HoverPressedAnimation { started_at: None, ..self }
                } else {
                    HoverPressedAnimation {
                        animation_progress: advanced_progress(
                            self.effect,
                            self.direction,
                            self.initial_progress as nat,
                            self.animation_progress as nat,
                            elapsed_spec(started, now),
                            forward_duration_ms as nat,
                            backward_duration_ms as nat,
                        ) as u32,
                        ..self
                    }
                }
            },
        }
    }

    /// The state after one operation.
    pub open spec fn apply(self, op: Operation) -> Self {
        match op {
            Operation::Reset => self.reset_spec(),
            Operation::Press(now) => self.press_spec(now),
            Operation::Release(now) => self.release_spec(now),
            Operation::Activate(now) => self.activate_spec(now),
            Operation::CursorMoved(over, now) => self.cursor_spec(over, now),
            Operation::RedrawRequest(forward, backward, now) => self.redraw_spec(
                forward,
                backward,
                now,
            ),
        }
    }

    /// The state after the operations `ops`, in order.
    pub open spec fn run(self, ops: Seq<Operation>) -> Self
        decreases ops.len(),
    {
        if ops.len() == 0 {
            self
        } else {
            self.apply(ops[0]).run(ops.subrange(1, ops.len() as int))
        }
    }

    /// Create a hover animation with the given transition effect
    pub fn new(effect: AnimationEffect) -> (r: Self)
        ensures
            r == Self::idle(effect),
            r.wf(),
    {
        HoverPressedAnimation {
            direction: AnimationDirection::Forward,
            started_at: None,
            animation_progress: 0,
            initial_progress: 0,
            effect,
        }
    }

    /// Check if the animation is running
    pub fn is_running(&self) -> (r: bool)
        ensures
            r == self.started_at is Some,
    {
        self.started_at.is_some()
    }

    /// Reset the animation
    pub fn reset(&mut self)
        ensures
            *final(self) == old(self).reset_spec(),
            final(self).wf(),
    {
        self.direction = AnimationDirection::Forward;
        self.started_at = None;
        self.animation_progress = 0;
        self.initial_progress = 0;
    }

    /// Update the animation progress, if necessary, and returns the need to request a redraw.
    ///
    /// `now` is the current instant. A zero forward duration completes the
    /// forward leg at once, and a zero backward duration the backward leg.
    pub fn on_redraw_request_update(
        &mut self,
        forward_duration_ms: u32,
        backward_duration_ms: u32,
        now: u64,
    ) -> (r: bool)
        requires
            old(self).wf(),
        ensures
            *final(self) == old(self).redraw_spec(forward_duration_ms, backward_duration_ms, now),
            r == old(self).started_at is Some,
            final(self).wf(),
    {
        match self.started_at {
            Some(started_at) => {
                // A backward run that has reached rest stops here
                if self.animation_progress == 0 && self.direction == AnimationDirection::Backward {
                    self.started_at = None;
                } else {
                    let elapsed = elapsed_ms(started_at, now);
                    self.animation_progress = advance(
                        self.effect,
                        self.direction,
                        self.initial_progress,
                        self.animation_progress,
                        elapsed,
                        forward_duration_ms,
                        backward_duration_ms,
                    );
                }
                true
            },
            None => false,
        }
    }

    /// Update the hovered state at `now` and return the need to request a redraw.
    pub fn on_cursor_moved_update(&mut self, is_mouse_over: bool, now: u64) -> (r: bool)
        requires
            old(self).wf(),
        ensures
            *final(self) == old(self).cursor_spec(is_mouse_over, now),
            r == old(self).cursor_redraw(is_mouse_over, now),
            final(self).wf(),
    {
        if is_mouse_over {
            if self.started_at.is_some() {
                // The cursor re-entered the widget before the animation finished
                if self.direction == AnimationDirection::Backward {
                    self.direction = AnimationDirection::Forward;
                    self.initial_progress = self.animation_progress;
                    self.started_at = Some(now);
                }
            } else {
                self.direction = AnimationDirection::Forward;
                self.started_at = Some(now);
                self.animation_progress = 0;
                self.initial_progress = 0;
            }
            self.animation_progress != UNIT
        } else if self.started_at.is_some() {
            // The cursor left the widget
            match self.direction {
                AnimationDirection::Forward => {
                    self.direction = AnimationDirection::Backward;
                    self.initial_progress = self.animation_progress;
                    self.started_at = Some(now);
                    true
                },
                AnimationDirection::Backward => true,
            }
        } else {
            false
        }
    }

    /// Start the animation at `now` when pressed.
    pub fn on_press(&mut self, now: u64)
        ensures
            *final(self) == old(self).press_spec(now),
            final(self).wf(),
    {
        self.started_at = Some(now);
        self.direction = AnimationDirection::Forward;
        self.animation_progress = 0;
        self.initial_progress = 0;
    }

    /// End the animation at `now` when released.
    pub fn on_released(&mut self, now: u64)
        requires
            old(self).wf(),
        ensures
            *final(self) == old(self).release_spec(now),
            final(self).wf(),
    {
        self.started_at = Some(now);
        self.direction = AnimationDirection::Backward;
        self.initial_progress = self.animation_progress;
    }

    /// End the animation at `now` (go backwards), skipping the forward phase.
    pub fn on_activate(&mut self, now: u64)
        ensures
            *final(self) == old(self).activate_spec(now),
            final(self).wf(),
    {
        self.started_at = Some(now);
        self.direction = AnimationDirection::Backward;
        self.initial_progress = UNIT;
        self.animation_progress = UNIT;
    }
}

impl Default for HoverPressedAnimation {
    fn default() -> (r: Self)
        ensures
            r == Self::idle(AnimationEffect::Linear),
    {
        Self::new(AnimationEffect::Linear)
    }
}

/// Every operation keeps an animation well formed: progress stays within
/// `[0, UNIT]` whatever the operations and the instants they are given.
pub proof fn lemma_operation_keeps_wf(a: HoverPressedAnimation, op: Operation)
    requires
        a.wf(),
    ensures
        a.apply(op).wf(),
{
    if let Operation::RedrawRequest(forward, backward, now) = op {
        if let Some(started) = a.started_at {
            lemma_advanced_in_range(
                a.effect,
                a.direction,
                a.initial_progress as nat,
                a.animation_progress as nat,
                elapsed_spec(started, now),
                forward as nat,
                backward as nat,
            );
        }
    }
}

/// Any sequence of operations keeps an animation well formed, so its progress
/// lies within `[0, UNIT]` after each of them.
pub proof fn lemma_run_keeps_wf(a: HoverPressedAnimation, ops: Seq<Operation>)
    requires
        a.wf(),
    ensures
        a.run(ops).wf(),
    decreases ops.len(),
{
    if ops.len() > 0 {
        lemma_operation_keeps_wf(a, ops[0]);
        lemma_run_keeps_wf(a.apply(ops[0]), ops.subrange(1, ops.len() as int));
    }
}

/// Moving the cursor over a widget whose forward run is under way changes
/// nothing: neither the start instant nor the baseline.
pub proof fn lemma_hover_while_forward_is_idempotent(a: HoverPressedAnimation, now: u64)
    requires
        a.started_at is Some,
        a.direction == AnimationDirection::Forward,
    ensures
        a.cursor_spec(true, now) == a,
        a.cursor_spec(true, now).cursor_spec(true, now) == a,
{
}

/// A release, or a cursor move that turns the direction round, keeps the
/// progress where it was and takes it as the new baseline.
pub proof fn lemma_reversal_is_continuous(a: HoverPressedAnimation, is_mouse_over: bool, now: u64)
    requires
        a.wf(),
    ensures
        a.release_spec(now).animation_progress == a.animation_progress,
        a.release_spec(now).initial_progress == a.animation_progress,
        a.cursor_spec(is_mouse_over, now).direction != a.direction ==> {
            &&& a.cursor_spec(is_mouse_over, now).animation_progress == a.animation_progress
            &&& a.cursor_spec(is_mouse_over, now).initial_progress == a.animation_progress
        },
{
}

/// From rest: a press at `t0`, a tick at `t1` once the forward duration has
/// passed, a release at `t1`, and a tick at `t2` once the backward duration has
/// passed bring the progress back to `0`, with the run of a moving effect still
/// reported; the next tick stops the run, and every tick after it asks for no
/// redraw. (An instantaneous effect with a nonzero forward duration never leaves
/// `0`, and its first backward tick already stops the run.)
///
/// An instantaneous effect with a zero forward duration never leaves the full
/// extreme, so it is left out.
pub proof fn lemma_press_release_settles(
    a: HoverPressedAnimation,
    forward_duration_ms: u32,
    backward_duration_ms: u32,
    t0: u64,
    t1: u64,
    t2: u64,
    t3: u64,
)
    requires
        a.wf(),
        a.started_at is None,
        a.effect != AnimationEffect::Instantaneous || forward_duration_ms > 0,
        t0 <= t1,
        t1 - t0 >= forward_duration_ms,
        t1 <= t2,
        t2 - t1 >= backward_duration_ms,
    ensures
        ({
            let released = a.press_spec(t0).redraw_spec(
                forward_duration_ms,
                backward_duration_ms,
                t1,
            ).release_spec(t1);
            let settled = released.redraw_spec(forward_duration_ms, backward_duration_ms, t2);
            let stopped = settled.redraw_spec(forward_duration_ms, backward_duration_ms, t3);
            &&& settled.animation_progress == 0
            &&& a.effect != AnimationEffect::Instantaneous ==> settled.started_at is Some
            &&& stopped.animation_progress == 0
            &&& stopped.started_at is None
            &&& stopped.redraw_spec(forward_duration_ms, backward_duration_ms, t3) == stopped
        }),
{
    let pressed = a.press_spec(t0);
    let ticked = pressed.redraw_spec(forward_duration_ms, backward_duration_ms, t1);
    assert(pressed.wf());
    lemma_operation_keeps_wf(
        pressed,
        Operation::RedrawRequest(forward_duration_ms, backward_duration_ms, t1),
    );
    let released = ticked.release_spec(t1);
    assert(elapsed_spec(t1, t2) >= backward_duration_ms);
    lemma_covered_bounded(a.effect, elapsed_spec(t0, t1), forward_duration_ms as nat);
    if a.effect != AnimationEffect::Instantaneous {
        assert(ticked.animation_progress == UNIT);
        assert(covered(a.effect, elapsed_spec(t1, t2), backward_duration_ms as nat) == UNIT);
    }
}

/// Under the ease out, ticks of a forward run never lower the progress as
/// time goes on.
pub proof fn lemma_ease_out_forward_is_monotone(
    a: HoverPressedAnimation,
    forward_duration_ms: u32,
    backward_duration_ms: u32,
    t1: u64,
    t2: u64,
)
    requires
        a.wf(),
        a.effect == AnimationEffect::EaseOut,
        a.direction == AnimationDirection::Forward,
        a.started_at is Some,
        t1 <= t2,
    ensures
        a.redraw_spec(forward_duration_ms, backward_duration_ms, t1).animation_progress
            <= a.redraw_spec(forward_duration_ms, backward_duration_ms, t2).animation_progress,
        a.redraw_spec(forward_duration_ms, backward_duration_ms, t1).animation_progress
            <= a.redraw_spec(forward_duration_ms, backward_duration_ms, t1).redraw_spec(
            forward_duration_ms,
            backward_duration_ms,
            t2,
        ).animation_progress,
{
    let started = a.started_at.unwrap();
    lemma_ease_out_monotone(
        elapsed_spec(started, t1),
        elapsed_spec(started, t2),
        forward_duration_ms as nat,
    );
    lemma_covered_bounded(a.effect, elapsed_spec(started, t1), forward_duration_ms as nat);
    lemma_covered_bounded(a.effect, elapsed_spec(started, t2), forward_duration_ms as nat);
}

} // verus!
