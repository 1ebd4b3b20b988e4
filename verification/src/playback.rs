//! The per-animation playback cursor: elapsed and seek time, speed, repeat
//! policy and completion count, advanced once per unpaused tick.

use vstd::prelude::*;

use crate::MAX_DELTA;
use crate::MAX_ELAPSED;
use crate::MAX_SPEED;
use crate::MAX_TIME;
use crate::SEEK_LIMIT;
use crate::SPEED_SCALE;
use crate::clip::ClipHandle;
use crate::div_trunc;
use crate::div_trunc_i64;

verus! {

/// Repetition behavior of an animation.
#[derive(Clone, Copy, Debug, PartialEq, Eq, Structural)]
pub enum RepeatAnimation {
    /// The animation will finish after running once.
    Never,
    /// The animation will finish after running "n" times.
    Count(u32),
    /// The animation will never finish.
    Forever,
}

impl Default for RepeatAnimation {
    /// The default policy: finish after one pass.
    fn default() -> (r: Self)
        ensures
            r == RepeatAnimation::Never,
    {
        RepeatAnimation::Never
    }
}

/// The seek advance of one tick: `delta * speed`, scaled back from
/// `SPEED_SCALE` fixed point, rounding toward zero.
pub open spec fn seek_step(delta: int, speed: int) -> int {
    div_trunc(delta * speed, SPEED_SCALE as int)
}

/// A seek cursor clamped into `[-SEEK_LIMIT, SEEK_LIMIT]`.
pub open spec fn clamp_seek(x: int) -> int {
    if x > SEEK_LIMIT as int {
        SEEK_LIMIT as int
    } else if x < -SEEK_LIMIT as int {
        -SEEK_LIMIT as int
    } else {
        x
    }
}

/// A playing animation: the mutable cursor a player (or a fading
/// transition) keeps for one clip.
///
/// Callers keep [`PlayingAnimation::wf`] as an invariant; every method of
/// this crate preserves it.
#[derive(Clone, Copy, Debug, PartialEq, Eq, Structural)]
pub struct PlayingAnimation {
    /// Repetition behavior.
    pub repeat: RepeatAnimation,
    /// Playback speed, in `SPEED_SCALE` fixed point; negative plays in
    /// reverse.
    pub speed: i64,
    /// Total time the animation has been played, in ticks.
    ///
    /// Note: time does not advance when the animation is paused or after it
    /// has finished.
    pub elapsed: i64,
    /// The seek position inside the clip, in ticks.
    ///
    /// Note: while the animation runs this stays in `[0, clip duration)`;
    /// a just-finished animation holds its overshoot value instead.
    pub seek_time: i64,
    /// The clip being played.
    pub animation_clip: ClipHandle,
    /// Number of times the animation has completed.
    ///
    /// If the animation plays in reverse, this increments when the
    /// animation passes the start.
    pub completions: u32,
}

impl Default for PlayingAnimation {
    /// A fresh cursor: speed 1.0, nothing elapsed, the default clip handle,
    /// no completions, repeat policy `Never`.
    fn default() -> (r: Self)
        ensures
            r == PlayingAnimation::initial(ClipHandle { id: 0 }),
    {
        PlayingAnimation {
            repeat: RepeatAnimation::Never,
            speed: SPEED_SCALE,
            elapsed: 0,
            seek_time: 0,
            animation_clip: ClipHandle { id: 0 },
            completions: 0,
        }
    }
}

impl PlayingAnimation {
    /// The fresh cursor for a clip: speed 1.0, nothing elapsed, no
    /// completions, repeat policy `Never`.
    pub open spec fn initial(handle: ClipHandle) -> PlayingAnimation {
        PlayingAnimation {
            repeat: RepeatAnimation::Never,
            speed: SPEED_SCALE,
            elapsed: 0,
            seek_time: 0,
            animation_clip: handle,
            completions: 0,
        }
    }

    /// Field ranges every cursor stays within.
    pub open spec fn wf(self) -> bool {
        &&& -MAX_SPEED <= self.speed <= MAX_SPEED
        &&& 0 <= self.elapsed <= MAX_ELAPSED
        &&& -SEEK_LIMIT <= self.seek_time <= SEEK_LIMIT
    }

    /// The fresh cursor for a clip, as an executable constructor.
    pub fn new(handle: ClipHandle) -> (r: Self)
        ensures
            r == PlayingAnimation::initial(handle),
            r.wf(),
    {
        PlayingAnimation {
            repeat: RepeatAnimation::Never,
            speed: SPEED_SCALE,
            elapsed: 0,
            seek_time: 0,
            animation_clip: handle,
            completions: 0,
        }
    }

    /// Whether the animation has finished, given its repetition behavior
    /// and completion count: never under `Forever`, after one completion
    /// under `Never`, after `n` completions under `Count(n)`.
    pub open spec fn spec_is_finished(self) -> bool {
        match self.repeat {
            RepeatAnimation::Forever => false,
            RepeatAnimation::Never => self.completions >= 1,
            RepeatAnimation::Count(n) => self.completions >= n,
        }
    }

    /// Check if the animation has finished, based on its repetition
    /// behavior and the number of times it has repeated.
    ///
    /// Note: an animation with `RepeatAnimation::Forever` will never finish.
    pub fn is_finished(&self) -> (r: bool)
        ensures
            r == self.spec_is_finished(),
    {
        match self.repeat {
            RepeatAnimation::Forever => false,
            RepeatAnimation::Never => self.completions >= 1,
            RepeatAnimation::Count(n) => self.completions >= n,
        }
    }

    /// The cursor after one update by `delta` ticks against a clip of the
    /// given duration.
    ///
    /// A finished animation is left unchanged. Otherwise elapsed time
    /// advances (saturating at `MAX_ELAPSED`), the seek cursor advances by
    /// `delta * speed` (clamped into seek range), and a full pass — playing
    /// forward past the duration, or in reverse past the start — counts one
    /// completion (saturating at `u32::MAX`). If the pass finished the
    /// animation, the overshot seek value is held; otherwise the cursor is
    /// wrapped back into `[0, clip_duration)` by a modulo when over and by
    /// one duration added when under.
    pub open spec fn updated(self, delta: int, clip_duration: int) -> PlayingAnimation
        recommends
            clip_duration > 0,
    {
        if self.spec_is_finished() {
            self
        } else {
            let elapsed2 = if self.elapsed + delta > MAX_ELAPSED {
                MAX_ELAPSED as int
            } else {
                self.elapsed + delta
            };
            let seek1 = clamp_seek(self.seek_time + seek_step(delta, self.speed as int));
            let over_time = self.speed > 0 && seek1 >= clip_duration;
            let under_time = self.speed < 0 && seek1 < 0;
            let completions2 = if (over_time || under_time) && self.completions < u32::MAX {
                (self.completions + 1) as u32
            } else {
                self.completions
            };
            let mid = PlayingAnimation {
                elapsed: elapsed2 as i64,
                seek_time: seek1 as i64,
                completions: completions2,
                ..self
            };
            if (over_time || under_time) && mid.spec_is_finished() {
                mid
            } else {
                let seek2 = if seek1 >= clip_duration {
                    seek1 % clip_duration
                } else {
                    seek1
                };
                let seek3 = if seek2 < 0 {
                    seek2 + clip_duration
                } else {
                    seek2
                };
                PlayingAnimation { seek_time: seek3 as i64, ..mid }
            }
        }
    }

    /// Update the animation given the delta time and the duration of the
    /// clip being played, as described by [`PlayingAnimation::updated`].
    ///
    /// A single tick's `delta * speed` magnitude must not exceed the clip
    /// duration for the wrap to land back in range; larger steps wrap by at
    /// most one duration (a known limitation, inherited from the modulo /
    /// single-addition wrap).
    pub fn update(&mut self, delta: i64, clip_duration: i64)
        requires
            old(self).wf(),
            0 <= delta <= MAX_DELTA,
            0 < clip_duration <= MAX_TIME,
        ensures
            final(self).wf(),
            *final(self) == old(self).updated(delta as int, clip_duration as int),
    {
        if self.is_finished() {
            return ;
        }
        let e = self.elapsed + delta;
        self.elapsed = if e > MAX_ELAPSED {
            MAX_ELAPSED
        } else {
            e
        };
        proof {
            assert((delta as int) * (self.speed as int) <= MAX_DELTA as int * MAX_SPEED as int && (
            delta as int) * (self.speed as int) >= -(MAX_DELTA as int * MAX_SPEED as int)) by (nonlinear_arith)
                requires
                    0 <= delta <= MAX_DELTA,
                    -MAX_SPEED <= self.speed <= MAX_SPEED,
            ;
            lemma_div_trunc_range((delta as int) * (self.speed as int), SPEED_SCALE as int);
        }
        let prod: i64 = delta * self.speed;
        let step: i64 = div_trunc_i64(prod, SPEED_SCALE);
        let s = self.seek_time + step;
        self.seek_time = if s > SEEK_LIMIT {
            SEEK_LIMIT
        } else if s < -SEEK_LIMIT {
            -SEEK_LIMIT
        } else {
            s
        };
        let over_time = self.speed > 0 && self.seek_time >= clip_duration;
        let under_time = self.speed < 0 && self.seek_time < 0;
        if over_time || under_time {
            if self.completions < u32::MAX {
                self.completions = self.completions + 1;
            }
            if self.is_finished() {
                return ;
            }
        }
        if self.seek_time >= clip_duration {
            self.seek_time = self.seek_time % clip_duration;
        }
        if self.seek_time < 0 {
            self.seek_time = self.seek_time + clip_duration;
        }
    }

    /// Reset back to the initial state as if no time has elapsed: clears
    /// completions, elapsed and seek time; speed, repeat policy and clip
    /// are kept.
    pub fn replay(&mut self)
        ensures
            *final(self) == (PlayingAnimation {
                completions: 0,
                elapsed: 0,
                seek_time: 0,
                ..*old(self)
            }),
            old(self).wf() ==> final(self).wf(),
    {
        self.completions = 0;
        self.elapsed = 0;
        self.seek_time = 0;
    }
}

/// Truncating division by a positive divisor moves a value toward zero:
/// a nonnegative dividend gives a quotient between zero and itself, a
/// negative one between itself and zero.
pub proof fn lemma_div_trunc_range(x: int, d: int)
    requires
        d > 0,
    ensures
        x >= 0 ==> 0 <= div_trunc(x, d) <= x,
        x < 0 ==> x <= div_trunc(x, d) <= 0,
{
    if x >= 0 {
        vstd::arithmetic::div_mod::lemma_div_is_ordered_by_denominator(x, 1, d);
        vstd::arithmetic::div_mod::lemma_div_basics(x);
        vstd::arithmetic::div_mod::lemma_div_pos_is_pos(x, d);
    } else {
        vstd::arithmetic::div_mod::lemma_div_is_ordered_by_denominator(-x, 1, d);
        vstd::arithmetic::div_mod::lemma_div_basics(-x);
        vstd::arithmetic::div_mod::lemma_div_pos_is_pos(-x, d);
    }
}

/// A finished animation is frozen: updating it changes nothing, whatever
/// the delta and duration.
pub proof fn lemma_finished_update_is_noop(s: PlayingAnimation, delta: int, clip_duration: int)
    requires
        s.spec_is_finished(),
    ensures
        s.updated(delta, clip_duration) == s,
{
}

/// With repeat policy `Never`, the first full pass (forward past the
/// duration, or in reverse past the start) finishes the animation; every
/// later update is a no-op, freezing seek and elapsed time.
pub proof fn lemma_never_finishes_after_one_pass(s: PlayingAnimation, delta: int, clip_duration: int)
    requires
        s.repeat == RepeatAnimation::Never,
        !s.spec_is_finished(),
        ({
            let seek1 = clamp_seek(s.seek_time + seek_step(delta, s.speed as int));
            (s.speed > 0 && seek1 >= clip_duration) || (s.speed < 0 && seek1 < 0)
        }),
    ensures
        s.updated(delta, clip_duration).spec_is_finished(),
        s.updated(delta, clip_duration).completions == 1,
        forall|d2: int, dur2: int|
            #[trigger] s.updated(delta, clip_duration).updated(d2, dur2) == s.updated(
                delta,
                clip_duration,
            ),
{
    let s2 = s.updated(delta, clip_duration);
    assert(s2.completions == 1);
    assert forall|d2: int, dur2: int| #[trigger] s2.updated(d2, dur2) == s2 by {
        lemma_finished_update_is_noop(s2, d2, dur2);
    }
}

/// With repeat policy `Count(n)`, completions increment by exactly one per
/// full pass and stay unchanged otherwise, and the animation is finished
/// exactly when completions have reached `n`, never before.
pub proof fn lemma_count_policy(s: PlayingAnimation, delta: int, clip_duration: int, n: u32)
    requires
        s.repeat == RepeatAnimation::Count(n),
        !s.spec_is_finished(),
    ensures
        ({
            let seek1 = clamp_seek(s.seek_time + seek_step(delta, s.speed as int));
            let crossed = (s.speed > 0 && seek1 >= clip_duration) || (s.speed < 0 && seek1 < 0);
            let s2 = s.updated(delta, clip_duration);
            &&& s2.completions == if crossed {
                s.completions + 1
            } else {
                s.completions as int
            }
            &&& s2.spec_is_finished() <==> s2.completions >= n
        }),
{
}

/// Reverse playback: with negative speed the seek step is never positive;
/// without a wrap the seek cursor only moves down; a full reverse pass
/// (crossing below zero) counts one completion, and, if the animation is
/// not finished by it, wraps the cursor up by one clip duration.
pub proof fn lemma_reverse_playback(s: PlayingAnimation, delta: int, clip_duration: int)
    requires
        s.wf(),
        !s.spec_is_finished(),
        s.speed < 0,
        s.completions < u32::MAX,
        0 <= delta <= MAX_DELTA,
        0 < clip_duration <= MAX_TIME,
        0 <= s.seek_time < clip_duration,
    ensures
        seek_step(delta, s.speed as int) <= 0,
        ({
            let step = seek_step(delta, s.speed as int);
            let crossed = s.seek_time + step < 0;
            let s2 = s.updated(delta, clip_duration);
            &&& (!crossed ==> s2.seek_time == s.seek_time + step && s2.seek_time <= s.seek_time
                && s2.completions == s.completions)
            &&& (crossed ==> s2.completions == s.completions + 1)
            &&& (crossed && !s2.spec_is_finished() ==> s2.seek_time == s.seek_time + step
                + clip_duration)
        }),
{
    assert((delta as int) * (s.speed as int) <= 0 && (delta as int) * (s.speed as int) >= -(
    MAX_DELTA as int * MAX_SPEED as int)) by (nonlinear_arith)
        requires
            0 <= delta <= MAX_DELTA,
            -MAX_SPEED <= s.speed < 0,
    ;
    lemma_div_trunc_range((delta as int) * (s.speed as int), SPEED_SCALE as int);
    let step = seek_step(delta, s.speed as int);
    assert(clamp_seek(s.seek_time + step) == s.seek_time + step);
}

} // verus!
