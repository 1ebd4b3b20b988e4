//! The animation player: one active playback cursor, an ordered list of
//! fading transitions, and the per-tick advance that moves them all.

use vstd::prelude::*;

use crate::MAX_DELTA;
use crate::TICKS_PER_SECOND;
use crate::WEIGHT_SCALE;
use crate::clip::ClipAssets;
use crate::clip::ClipHandle;
use crate::playback::PlayingAnimation;
use crate::playback::RepeatAnimation;

verus! {

/// An animation that is being faded out as part of a transition.
#[derive(Clone, Copy, Debug, PartialEq, Eq, Structural)]
pub struct AnimationTransition {
    /// The current blend weight, in `WEIGHT_SCALE` fixed point. Starts at
    /// `WEIGHT_SCALE` (1.0) and falls toward zero during the fade-out.
    pub current_weight: i64,
    /// How much `current_weight` falls per second.
    pub weight_decline_per_sec: i64,
    /// The animation that is being faded out.
    pub animation: PlayingAnimation,
}

impl AnimationTransition {
    /// A live transition: positive weight within scale, a nonnegative
    /// decline rate, and a well-formed cursor.
    pub open spec fn wf(self) -> bool {
        &&& 0 < self.current_weight <= WEIGHT_SCALE
        &&& 0 <= self.weight_decline_per_sec <= WEIGHT_SCALE * TICKS_PER_SECOND
        &&& self.animation.wf()
    }
}

/// The weight of a transition after `delta` ticks of fading.
pub open spec fn faded_weight(t: AnimationTransition, delta: int) -> int {
    t.current_weight - (t.weight_decline_per_sec * delta) / (TICKS_PER_SECOND as int)
}

/// A transition after one advance: its weight faded, and its cursor updated
/// against the duration of its clip, when the store holds that clip with a
/// positive duration.
pub open spec fn advanced_transition(
    t: AnimationTransition,
    delta: int,
    clips: ClipAssets,
) -> AnimationTransition {
    let anim = match clips.spec_get(t.animation.animation_clip.id) {
        Some(clip) => if clip.spec_duration() > 0 {
            t.animation.updated(delta, clip.spec_duration() as int)
        } else {
            t.animation
        },
        None => t.animation,
    };
    AnimationTransition { current_weight: faded_weight(t, delta) as i64, animation: anim, ..t }
}

/// The transition list after one advance: each transition fades and its
/// cursor updates; one whose weight falls to zero or below expires and is
/// removed. Order is kept.
pub open spec fn advance_transitions(
    ts: Seq<AnimationTransition>,
    delta: int,
    clips: ClipAssets,
) -> Seq<AnimationTransition>
    decreases ts.len(),
{
    if ts.len() == 0 {
        Seq::empty()
    } else {
        let pre = advance_transitions(ts.drop_last(), delta, clips);
        if faded_weight(ts.last(), delta) <= 0 {
            pre
        } else {
            pre.push(advanced_transition(ts.last(), delta, clips))
        }
    }
}

/// Animation controls: the runtime driver of one primary animation plus any
/// in-progress cross-fade transitions.
pub struct AnimationPlayer {
    paused: bool,
    animation: PlayingAnimation,
    // List of previous animations we're currently transitioning away from.
    // Usually this is empty; when transitioning between animations, there
    // is one entry. When another animation transition happens while one is
    // still ongoing, there can be more than one entry. Once a transition is
    // finished, it is automatically removed from the list.
    transitions: Vec<AnimationTransition>,
}

/// How one advance tick relates a player's state after to its state before:
/// pausing is untouched; the active cursor updates against its clip's
/// duration when the store holds the clip with a positive duration, and is
/// otherwise kept; the transitions fade, advance and expire in order.
pub open spec fn advances_to(
    pre: AnimationPlayer,
    post: AnimationPlayer,
    delta: int,
    clips: ClipAssets,
) -> bool {
    &&& post.spec_paused() == pre.spec_paused()
    &&& post.spec_animation() == (match clips.spec_get(pre.spec_animation().animation_clip.id) {
        Some(clip) => if clip.spec_duration() > 0 {
            pre.spec_animation().updated(delta, clip.spec_duration() as int)
        } else {
            pre.spec_animation()
        },
        None => pre.spec_animation(),
    })
    &&& post.spec_transitions() == advance_transitions(pre.spec_transitions(), delta, clips)
}

impl AnimationPlayer {
    /// A player whose cursor is well formed and whose transitions are those
    /// of a well-formed player is well formed.
    proof fn lemma_same_transitions_wf(pre: AnimationPlayer, post: AnimationPlayer)
        requires
            pre.wf(),
            post.spec_animation().wf(),
            post.spec_transitions() == pre.spec_transitions(),
        ensures
            post.wf(),
    {
        assert forall|i: int|
            0 <= i < post.spec_transitions().len() implies (
        #[trigger] post.spec_transitions()[i]).wf() by {
            assert(pre.spec_transitions()[i].wf());
        }
    }

    /// The active playback cursor.
    pub closed spec fn spec_animation(&self) -> PlayingAnimation {
        self.animation
    }

    /// The fading transitions, oldest first.
    pub closed spec fn spec_transitions(&self) -> Seq<AnimationTransition> {
        self.transitions@
    }

    /// Whether the player is paused.
    pub closed spec fn spec_paused(&self) -> bool {
        self.paused
    }

    /// A well-formed player: cursor and every transition well formed.
    pub open spec fn wf(&self) -> bool {
        &&& self.spec_animation().wf()
        &&& forall|i: int|
            0 <= i < self.spec_transitions().len() ==> (#[trigger] self.spec_transitions()[i]).wf()
    }

    /// A fresh player: unpaused, playing the default clip handle, with no
    /// transitions.
    pub fn new() -> (r: Self)
        ensures
            r.wf(),
            !r.spec_paused(),
            r.spec_animation() == PlayingAnimation::initial(ClipHandle { id: 0 }),
            r.spec_transitions() == Seq::<AnimationTransition>::empty(),
    {
        let r = AnimationPlayer {
            paused: false,
            animation: PlayingAnimation::new(ClipHandle { id: 0 }),
            transitions: Vec::new(),
        };
        proof {
            assert(r.spec_transitions() =~= Seq::<AnimationTransition>::empty());
        }
        r
    }

    /// The active playback cursor.
    pub fn playing_animation(&self) -> (r: &PlayingAnimation)
        ensures
            *r == self.spec_animation(),
    {
        &self.animation
    }

    /// The transitions currently fading out, oldest first.
    pub fn transitions(&self) -> (r: &Vec<AnimationTransition>)
        ensures
            r@ == self.spec_transitions(),
    {
        &self.transitions
    }

    /// Start playing an animation, resetting state of the player: the
    /// active cursor is replaced by a fresh one bound to `handle`. This is
    /// a hard cut: any transitions still playing are discarded.
    pub fn start(&mut self, handle: ClipHandle)
        ensures
            final(self).spec_animation() == PlayingAnimation::initial(handle),
            final(self).spec_transitions() == Seq::<AnimationTransition>::empty(),
            final(self).spec_paused() == old(self).spec_paused(),
            final(self).wf(),
    {
        self.animation = PlayingAnimation::new(handle);
        self.transitions = Vec::new();
        proof {
            assert(self.spec_transitions() =~= Seq::<AnimationTransition>::empty());
        }
    }

    /// Start playing an animation, resetting state of the player, fading
    /// the previous animation out over `transition_duration` ticks: the old
    /// active cursor is pushed as a new transition with weight 1.0 and a
    /// decline of 1.0 per `transition_duration`. Transitions already
    /// ongoing are kept running, stacking fades.
    pub fn start_with_transition(&mut self, handle: ClipHandle, transition_duration: i64)
        requires
            0 < transition_duration,
        ensures
            final(self).spec_animation() == PlayingAnimation::initial(handle),
            final(self).spec_transitions() == old(self).spec_transitions().push(
                AnimationTransition {
                    current_weight: WEIGHT_SCALE,
                    weight_decline_per_sec: ((WEIGHT_SCALE * TICKS_PER_SECOND) / (
                    transition_duration as int)) as i64,
                    animation: old(self).spec_animation(),
                },
            ),
            final(self).spec_paused() == old(self).spec_paused(),
            old(self).wf() ==> final(self).wf(),
    {
        proof {
            crate::playback::lemma_div_trunc_range(
                (WEIGHT_SCALE * TICKS_PER_SECOND) as int,
                transition_duration as int,
            );
        }
        let mut animation = PlayingAnimation::new(handle);
        core::mem::swap(&mut animation, &mut self.animation);
        // Keep any ongoing transitions running; they fade between the output
        // of the previous transition and the new animation.
        self.transitions.push(
            AnimationTransition {
                current_weight: WEIGHT_SCALE,
                weight_decline_per_sec: (WEIGHT_SCALE * TICKS_PER_SECOND) / transition_duration,
                animation,
            },
        );
        proof {
            if old(self).wf() {
                assert forall|k: int|
                    0 <= k < self.spec_transitions().len() implies (
                #[trigger] self.spec_transitions()[k]).wf() by {
                    if k < old(self).spec_transitions().len() {
                        assert(old(self).spec_transitions()[k].wf());
                    }
                }
            }
        }
    }

    /// Start playing an animation, resetting state of the player, unless
    /// the requested animation is already playing and the player is not
    /// paused.
    pub fn play(&mut self, handle: ClipHandle)
        ensures
            if old(self).spec_animation().animation_clip == handle && !old(self).spec_paused() {
                *final(self) == *old(self)
            } else {
                final(self).spec_animation() == PlayingAnimation::initial(handle)
                    && final(self).spec_transitions() == Seq::<AnimationTransition>::empty()
                    && final(self).spec_paused() == old(self).spec_paused()
            },
            old(self).wf() ==> final(self).wf(),
    {
        if !self.is_playing_clip(&handle) || self.is_paused() {
            self.start(handle);
        }
    }

    /// Start playing an animation with a cross-fade, unless the requested
    /// animation is already playing and the player is not paused.
    pub fn play_with_transition(&mut self, handle: ClipHandle, transition_duration: i64)
        requires
            0 < transition_duration,
        ensures
            if old(self).spec_animation().animation_clip == handle && !old(self).spec_paused() {
                *final(self) == *old(self)
            } else {
                &&& final(self).spec_animation() == PlayingAnimation::initial(handle)
                &&& final(self).spec_transitions() == old(self).spec_transitions().push(
                    AnimationTransition {
                        current_weight: WEIGHT_SCALE,
                        weight_decline_per_sec: ((WEIGHT_SCALE * TICKS_PER_SECOND) / (
                        transition_duration as int)) as i64,
                        animation: old(self).spec_animation(),
                    },
                )
                &&& final(self).spec_paused() == old(self).spec_paused()
            },
            old(self).wf() ==> final(self).wf(),
    {
        if !self.is_playing_clip(&handle) || self.is_paused() {
            self.start_with_transition(handle, transition_duration);
        }
    }

    /// Handle of the animation clip being played.
    pub fn animation_clip(&self) -> (r: ClipHandle)
        ensures
            r == self.spec_animation().animation_clip,
    {
        self.animation.animation_clip
    }

    /// Check if the given animation clip is being played.
    pub fn is_playing_clip(&self, handle: &ClipHandle) -> (r: bool)
        ensures
            r == (self.spec_animation().animation_clip == *handle),
    {
        self.animation.animation_clip.id == handle.id
    }

    /// Check if the playing animation has finished, according to the
    /// repetition behavior.
    pub fn is_finished(&self) -> (r: bool)
        ensures
            r == self.spec_animation().spec_is_finished(),
    {
        self.animation.is_finished()
    }

    /// Sets the repeat policy to [`RepeatAnimation::Forever`].
    ///
    /// See also [`AnimationPlayer::set_repeat`].
    pub fn repeat(&mut self)
        ensures
            final(self).spec_animation() == (PlayingAnimation {
                repeat: RepeatAnimation::Forever,
                ..old(self).spec_animation()
            }),
            final(self).spec_transitions() == old(self).spec_transitions(),
            final(self).spec_paused() == old(self).spec_paused(),
            old(self).wf() ==> final(self).wf(),
    {
        self.animation.repeat = RepeatAnimation::Forever;
        proof {
            if old(self).wf() {
                Self::lemma_same_transitions_wf(*old(self), *self);
            }
        }
    }

    /// Set the repetition behavior of the animation.
    pub fn set_repeat(&mut self, repeat: RepeatAnimation)
        ensures
            final(self).spec_animation() == (PlayingAnimation {
                repeat,
                ..old(self).spec_animation()
            }),
            final(self).spec_transitions() == old(self).spec_transitions(),
            final(self).spec_paused() == old(self).spec_paused(),
            old(self).wf() ==> final(self).wf(),
    {
        self.animation.repeat = repeat;
        proof {
            if old(self).wf() {
                Self::lemma_same_transitions_wf(*old(self), *self);
            }
        }
    }

    /// Repetition behavior of the animation.
    pub fn repeat_mode(&self) -> (r: RepeatAnimation)
        ensures
            r == self.spec_animation().repeat,
    {
        self.animation.repeat
    }

    /// Number of times the animation has completed.
    pub fn completions(&self) -> (r: u32)
        ensures
            r == self.spec_animation().completions,
    {
        self.animation.completions
    }

    /// Check if the animation is playing in reverse.
    pub fn is_playback_reversed(&self) -> (r: bool)
        ensures
            r == (self.spec_animation().speed < 0),
    {
        self.animation.speed < 0
    }

    /// Pause the animation.
    pub fn pause(&mut self)
        ensures
            final(self).spec_paused(),
            final(self).spec_animation() == old(self).spec_animation(),
            final(self).spec_transitions() == old(self).spec_transitions(),
            old(self).wf() ==> final(self).wf(),
    {
        self.paused = true;
        proof {
            if old(self).wf() {
                Self::lemma_same_transitions_wf(*old(self), *self);
            }
        }
    }

    /// Unpause the animation.
    pub fn resume(&mut self)
        ensures
            !final(self).spec_paused(),
            final(self).spec_animation() == old(self).spec_animation(),
            final(self).spec_transitions() == old(self).spec_transitions(),
            old(self).wf() ==> final(self).wf(),
    {
        self.paused = false;
        proof {
            if old(self).wf() {
                Self::lemma_same_transitions_wf(*old(self), *self);
            }
        }
    }

    /// Is the animation paused.
    pub fn is_paused(&self) -> (r: bool)
        ensures
            r == self.spec_paused(),
    {
        self.paused
    }

    /// Speed of the animation playback, in `SPEED_SCALE` fixed point.
    pub fn speed(&self) -> (r: i64)
        ensures
            r == self.spec_animation().speed,
    {
        self.animation.speed
    }

    /// Set the speed of the animation playback; negative speed reverses
    /// playback.
    pub fn set_speed(&mut self, speed: i64)
        requires
            -crate::MAX_SPEED <= speed <= crate::MAX_SPEED,
        ensures
            final(self).spec_animation() == (PlayingAnimation {
                speed,
                ..old(self).spec_animation()
            }),
            final(self).spec_transitions() == old(self).spec_transitions(),
            final(self).spec_paused() == old(self).spec_paused(),
            old(self).wf() ==> final(self).wf(),
    {
        self.animation.speed = speed;
        proof {
            if old(self).wf() {
                Self::lemma_same_transitions_wf(*old(self), *self);
            }
        }
    }

    /// Time elapsed playing the animation, in ticks.
    pub fn elapsed(&self) -> (r: i64)
        ensures
            r == self.spec_animation().elapsed,
    {
        self.animation.elapsed
    }

    /// Seek position inside the animation, in ticks.
    pub fn seek_time(&self) -> (r: i64)
        ensures
            r == self.spec_animation().seek_time,
    {
        self.animation.seek_time
    }

    /// Seek to a specific time in the animation, bypassing elapsed-time
    /// bookkeeping.
    pub fn seek_to(&mut self, seek_time: i64)
        requires
            -crate::SEEK_LIMIT <= seek_time <= crate::SEEK_LIMIT,
        ensures
            final(self).spec_animation() == (PlayingAnimation {
                seek_time,
                ..old(self).spec_animation()
            }),
            final(self).spec_transitions() == old(self).spec_transitions(),
            final(self).spec_paused() == old(self).spec_paused(),
            old(self).wf() ==> final(self).wf(),
    {
        self.animation.seek_time = seek_time;
        proof {
            if old(self).wf() {
                Self::lemma_same_transitions_wf(*old(self), *self);
            }
        }
    }

    /// Reset the animation to its initial state, as if no time has elapsed:
    /// clears completions, elapsed and seek time; speed, repeat policy and
    /// clip are kept.
    pub fn replay(&mut self)
        ensures
            final(self).spec_animation() == (PlayingAnimation {
                completions: 0,
                elapsed: 0,
                seek_time: 0,
                ..old(self).spec_animation()
            }),
            final(self).spec_transitions() == old(self).spec_transitions(),
            final(self).spec_paused() == old(self).spec_paused(),
            old(self).wf() ==> final(self).wf(),
    {
        self.animation.replay();
        proof {
            if old(self).wf() {
                Self::lemma_same_transitions_wf(*old(self), *self);
            }
        }
    }

    /// Advance this player's time cursors by `delta` ticks: a no-op when
    /// paused; otherwise the active animation updates against its clip's
    /// duration, and every transition fades, advances, and expires once its
    /// weight reaches zero or below.
    pub fn advance(&mut self, delta: i64, clips: &ClipAssets)
        requires
            old(self).wf(),
            clips.wf(),
            0 <= delta <= MAX_DELTA,
        ensures
            final(self).wf(),
            old(self).spec_paused() ==> *final(self) == *old(self),
            !old(self).spec_paused() ==> advances_to(*old(self), *final(self), delta as int, *clips),
    {
        if self.paused {
            return ;
        }
        // Advance the main animation.
        if let Some(clip) = clips.get(&self.animation.animation_clip) {
            let dur = clip.duration();
            if dur > 0 {
                proof {
                    clips.lemma_get_wf(self.animation.animation_clip.id);
                }
                self.animation.update(delta, dur);
            }
        }
        // Advance transition animations, dropping the expired ones.
        let ghost pre_ts = self.transitions@;
        proof {
            assert forall|k: int| 0 <= k < pre_ts.len() implies (#[trigger] pre_ts[k]).wf() by {
                assert(old(self).spec_transitions()[k].wf());
            }
        }
        let mut kept: Vec<AnimationTransition> = Vec::new();
        let mut i: usize = 0;
        proof {
            assert(kept@ =~= advance_transitions(pre_ts.take(0), delta as int, *clips));
        }
        while i < self.transitions.len()
            invariant
                i <= self.transitions.len(),
                self.transitions@ == pre_ts,
                clips.wf(),
                0 <= delta <= MAX_DELTA,
                forall|k: int| 0 <= k < pre_ts.len() ==> (#[trigger] pre_ts[k]).wf(),
                kept@ == advance_transitions(pre_ts.take(i as int), delta as int, *clips),
                forall|k: int| 0 <= k < kept@.len() ==> (#[trigger] kept@[k]).wf(),
            decreases self.transitions.len() - i,
        {
            let t = &self.transitions[i];
            proof {
                assert(pre_ts[i as int].wf());
                assert((t.weight_decline_per_sec as int) * (delta as int) <= (WEIGHT_SCALE
                    * TICKS_PER_SECOND) as int * MAX_DELTA as int && (t.weight_decline_per_sec as int)
                    * (delta as int) >= 0) by (nonlinear_arith)
                    requires
                        0 <= t.weight_decline_per_sec <= WEIGHT_SCALE * TICKS_PER_SECOND,
                        0 <= delta <= MAX_DELTA,
                ;
            }
            let decay: i64 = (t.weight_decline_per_sec * delta) / TICKS_PER_SECOND;
            let new_weight: i64 = t.current_weight - decay;
            if new_weight > 0 {
                let mut anim = t.animation;
                if let Some(clip) = clips.get(&anim.animation_clip) {
                    let dur = clip.duration();
                    if dur > 0 {
                        proof {
                            clips.lemma_get_wf(anim.animation_clip.id);
                        }
                        anim.update(delta, dur);
                    }
                }
                kept.push(
                    AnimationTransition {
                        current_weight: new_weight,
                        weight_decline_per_sec: t.weight_decline_per_sec,
                        animation: anim,
                    },
                );
            }
            proof {
                assert(pre_ts.take(i + 1).drop_last() =~= pre_ts.take(i as int));
                assert(pre_ts.take(i + 1).last() == pre_ts[i as int]);
            }
            i = i + 1;
        }
        proof {
            assert(pre_ts.take(pre_ts.len() as int) =~= pre_ts);
        }
        self.transitions = kept;
    }
}

impl Default for AnimationPlayer {
    /// A fresh player: unpaused, playing the default clip handle, with no
    /// transitions.
    fn default() -> (r: Self)
        ensures
            r.wf(),
            !r.spec_paused(),
            r.spec_animation() == PlayingAnimation::initial(ClipHandle { id: 0 }),
            r.spec_transitions() == Seq::<AnimationTransition>::empty(),
    {
        AnimationPlayer::new()
    }
}

/// A system step that advances the time for all playing animations:
/// [`AnimationPlayer::advance`], player by player. Paused players are left
/// alone.
pub fn advance_animations(players: &mut Vec<AnimationPlayer>, clips: &ClipAssets, delta: i64)
    requires
        clips.wf(),
        0 <= delta <= MAX_DELTA,
        forall|k: int| 0 <= k < old(players)@.len() ==> (#[trigger] old(players)@[k]).wf(),
    ensures
        final(players)@.len() == old(players)@.len(),
        forall|k: int| 0 <= k < final(players)@.len() ==> (#[trigger] final(players)@[k]).wf(),
        forall|k: int|
            0 <= k < final(players)@.len() ==> if old(players)@[k].spec_paused() {
                final(players)@[k] == old(players)@[k]
            } else {
                advances_to(old(players)@[k], #[trigger] final(players)@[k], delta as int, *clips)
            },
{
    let ghost pre = old(players)@;
    let n = players.len();
    let mut i: usize = 0;
    while i < n
        invariant
            i <= n,
            n == players@.len(),
            players@.len() == pre.len(),
            clips.wf(),
            0 <= delta <= MAX_DELTA,
            forall|k: int| 0 <= k < pre.len() ==> (#[trigger] pre[k]).wf(),
            forall|k: int| i <= k < pre.len() ==> players@[k] == pre[k],
            forall|k: int| 0 <= k < i ==> (#[trigger] players@[k]).wf(),
            forall|k: int|
                0 <= k < i ==> if pre[k].spec_paused() {
                    players@[k] == pre[k]
                } else {
                    advances_to(pre[k], #[trigger] players@[k], delta as int, *clips)
                },
        decreases n - i,
    {
        let mut p = players.remove(i);
        proof {
            assert(pre[i as int].wf());
        }
        p.advance(delta, clips);
        players.insert(i, p);
        i = i + 1;
    }
}

} // verus!
