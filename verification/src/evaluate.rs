//! The evaluator: for one target and one tick, samples every curve relevant
//! to that target across the active animation and all transitions, in
//! order, accumulating weighted results into the target's output fields.
//!
//! Rotations are handled on the quaternion cover with the shortest-path
//! sign choice and interpolated componentwise; hosts renormalize the
//! quaternion when converting the fixed-point pose to their float types.

use vstd::prelude::*;

use crate::MAX_POSE;
use crate::MAX_TIME;
use crate::MAX_VALUE;
use crate::WEIGHT_SCALE;
use crate::clip::ClipAssets;
use crate::clip::has_key;
use crate::clip::key_index;
use crate::curve::Interpolation;
use crate::curve::Keyframes;
use crate::curve::Quat;
use crate::curve::VariableCurve;
use crate::curve::Vec3;
use crate::curve::is_current_keyframe;
use crate::ids::AnimationTargetId;
use crate::math::cubic_spline_spec;
use crate::math::cubic_spline_interpolation;
use crate::math::lerp_spec;
use crate::math::lerp_value;
use crate::playback::PlayingAnimation;
use crate::player::AnimationPlayer;
use crate::player::AnimationTransition;

verus! {

/// A target's transform output fields.
#[derive(Clone, Copy, Debug, PartialEq, Eq, Structural)]
pub struct Transform {
    /// Position.
    pub translation: Vec3,
    /// Orientation.
    pub rotation: Quat,
    /// Size along each axis.
    pub scale: Vec3,
}

/// A target's morph-weight output channels.
#[derive(Clone, Debug)]
pub struct MorphWeights {
    /// One weight per morph channel.
    pub weights: Vec<i64>,
}

/// The output fields we might need to read or write during animation of one
/// animation target. A target may lack either field; a curve that drives a
/// missing field contributes nothing.
#[derive(Clone, Debug)]
pub struct AnimationTargetContext {
    /// The transform, if the target has one.
    pub transform: Option<Transform>,
    /// The morph weights, if the target has them.
    pub morph_weights: Option<MorphWeights>,
}

/// The mathematical shadow of an [`AnimationTargetContext`]: its transform
/// and the sequence of its morph weights.
pub struct TargetView {
    /// The transform, if present.
    pub transform: Option<Transform>,
    /// The morph weights, if present.
    pub weights: Option<Seq<i64>>,
}

impl Transform {
    /// Every component of every field is at most `bound` in magnitude.
    pub open spec fn bounded(self, bound: int) -> bool {
        &&& self.translation.bounded(bound)
        &&& self.rotation.bounded(bound)
        &&& self.scale.bounded(bound)
    }

    /// The identity transform: zero translation, unit rotation (in
    /// `WEIGHT_SCALE` fixed point), unit scale.
    pub fn identity() -> (r: Transform)
        ensures
            r == (Transform {
                translation: Vec3 { x: 0, y: 0, z: 0 },
                rotation: Quat { x: 0, y: 0, z: 0, w: WEIGHT_SCALE },
                scale: Vec3 { x: WEIGHT_SCALE, y: WEIGHT_SCALE, z: WEIGHT_SCALE },
            }),
            r.bounded(MAX_POSE as int),
    {
        Transform {
            translation: Vec3 { x: 0, y: 0, z: 0 },
            rotation: Quat { x: 0, y: 0, z: 0, w: WEIGHT_SCALE },
            scale: Vec3 { x: WEIGHT_SCALE, y: WEIGHT_SCALE, z: WEIGHT_SCALE },
        }
    }
}

impl AnimationTargetContext {
    /// The context as a [`TargetView`].
    pub open spec fn view(&self) -> TargetView {
        TargetView {
            transform: self.transform,
            weights: match self.morph_weights {
                Some(m) => Some(m.weights@),
                None => None,
            },
        }
    }

    /// Output fields within pose range.
    pub open spec fn wf(&self) -> bool {
        &&& match self.transform {
            Some(t) => t.bounded(MAX_POSE as int),
            None => true,
        }
        &&& match self.morph_weights {
            Some(m) => forall|j: int|
                0 <= j < m.weights@.len() ==> -MAX_POSE <= #[trigger] m.weights@[j] <= MAX_POSE,
            None => true,
        }
    }
}

/// Componentwise linear interpolation of two vectors by `num / den`.
pub open spec fn vec3_lerp_spec(a: Vec3, b: Vec3, num: int, den: int) -> Vec3 {
    Vec3 {
        x: lerp_spec(a.x as int, b.x as int, num, den) as i64,
        y: lerp_spec(a.y as int, b.y as int, num, den) as i64,
        z: lerp_spec(a.z as int, b.z as int, num, den) as i64,
    }
}

/// Componentwise linear interpolation of two quaternions by `num / den`.
pub open spec fn quat_lerp_spec(a: Quat, b: Quat, num: int, den: int) -> Quat {
    Quat {
        x: lerp_spec(a.x as int, b.x as int, num, den) as i64,
        y: lerp_spec(a.y as int, b.y as int, num, den) as i64,
        z: lerp_spec(a.z as int, b.z as int, num, den) as i64,
        w: lerp_spec(a.w as int, b.w as int, num, den) as i64,
    }
}

/// The dot product of two quaternions.
pub open spec fn quat_dot_spec(a: Quat, b: Quat) -> int {
    a.x * b.x + a.y * b.y + a.z * b.z + a.w * b.w
}

/// A quaternion negated componentwise (the same rotation, opposite cover).
pub open spec fn quat_neg_spec(q: Quat) -> Quat {
    Quat {
        x: (-(q.x as int)) as i64,
        y: (-(q.y as int)) as i64,
        z: (-(q.z as int)) as i64,
        w: (-(q.w as int)) as i64,
    }
}

/// Componentwise Hermite cubic-spline interpolation of two vectors.
pub open spec fn vec3_cubic_spec(
    v0: Vec3,
    m0: Vec3,
    m1: Vec3,
    v1: Vec3,
    num: int,
    den: int,
    dur: int,
) -> Vec3 {
    Vec3 {
        x: cubic_spline_spec(v0.x as int, m0.x as int, m1.x as int, v1.x as int, num, den, dur) as i64,
        y: cubic_spline_spec(v0.y as int, m0.y as int, m1.y as int, v1.y as int, num, den, dur) as i64,
        z: cubic_spline_spec(v0.z as int, m0.z as int, m1.z as int, v1.z as int, num, den, dur) as i64,
    }
}

/// Componentwise Hermite cubic-spline interpolation of two quaternions.
pub open spec fn quat_cubic_spec(
    v0: Quat,
    m0: Quat,
    m1: Quat,
    v1: Quat,
    num: int,
    den: int,
    dur: int,
) -> Quat {
    Quat {
        x: cubic_spline_spec(v0.x as int, m0.x as int, m1.x as int, v1.x as int, num, den, dur) as i64,
        y: cubic_spline_spec(v0.y as int, m0.y as int, m1.y as int, v1.y as int, num, den, dur) as i64,
        z: cubic_spline_spec(v0.z as int, m0.z as int, m1.z as int, v1.z as int, num, den, dur) as i64,
        w: cubic_spline_spec(v0.w as int, m0.w as int, m1.w as int, v1.w as int, num, den, dur) as i64,
    }
}

/// A vector blended toward a sample by `weight / WEIGHT_SCALE`, against the
/// value already present.
pub open spec fn vec3_blend_spec(current: Vec3, sample: Vec3, weight: int) -> Vec3 {
    vec3_lerp_spec(current, sample, weight, WEIGHT_SCALE as int)
}

/// A rotation blended toward a sample by `weight / WEIGHT_SCALE`: the
/// sample is first negated if its dot product with the current rotation is
/// negative (the shortest-path choice), then interpolated componentwise
/// against the value already present.
pub open spec fn quat_blend_spec(current: Quat, sample: Quat, weight: int) -> Quat {
    let s = if quat_dot_spec(current, sample) < 0 {
        quat_neg_spec(sample)
    } else {
        sample
    };
    quat_lerp_spec(current, s, weight, WEIGHT_SCALE as int)
}

/// Componentwise linear interpolation of two vectors by `num / den`.
pub fn vec3_lerp(a: Vec3, b: Vec3, num: i64, den: i64) -> (r: Vec3)
    requires
        a.bounded(MAX_POSE as int),
        b.bounded(MAX_POSE as int),
        0 <= num <= den,
        0 < den <= MAX_TIME,
    ensures
        r == vec3_lerp_spec(a, b, num as int, den as int),
        r.bounded(MAX_POSE as int),
{
    Vec3 {
        x: lerp_value(a.x, b.x, num, den),
        y: lerp_value(a.y, b.y, num, den),
        z: lerp_value(a.z, b.z, num, den),
    }
}

/// Componentwise linear interpolation of two quaternions by `num / den`.
pub fn quat_lerp(a: Quat, b: Quat, num: i64, den: i64) -> (r: Quat)
    requires
        a.bounded(MAX_POSE as int),
        b.bounded(MAX_POSE as int),
        0 <= num <= den,
        0 < den <= MAX_TIME,
    ensures
        r == quat_lerp_spec(a, b, num as int, den as int),
        r.bounded(MAX_POSE as int),
{
    Quat {
        x: lerp_value(a.x, b.x, num, den),
        y: lerp_value(a.y, b.y, num, den),
        z: lerp_value(a.z, b.z, num, den),
        w: lerp_value(a.w, b.w, num, den),
    }
}

/// A rotation blended toward a sample by `weight / WEIGHT_SCALE`, with the
/// shortest-path sign choice.
pub fn quat_blend(current: Quat, sample: Quat, weight: i64) -> (r: Quat)
    requires
        current.bounded(MAX_POSE as int),
        sample.bounded(MAX_POSE as int),
        0 <= weight <= WEIGHT_SCALE,
    ensures
        r == quat_blend_spec(current, sample, weight as int),
        r.bounded(MAX_POSE as int),
{
    proof {
        assert((current.x as int) * (sample.x as int) <= (MAX_POSE as int) * (MAX_POSE as int) && (
        current.x as int) * (sample.x as int) >= -((MAX_POSE as int) * (MAX_POSE as int)) && (
        current.y as int) * (sample.y as int) <= (MAX_POSE as int) * (MAX_POSE as int) && (
        current.y as int) * (sample.y as int) >= -((MAX_POSE as int) * (MAX_POSE as int)) && (
        current.z as int) * (sample.z as int) <= (MAX_POSE as int) * (MAX_POSE as int) && (
        current.z as int) * (sample.z as int) >= -((MAX_POSE as int) * (MAX_POSE as int)) && (
        current.w as int) * (sample.w as int) <= (MAX_POSE as int) * (MAX_POSE as int) && (
        current.w as int) * (sample.w as int) >= -((MAX_POSE as int) * (MAX_POSE as int)))
            by (nonlinear_arith)
            requires
                current.bounded(MAX_POSE as int),
                sample.bounded(MAX_POSE as int),
        ;
    }
    let dot: i128 = (current.x as i128) * (sample.x as i128) + (current.y as i128) * (
    sample.y as i128) + (current.z as i128) * (sample.z as i128) + (current.w as i128) * (
    sample.w as i128);
    let s = if dot < 0 {
        Quat { x: -sample.x, y: -sample.y, z: -sample.z, w: -sample.w }
    } else {
        sample
    };
    quat_lerp(current, s, weight, WEIGHT_SCALE)
}

/// A vector blended toward a sample by `weight / WEIGHT_SCALE`.
pub fn vec3_blend(current: Vec3, sample: Vec3, weight: i64) -> (r: Vec3)
    requires
        current.bounded(MAX_POSE as int),
        sample.bounded(MAX_POSE as int),
        0 <= weight <= WEIGHT_SCALE,
    ensures
        r == vec3_blend_spec(current, sample, weight as int),
        r.bounded(MAX_POSE as int),
{
    vec3_lerp(current, sample, weight, WEIGHT_SCALE)
}

/// Componentwise Hermite cubic-spline interpolation of two vectors.
pub fn vec3_cubic(v0: Vec3, m0: Vec3, m1: Vec3, v1: Vec3, num: i64, den: i64, dur: i64) -> (r:
    Vec3)
    requires
        v0.bounded(MAX_VALUE as int),
        m0.bounded(MAX_VALUE as int),
        m1.bounded(MAX_VALUE as int),
        v1.bounded(MAX_VALUE as int),
        0 <= num <= den,
        0 < den <= MAX_TIME,
        0 < dur <= MAX_TIME,
    ensures
        r == vec3_cubic_spec(v0, m0, m1, v1, num as int, den as int, dur as int),
        r.bounded(MAX_POSE as int),
{
    Vec3 {
        x: cubic_spline_interpolation(v0.x, m0.x, m1.x, v1.x, num, den, dur),
        y: cubic_spline_interpolation(v0.y, m0.y, m1.y, v1.y, num, den, dur),
        z: cubic_spline_interpolation(v0.z, m0.z, m1.z, v1.z, num, den, dur),
    }
}

/// Componentwise Hermite cubic-spline interpolation of two quaternions.
pub fn quat_cubic(v0: Quat, m0: Quat, m1: Quat, v1: Quat, num: i64, den: i64, dur: i64) -> (r:
    Quat)
    requires
        v0.bounded(MAX_VALUE as int),
        m0.bounded(MAX_VALUE as int),
        m1.bounded(MAX_VALUE as int),
        v1.bounded(MAX_VALUE as int),
        0 <= num <= den,
        0 < den <= MAX_TIME,
        0 < dur <= MAX_TIME,
    ensures
        r == quat_cubic_spec(v0, m0, m1, v1, num as int, den as int, dur as int),
        r.bounded(MAX_POSE as int),
{
    Quat {
        x: cubic_spline_interpolation(v0.x, m0.x, m1.x, v1.x, num, den, dur),
        y: cubic_spline_interpolation(v0.y, m0.y, m1.y, v1.y, num, den, dur),
        z: cubic_spline_interpolation(v0.z, m0.z, m1.z, v1.z, num, den, dur),
        w: cubic_spline_interpolation(v0.w, m0.w, m1.w, v1.w, num, den, dur),
    }
}


/// One `target_count`-sized block of a flat morph-weight payload: the
/// keyframe at `idx`.
pub open spec fn morph_sample_step(ks: Seq<i64>, tc: int, idx: int) -> Seq<i64> {
    ks.subrange(tc * idx, tc * (idx + 1))
}

/// Per-channel linear interpolation between the morph-weight blocks at
/// `s` and `s + 1`.
pub open spec fn morph_sample_linear(ks: Seq<i64>, tc: int, s: int, num: int, den: int) -> Seq<
    i64,
> {
    Seq::new(tc as nat, |j: int| lerp_spec(ks[tc * s + j] as int, ks[tc * (s + 1) + j] as int, num, den) as i64)
}

/// Per-channel Hermite cubic-spline interpolation between the morph-weight
/// value blocks of keyframes `s` and `s + 1`, with their tangent blocks.
pub open spec fn morph_sample_cubic(
    ks: Seq<i64>,
    tc: int,
    s: int,
    num: int,
    den: int,
    dur: int,
) -> Seq<i64> {
    Seq::new(
        tc as nat,
        |j: int|
            cubic_spline_spec(
                ks[tc * (3 * s + 1) + j] as int,
                ks[tc * (3 * s + 2) + j] as int,
                ks[tc * (3 * s + 3) + j] as int,
                ks[tc * (3 * s + 4) + j] as int,
                num,
                den,
                dur,
            ) as i64,
    )
}

/// Morph weights blended per channel toward a sample by
/// `weight / WEIGHT_SCALE`, against the values already present.
pub open spec fn morph_blend_spec(w: Seq<i64>, sample: Seq<i64>, weight: int) -> Seq<i64> {
    Seq::new(w.len(), |j: int| lerp_spec(w[j] as int, sample[j] as int, weight, WEIGHT_SCALE as int) as i64)
}

/// Extract a keyframe from a flat list of morph-weight keyframes by index:
/// the `key_index`-th contiguous block of `target_count` values.
fn get_keyframe(target_count: usize, keyframes: &Vec<i64>, key_index: usize) -> (r: Vec<i64>)
    requires
        (target_count as int) * (key_index as int + 1) <= keyframes@.len(),
    ensures
        r@ == morph_sample_step(keyframes@, target_count as int, key_index as int),
        r@.len() == target_count,
        forall|j: int|
            0 <= j < target_count ==> r@[j] == keyframes@[(target_count as int) * (
            key_index as int) + j],
{
    proof {
        assert((target_count as int) * (key_index as int) + target_count == (target_count as int)
            * (key_index as int + 1) && 0 <= (target_count as int) * (key_index as int))
            by (nonlinear_arith)
            requires
                target_count >= 0,
                key_index >= 0,
        ;
    }
    let klen: usize = keyframes.len();
    let start: usize = target_count * key_index;
    let mut r: Vec<i64> = Vec::new();
    let mut j: usize = 0;
    while j < target_count
        invariant
            j <= target_count,
            start == (target_count as int) * (key_index as int),
            klen == keyframes@.len(),
            start + target_count <= keyframes@.len(),
            r@.len() == j,
            forall|k: int| 0 <= k < j ==> r@[k] == keyframes@[start + k],
        decreases target_count - j,
    {
        r.push(keyframes[start + j]);
        j = j + 1;
    }
    proof {
        assert(r@ =~= morph_sample_step(keyframes@, target_count as int, key_index as int));
    }
    r
}

/// Per-channel linear interpolation between two morph-weight keyframes.
fn sample_morph_linear(
    keyframes: &Vec<i64>,
    target_count: usize,
    step_start: usize,
    num: i64,
    den: i64,
) -> (r: Vec<i64>)
    requires
        (target_count as int) * (step_start as int + 2) <= keyframes@.len(),
        forall|k: int| 0 <= k < keyframes@.len() ==> -MAX_VALUE <= #[trigger] keyframes@[k] <= MAX_VALUE,
        0 <= num <= den,
        0 < den <= MAX_TIME,
    ensures
        r@ == morph_sample_linear(keyframes@, target_count as int, step_start as int, num as int, den as int),
        forall|j: int| 0 <= j < r@.len() ==> -MAX_POSE <= #[trigger] r@[j] <= MAX_POSE,
{
    proof {
        assert((target_count as int) * (step_start as int) + target_count == (target_count as int)
            * (step_start as int + 1) && (target_count as int) * (step_start as int + 1)
            + target_count == (target_count as int) * (step_start as int + 2) && 0 <= (
        target_count as int) * (step_start as int)) by (nonlinear_arith)
            requires
                target_count >= 0,
                step_start >= 0,
        ;
    }
    let klen: usize = keyframes.len();
    let s0: usize = target_count * step_start;
    let s1: usize = s0 + target_count;
    let mut r: Vec<i64> = Vec::new();
    let mut j: usize = 0;
    while j < target_count
        invariant
            j <= target_count,
            s0 == (target_count as int) * (step_start as int),
            s1 == s0 + target_count,
            klen == keyframes@.len(),
            s1 + target_count <= keyframes@.len(),
            forall|k: int|
                0 <= k < keyframes@.len() ==> -MAX_VALUE <= #[trigger] keyframes@[k] <= MAX_VALUE,
            0 <= num <= den,
            0 < den <= MAX_TIME,
            r@.len() == j,
            forall|k: int|
                0 <= k < j ==> r@[k] == lerp_spec(
                    keyframes@[s0 + k] as int,
                    keyframes@[s1 + k] as int,
                    num as int,
                    den as int,
                ) as i64,
            forall|k: int| 0 <= k < j ==> -MAX_POSE <= #[trigger] r@[k] <= MAX_POSE,
        decreases target_count - j,
    {
        let v = lerp_value(keyframes[s0 + j], keyframes[s1 + j], num, den);
        r.push(v);
        j = j + 1;
    }
    proof {
        assert(r@ =~= morph_sample_linear(
            keyframes@,
            target_count as int,
            step_start as int,
            num as int,
            den as int,
        ));
    }
    r
}

/// Per-channel Hermite cubic-spline interpolation between two morph-weight
/// keyframes.
fn sample_morph_cubic(
    keyframes: &Vec<i64>,
    target_count: usize,
    step_start: usize,
    num: i64,
    den: i64,
    duration: i64,
) -> (r: Vec<i64>)
    requires
        step_start as int * 3 + 5 <= usize::MAX,
        (target_count as int) * (3 * (step_start as int) + 5) <= keyframes@.len(),
        forall|k: int| 0 <= k < keyframes@.len() ==> -MAX_VALUE <= #[trigger] keyframes@[k] <= MAX_VALUE,
        0 <= num <= den,
        0 < den <= MAX_TIME,
        0 < duration <= MAX_TIME,
    ensures
        r@ == morph_sample_cubic(
            keyframes@,
            target_count as int,
            step_start as int,
            num as int,
            den as int,
            duration as int,
        ),
        forall|j: int| 0 <= j < r@.len() ==> -MAX_POSE <= #[trigger] r@[j] <= MAX_POSE,
{
    let ghost tc = target_count as int;
    let ghost ss = step_start as int;
    proof {
        assert(tc * (3 * ss + 1) + target_count == tc * (3 * ss + 2) && tc * (3 * ss + 2)
            + target_count == tc * (3 * ss + 3) && tc * (3 * ss + 3) + target_count == tc * (3 * ss
            + 4) && tc * (3 * ss + 4) + target_count == tc * (3 * ss + 5) && 0 <= tc * (3 * ss + 1)
            && tc * (3 * ss + 1) == tc * 3 * ss + tc) by (nonlinear_arith)
            requires
                tc == target_count as int,
                ss == step_start as int,
                target_count >= 0,
                step_start >= 0,
        ;
        assert(tc * 3 * ss == (target_count * 3) as int * ss) by (nonlinear_arith)
            requires
                tc == target_count as int,
                ss == step_start as int,
                target_count * 3 == tc * 3,
        ;
    }
    let klen: usize = keyframes.len();
    let b0: usize = target_count * (3 * step_start + 1);
    let b1: usize = b0 + target_count;
    let b2: usize = b1 + target_count;
    let b3: usize = b2 + target_count;
    let mut r: Vec<i64> = Vec::new();
    let mut j: usize = 0;
    while j < target_count
        invariant
            j <= target_count,
            b0 == tc * (3 * ss + 1),
            b1 == tc * (3 * ss + 2),
            b2 == tc * (3 * ss + 3),
            b3 == tc * (3 * ss + 4),
            b1 == b0 + target_count,
            b2 == b1 + target_count,
            b3 == b2 + target_count,
            klen == keyframes@.len(),
            b3 + target_count <= keyframes@.len(),
            tc == target_count as int,
            ss == step_start as int,
            forall|k: int|
                0 <= k < keyframes@.len() ==> -MAX_VALUE <= #[trigger] keyframes@[k] <= MAX_VALUE,
            0 <= num <= den,
            0 < den <= MAX_TIME,
            0 < duration <= MAX_TIME,
            r@.len() == j,
            forall|k: int|
                0 <= k < j ==> r@[k] == cubic_spline_spec(
                    keyframes@[b0 + k] as int,
                    keyframes@[b1 + k] as int,
                    keyframes@[b2 + k] as int,
                    keyframes@[b3 + k] as int,
                    num as int,
                    den as int,
                    duration as int,
                ) as i64,
            forall|k: int| 0 <= k < j ==> -MAX_POSE <= #[trigger] r@[k] <= MAX_POSE,
        decreases target_count - j,
    {
        let v = cubic_spline_interpolation(
            keyframes[b0 + j],
            keyframes[b1 + j],
            keyframes[b2 + j],
            keyframes[b3 + j],
            num,
            den,
            duration,
        );
        r.push(v);
        j = j + 1;
    }
    proof {
        assert(r@ =~= morph_sample_cubic(
            keyframes@,
            target_count as int,
            step_start as int,
            num as int,
            den as int,
            duration as int,
        ));
    }
    r
}

/// Update `weights` based on the sampled keyframe values with a linear
/// interpolation by `weight / WEIGHT_SCALE`.
fn lerp_morph_weights(weights: &mut Vec<i64>, sampled: &Vec<i64>, weight: i64)
    requires
        sampled@.len() == old(weights)@.len(),
        forall|j: int|
            0 <= j < old(weights)@.len() ==> -MAX_POSE <= #[trigger] old(weights)@[j] <= MAX_POSE,
        forall|j: int| 0 <= j < sampled@.len() ==> -MAX_POSE <= #[trigger] sampled@[j] <= MAX_POSE,
        0 <= weight <= WEIGHT_SCALE,
    ensures
        final(weights)@ == morph_blend_spec(old(weights)@, sampled@, weight as int),
        forall|j: int|
            0 <= j < final(weights)@.len() ==> -MAX_POSE <= #[trigger] final(weights)@[j]
                <= MAX_POSE,
{
    let n = weights.len();
    let mut r: Vec<i64> = Vec::new();
    let mut j: usize = 0;
    while j < n
        invariant
            j <= n,
            n == weights@.len(),
            *weights == *old(weights),
            sampled@.len() == n,
            forall|k: int| 0 <= k < n ==> -MAX_POSE <= #[trigger] weights@[k] <= MAX_POSE,
            forall|k: int| 0 <= k < n ==> -MAX_POSE <= #[trigger] sampled@[k] <= MAX_POSE,
            0 <= weight <= WEIGHT_SCALE,
            r@.len() == j,
            forall|k: int|
                0 <= k < j ==> r@[k] == lerp_spec(
                    weights@[k] as int,
                    sampled@[k] as int,
                    weight as int,
                    WEIGHT_SCALE as int,
                ) as i64,
            forall|k: int| 0 <= k < j ==> -MAX_POSE <= #[trigger] r@[k] <= MAX_POSE,
        decreases n - j,
    {
        let v = lerp_value(weights[j], sampled[j], weight, WEIGHT_SCALE);
        r.push(v);
        j = j + 1;
    }
    proof {
        assert(r@ =~= morph_blend_spec(old(weights)@, sampled@, weight as int));
    }
    *weights = r;
}


/// Whether `tc * blocks <= len`, decided without overflow.
fn block_bound_ok(tc: usize, blocks: u128, len: usize) -> (r: bool)
    ensures
        r == ((tc as int) * (blocks as int) <= len as int),
{
    if tc == 0 {
        proof {
            assert((tc as int) * (blocks as int) == 0) by (nonlinear_arith)
                requires
                    tc == 0,
            ;
        }
        true
    } else {
        let q: usize = len / tc;
        let r = blocks <= q as u128;
        proof {
            vstd::arithmetic::div_mod::lemma_fundamental_div_mod(len as int, tc as int);
            vstd::arithmetic::div_mod::lemma_mod_bound(len as int, tc as int);
            assert((tc as int) * (q as int) == (len as int / tc as int) * (tc as int))
                by (nonlinear_arith)
                requires
                    tc >= 1,
                    q == len as int / tc as int,
            ;
            if blocks <= q {
                assert((tc as int) * (blocks as int) <= (tc as int) * (q as int))
                    by (nonlinear_arith)
                    requires
                        tc >= 1,
                        blocks <= q,
                ;
            } else {
                assert((tc as int) * (blocks as int) >= (tc as int) * (q as int + 1) && (
                tc as int) * (q as int + 1) == (tc as int) * (q as int) + tc) by (nonlinear_arith)
                    requires
                        tc >= 1,
                        blocks >= q + 1,
                ;
            }
        }
        r
    }
}

/// A target view after one single-keyframe curve is applied: the first
/// keyframe's value, blended into the matching output field by the outer
/// weight. A curve that drives a field the target lacks, or whose
/// morph-weight payload is shorter than the target's channel count,
/// contributes nothing.
pub open spec fn single_keyframe_view(curve: VariableCurve, weight: int, v: TargetView) -> TargetView {
    match curve.keyframes {
        Keyframes::Rotation(ks) => match v.transform {
            Some(t) => TargetView {
                transform: Some(
                    Transform { rotation: quat_blend_spec(t.rotation, ks@[0], weight), ..t },
                ),
                ..v
            },
            None => v,
        },
        Keyframes::Translation(ks) => match v.transform {
            Some(t) => TargetView {
                transform: Some(
                    Transform { translation: vec3_blend_spec(t.translation, ks@[0], weight), ..t },
                ),
                ..v
            },
            None => v,
        },
        Keyframes::Scale(ks) => match v.transform {
            Some(t) => TargetView {
                transform: Some(
                    Transform { scale: vec3_blend_spec(t.scale, ks@[0], weight), ..t },
                ),
                ..v
            },
            None => v,
        },
        Keyframes::Weights(ks) => match v.weights {
            Some(w) => if w.len() <= ks@.len() {
                TargetView {
                    weights: Some(
                        morph_blend_spec(w, morph_sample_step(ks@, w.len() as int, 0), weight),
                    ),
                    ..v
                }
            } else {
                v
            },
            None => v,
        },
    }
}

/// A target view after one keyframe step of a multi-keyframe curve is
/// applied: dispatching on interpolation mode and payload kind, the value
/// sampled between keyframes `step_start` and `step_start + 1` at the
/// interpolation factor `num / den` is blended into the matching output
/// field by the outer weight. A curve that drives a field the target
/// lacks, or whose morph-weight payload is too short for the target's
/// channel count, contributes nothing.
pub open spec fn tweened_view(
    curve: VariableCurve,
    step_start: int,
    weight: int,
    num: int,
    den: int,
    duration: int,
    v: TargetView,
) -> TargetView {
    let s = step_start;
    match (curve.interpolation, curve.keyframes) {
        (Interpolation::Step, Keyframes::Rotation(ks)) => match v.transform {
            Some(t) => TargetView {
                transform: Some(
                    Transform { rotation: quat_blend_spec(t.rotation, ks@[s], weight), ..t },
                ),
                ..v
            },
            None => v,
        },
        (Interpolation::Linear, Keyframes::Rotation(ks)) => match v.transform {
            Some(t) => {
                let rot_start = ks@[s];
                let rot_end = if quat_dot_spec(ks@[s + 1], rot_start) < 0 {
                    quat_neg_spec(ks@[s + 1])
                } else {
                    ks@[s + 1]
                };
                let rot = quat_lerp_spec(rot_start, rot_end, num, den);
                TargetView {
                    transform: Some(
                        Transform { rotation: quat_blend_spec(t.rotation, rot, weight), ..t },
                    ),
                    ..v
                }
            },
            None => v,
        },
        (Interpolation::CubicSpline, Keyframes::Rotation(ks)) => match v.transform {
            Some(t) => {
                let result = quat_cubic_spec(
                    ks@[s * 3 + 1],
                    ks@[s * 3 + 2],
                    ks@[(s + 1) * 3],
                    ks@[(s + 1) * 3 + 1],
                    num,
                    den,
                    duration,
                );
                TargetView {
                    transform: Some(
                        Transform { rotation: quat_blend_spec(t.rotation, result, weight), ..t },
                    ),
                    ..v
                }
            },
            None => v,
        },
        (Interpolation::Step, Keyframes::Translation(ks)) => match v.transform {
            Some(t) => TargetView {
                transform: Some(
                    Transform { translation: vec3_blend_spec(t.translation, ks@[s], weight), ..t },
                ),
                ..v
            },
            None => v,
        },
        (Interpolation::Linear, Keyframes::Translation(ks)) => match v.transform {
            Some(t) => {
                let result = vec3_lerp_spec(ks@[s], ks@[s + 1], num, den);
                TargetView {
                    transform: Some(
                        Transform {
                            translation: vec3_blend_spec(t.translation, result, weight),
                            ..t
                        },
                    ),
                    ..v
                }
            },
            None => v,
        },
        (Interpolation::CubicSpline, Keyframes::Translation(ks)) => match v.transform {
            Some(t) => {
                let result = vec3_cubic_spec(
                    ks@[s * 3 + 1],
                    ks@[s * 3 + 2],
                    ks@[(s + 1) * 3],
                    ks@[(s + 1) * 3 + 1],
                    num,
                    den,
                    duration,
                );
                TargetView {
                    transform: Some(
                        Transform {
                            translation: vec3_blend_spec(t.translation, result, weight),
                            ..t
                        },
                    ),
                    ..v
                }
            },
            None => v,
        },
        (Interpolation::Step, Keyframes::Scale(ks)) => match v.transform {
            Some(t) => TargetView {
                transform: Some(
                    Transform { scale: vec3_blend_spec(t.scale, ks@[s], weight), ..t },
                ),
                ..v
            },
            None => v,
        },
        (Interpolation::Linear, Keyframes::Scale(ks)) => match v.transform {
            Some(t) => {
                let result = vec3_lerp_spec(ks@[s], ks@[s + 1], num, den);
                TargetView {
                    transform: Some(
                        Transform { scale: vec3_blend_spec(t.scale, result, weight), ..t },
                    ),
                    ..v
                }
            },
            None => v,
        },
        (Interpolation::CubicSpline, Keyframes::Scale(ks)) => match v.transform {
            Some(t) => {
                let result = vec3_cubic_spec(
                    ks@[s * 3 + 1],
                    ks@[s * 3 + 2],
                    ks@[(s + 1) * 3],
                    ks@[(s + 1) * 3 + 1],
                    num,
                    den,
                    duration,
                );
                TargetView {
                    transform: Some(
                        Transform { scale: vec3_blend_spec(t.scale, result, weight), ..t },
                    ),
                    ..v
                }
            },
            None => v,
        },
        (Interpolation::Step, Keyframes::Weights(ks)) => match v.weights {
            Some(w) => if (w.len() as int) * (s + 1) <= ks@.len() {
                TargetView {
                    weights: Some(
                        morph_blend_spec(w, morph_sample_step(ks@, w.len() as int, s), weight),
                    ),
                    ..v
                }
            } else {
                v
            },
            None => v,
        },
        (Interpolation::Linear, Keyframes::Weights(ks)) => match v.weights {
            Some(w) => if (w.len() as int) * (s + 2) <= ks@.len() {
                TargetView {
                    weights: Some(
                        morph_blend_spec(
                            w,
                            morph_sample_linear(ks@, w.len() as int, s, num, den),
                            weight,
                        ),
                    ),
                    ..v
                }
            } else {
                v
            },
            None => v,
        },
        (Interpolation::CubicSpline, Keyframes::Weights(ks)) => match v.weights {
            Some(w) => if (w.len() as int) * (3 * s + 5) <= ks@.len() {
                TargetView {
                    weights: Some(
                        morph_blend_spec(
                            w,
                            morph_sample_cubic(ks@, w.len() as int, s, num, den, duration),
                            weight,
                        ),
                    ),
                    ..v
                }
            } else {
                v
            },
            None => v,
        },
    }
}


impl PlayingAnimation {
    /// Apply a single-keyframe curve: write the first keyframe's value into
    /// the matching output field, blended by `weight` against the value
    /// already present (no time interpolation).
    pub fn apply_single_keyframe(
        &self,
        curve: &VariableCurve,
        weight: i64,
        target_context: &mut AnimationTargetContext,
    )
        requires
            curve.wf(),
            curve.keyframe_timestamps@.len() == 1,
            0 <= weight <= WEIGHT_SCALE,
            old(target_context).wf(),
        ensures
            final(target_context).wf(),
            final(target_context).view() == single_keyframe_view(
                *curve,
                weight as int,
                old(target_context).view(),
            ),
    {
        match &curve.keyframes {
            Keyframes::Rotation(ks) => {
                match &mut target_context.transform {
                    Some(t) => {
                        proof {
                            assert(ks@[0].bounded(MAX_VALUE as int));
                        }
                        t.rotation = quat_blend(t.rotation, ks[0], weight);
                    },
                    None => {},
                }
            },
            Keyframes::Translation(ks) => {
                match &mut target_context.transform {
                    Some(t) => {
                        proof {
                            assert(ks@[0].bounded(MAX_VALUE as int));
                        }
                        t.translation = vec3_blend(t.translation, ks[0], weight);
                    },
                    None => {},
                }
            },
            Keyframes::Scale(ks) => {
                match &mut target_context.transform {
                    Some(t) => {
                        proof {
                            assert(ks@[0].bounded(MAX_VALUE as int));
                        }
                        t.scale = vec3_blend(t.scale, ks[0], weight);
                    },
                    None => {},
                }
            },
            Keyframes::Weights(ks) => {
                match &mut target_context.morph_weights {
                    Some(m) => {
                        let tc = m.weights.len();
                        if tc <= ks.len() {
                            let sampled = get_keyframe(tc, ks, 0);
                            proof {
                                assert forall|j: int|
                                    0 <= j < sampled@.len() implies -MAX_POSE
                                    <= #[trigger] sampled@[j] <= MAX_POSE by {
                                    assert(sampled@[j] == ks@[(tc as int) * 0 + j]);
                                    assert(-MAX_VALUE <= ks@[j] <= MAX_VALUE);
                                }
                            }
                            lerp_morph_weights(&mut m.weights, &sampled, weight);
                        }
                    },
                    None => {},
                }
            },
        }
    }

    /// Apply one keyframe step of a multi-keyframe curve: dispatch on
    /// interpolation mode and payload kind, sample between keyframes
    /// `step_start` and `step_start + 1` at the interpolation factor
    /// `num / den`, and blend the sample into the matching output field by
    /// `weight` against the value already present.
    pub fn apply_tweened_keyframe(
        &self,
        curve: &VariableCurve,
        step_start: usize,
        weight: i64,
        num: i64,
        den: i64,
        duration: i64,
        target_context: &mut AnimationTargetContext,
    )
        requires
            curve.wf(),
            step_start as int + 1 < curve.keyframe_timestamps@.len(),
            0 <= num < den,
            den <= MAX_TIME,
            0 < duration <= MAX_TIME,
            0 <= weight <= WEIGHT_SCALE,
            old(target_context).wf(),
        ensures
            final(target_context).wf(),
            final(target_context).view() == tweened_view(
                *curve,
                step_start as int,
                weight as int,
                num as int,
                den as int,
                duration as int,
                old(target_context).view(),
            ),
    {
        let ghost n = curve.keyframe_timestamps@.len() as int;
        let timestamps_len: usize = curve.keyframe_timestamps.len();
        match (&curve.interpolation, &curve.keyframes) {
            (Interpolation::Step, Keyframes::Rotation(ks)) => {
                match &mut target_context.transform {
                    Some(t) => {
                        proof {
                            assert(ks@[step_start as int].bounded(MAX_VALUE as int));
                        }
                        t.rotation = quat_blend(t.rotation, ks[step_start], weight);
                    },
                    None => {},
                }
            },
            (Interpolation::Linear, Keyframes::Rotation(ks)) => {
                match &mut target_context.transform {
                    Some(t) => {
                        proof {
                            assert(ks@[step_start as int].bounded(MAX_VALUE as int));
                            assert(ks@[step_start as int + 1].bounded(MAX_VALUE as int));
                        }
                        let rot_start = ks[step_start];
                        let mut rot_end = ks[step_start + 1];
                        // Choose the smallest angle for the rotation.
                        if quat_dot_keyframes(rot_end, rot_start) < 0 {
                            rot_end = Quat {
                                x: -rot_end.x,
                                y: -rot_end.y,
                                z: -rot_end.z,
                                w: -rot_end.w,
                            };
                        }
                        let rot = quat_lerp(rot_start, rot_end, num, den);
                        t.rotation = quat_blend(t.rotation, rot, weight);
                    },
                    None => {},
                }
            },
            (Interpolation::CubicSpline, Keyframes::Rotation(ks)) => {
                match &mut target_context.transform {
                    Some(t) => {
                        let ks_len: usize = ks.len();
                        proof {
                            assert(ks@.len() == 3 * n);
                            assert(ks@[step_start as int * 3 + 1].bounded(MAX_VALUE as int));
                            assert(ks@[step_start as int * 3 + 2].bounded(MAX_VALUE as int));
                            assert(ks@[(step_start as int + 1) * 3].bounded(MAX_VALUE as int));
                            assert(ks@[(step_start as int + 1) * 3 + 1].bounded(MAX_VALUE as int));
                        }
                        let result = quat_cubic(
                            ks[step_start * 3 + 1],
                            ks[step_start * 3 + 2],
                            ks[(step_start + 1) * 3],
                            ks[(step_start + 1) * 3 + 1],
                            num,
                            den,
                            duration,
                        );
                        t.rotation = quat_blend(t.rotation, result, weight);
                    },
                    None => {},
                }
            },
            (Interpolation::Step, Keyframes::Translation(ks)) => {
                match &mut target_context.transform {
                    Some(t) => {
                        proof {
                            assert(ks@[step_start as int].bounded(MAX_VALUE as int));
                        }
                        t.translation = vec3_blend(t.translation, ks[step_start], weight);
                    },
                    None => {},
                }
            },
            (Interpolation::Linear, Keyframes::Translation(ks)) => {
                match &mut target_context.transform {
                    Some(t) => {
                        proof {
                            assert(ks@[step_start as int].bounded(MAX_VALUE as int));
                            assert(ks@[step_start as int + 1].bounded(MAX_VALUE as int));
                        }
                        let result = vec3_lerp(ks[step_start], ks[step_start + 1], num, den);
                        t.translation = vec3_blend(t.translation, result, weight);
                    },
                    None => {},
                }
            },
            (Interpolation::CubicSpline, Keyframes::Translation(ks)) => {
                match &mut target_context.transform {
                    Some(t) => {
                        let ks_len: usize = ks.len();
                        proof {
                            assert(ks@.len() == 3 * n);
                            assert(ks@[step_start as int * 3 + 1].bounded(MAX_VALUE as int));
                            assert(ks@[step_start as int * 3 + 2].bounded(MAX_VALUE as int));
                            assert(ks@[(step_start as int + 1) * 3].bounded(MAX_VALUE as int));
                            assert(ks@[(step_start as int + 1) * 3 + 1].bounded(MAX_VALUE as int));
                        }
                        let result = vec3_cubic(
                            ks[step_start * 3 + 1],
                            ks[step_start * 3 + 2],
                            ks[(step_start + 1) * 3],
                            ks[(step_start + 1) * 3 + 1],
                            num,
                            den,
                            duration,
                        );
                        t.translation = vec3_blend(t.translation, result, weight);
                    },
                    None => {},
                }
            },
            (Interpolation::Step, Keyframes::Scale(ks)) => {
                match &mut target_context.transform {
                    Some(t) => {
                        proof {
                            assert(ks@[step_start as int].bounded(MAX_VALUE as int));
                        }
                        t.scale = vec3_blend(t.scale, ks[step_start], weight);
                    },
                    None => {},
                }
            },
            (Interpolation::Linear, Keyframes::Scale(ks)) => {
                match &mut target_context.transform {
                    Some(t) => {
                        proof {
                            assert(ks@[step_start as int].bounded(MAX_VALUE as int));
                            assert(ks@[step_start as int + 1].bounded(MAX_VALUE as int));
                        }
                        let result = vec3_lerp(ks[step_start], ks[step_start + 1], num, den);
                        t.scale = vec3_blend(t.scale, result, weight);
                    },
                    None => {},
                }
            },
            (Interpolation::CubicSpline, Keyframes::Scale(ks)) => {
                match &mut target_context.transform {
                    Some(t) => {
                        let ks_len: usize = ks.len();
                        proof {
                            assert(ks@.len() == 3 * n);
                            assert(ks@[step_start as int * 3 + 1].bounded(MAX_VALUE as int));
                            assert(ks@[step_start as int * 3 + 2].bounded(MAX_VALUE as int));
                            assert(ks@[(step_start as int + 1) * 3].bounded(MAX_VALUE as int));
                            assert(ks@[(step_start as int + 1) * 3 + 1].bounded(MAX_VALUE as int));
                        }
                        let result = vec3_cubic(
                            ks[step_start * 3 + 1],
                            ks[step_start * 3 + 2],
                            ks[(step_start + 1) * 3],
                            ks[(step_start + 1) * 3 + 1],
                            num,
                            den,
                            duration,
                        );
                        t.scale = vec3_blend(t.scale, result, weight);
                    },
                    None => {},
                }
            },
            (Interpolation::Step, Keyframes::Weights(ks)) => {
                match &mut target_context.morph_weights {
                    Some(m) => {
                        let tc = m.weights.len();
                        if block_bound_ok(tc, (step_start as u128) + 1, ks.len()) {
                            let sampled = get_keyframe(tc, ks, step_start);
                            proof {
                                assert forall|j: int|
                                    0 <= j < sampled@.len() implies -MAX_POSE
                                    <= #[trigger] sampled@[j] <= MAX_POSE by {
                                    assert((tc as int) * (step_start as int) + tc == (tc as int) * (
                                    step_start as int + 1) && 0 <= (tc as int) * (
                                    step_start as int)) by (nonlinear_arith)
                                        requires
                                            tc >= 0,
                                            step_start >= 0,
                                    ;
                                    assert(sampled@[j] == ks@[(tc as int) * (step_start as int)
                                        + j]);
                                    assert(-MAX_VALUE <= ks@[(tc as int) * (step_start as int) + j]
                                        <= MAX_VALUE);
                                }
                            }
                            lerp_morph_weights(&mut m.weights, &sampled, weight);
                        }
                    },
                    None => {},
                }
            },
            (Interpolation::Linear, Keyframes::Weights(ks)) => {
                match &mut target_context.morph_weights {
                    Some(m) => {
                        let tc = m.weights.len();
                        if block_bound_ok(tc, (step_start as u128) + 2, ks.len()) {
                            let sampled = sample_morph_linear(ks, tc, step_start, num, den);
                            lerp_morph_weights(&mut m.weights, &sampled, weight);
                        }
                    },
                    None => {},
                }
            },
            (Interpolation::CubicSpline, Keyframes::Weights(ks)) => {
                match &mut target_context.morph_weights {
                    Some(m) => {
                        let tc = m.weights.len();
                        if block_bound_ok(tc, 3 * (step_start as u128) + 5, ks.len()) {
                            if tc > 0 {
                                proof {
                                    assert(3 * (step_start as int) + 5 <= (tc as int) * (3 * (
                                    step_start as int) + 5)) by (nonlinear_arith)
                                        requires
                                            tc >= 1,
                                            step_start >= 0,
                                    ;
                                }
                                let sampled = sample_morph_cubic(
                                    ks,
                                    tc,
                                    step_start,
                                    num,
                                    den,
                                    duration,
                                );
                                lerp_morph_weights(&mut m.weights, &sampled, weight);
                            } else {
                                proof {
                                    assert(m.weights@ =~= morph_blend_spec(
                                        m.weights@,
                                        morph_sample_cubic(
                                            ks@,
                                            0,
                                            step_start as int,
                                            num as int,
                                            den as int,
                                            duration as int,
                                        ),
                                        weight as int,
                                    ));
                                }
                            }
                        }
                    },
                    None => {},
                }
            },
        }
    }
}

/// The dot product of two keyframe quaternions.
fn quat_dot_keyframes(a: Quat, b: Quat) -> (r: i64)
    requires
        a.bounded(MAX_VALUE as int),
        b.bounded(MAX_VALUE as int),
    ensures
        r == quat_dot_spec(a, b),
{
    proof {
        assert((a.x as int) * (b.x as int) <= (MAX_VALUE as int) * (MAX_VALUE as int) && (
        a.x as int) * (b.x as int) >= -((MAX_VALUE as int) * (MAX_VALUE as int)) && (a.y as int) * (
        b.y as int) <= (MAX_VALUE as int) * (MAX_VALUE as int) && (a.y as int) * (b.y as int) >= -((
        MAX_VALUE as int) * (MAX_VALUE as int)) && (a.z as int) * (b.z as int) <= (MAX_VALUE as int)
            * (MAX_VALUE as int) && (a.z as int) * (b.z as int) >= -((MAX_VALUE as int) * (
        MAX_VALUE as int)) && (a.w as int) * (b.w as int) <= (MAX_VALUE as int) * (MAX_VALUE as int)
            && (a.w as int) * (b.w as int) >= -((MAX_VALUE as int) * (MAX_VALUE as int)))
            by (nonlinear_arith)
            requires
                a.bounded(MAX_VALUE as int),
                b.bounded(MAX_VALUE as int),
        ;
    }
    a.x * b.x + a.y * b.y + a.z * b.z + a.w * b.w
}


/// The index of the keyframe interval containing `seek` (unique when the
/// timestamps are sorted).
pub open spec fn keyframe_index(ts: Seq<i64>, seek: int) -> int {
    choose|i: int| is_current_keyframe(ts, seek, i)
}

/// A target view after one curve is applied at seek time `seek`: a
/// single-keyframe curve applies its only keyframe directly; a curve whose
/// seek time falls between two keyframes applies the tweened sample; a
/// curve that is unstarted or finished (and an empty curve) contributes
/// nothing.
pub open spec fn applied_curve(seek: int, curve: VariableCurve, weight: int, v: TargetView) -> TargetView {
    let ts = curve.keyframe_timestamps@;
    if ts.len() == 1 {
        single_keyframe_view(curve, weight, v)
    } else if ts.len() >= 2 && ts[0] <= seek < ts[ts.len() - 1] {
        let s = keyframe_index(ts, seek);
        tweened_view(curve, s, weight, seek - ts[s], ts[s + 1] - ts[s], ts[s + 1] - ts[s], v)
    } else {
        v
    }
}

/// A target view after a list of curves is applied in order.
pub open spec fn applied_curves(
    seek: int,
    curves: Seq<VariableCurve>,
    weight: int,
    v: TargetView,
) -> TargetView
    decreases curves.len(),
{
    if curves.len() == 0 {
        v
    } else {
        applied_curve(seek, curves.last(), weight, applied_curves(seek, curves.drop_last(), weight, v))
    }
}

/// A target view after one playing animation is applied: its clip is
/// resolved in the store (an absent clip contributes nothing), the curves
/// for the target are looked up (an unanimated target is untouched), and
/// each curve is applied in order at the animation's seek time.
pub open spec fn applied_animation(
    anim: PlayingAnimation,
    clips: ClipAssets,
    weight: int,
    target_id: AnimationTargetId,
    v: TargetView,
) -> TargetView {
    match clips.spec_get(anim.animation_clip.id) {
        None => v,
        Some(clip) => {
            let ev = clip.entries_view();
            if has_key(ev, target_id.id) {
                applied_curves(anim.seek_time as int, ev[key_index(ev, target_id.id)].1, weight, v)
            } else {
                v
            }
        },
    }
}

/// A target view after a list of transitions is applied in order (oldest
/// fade first), each with its own weight.
pub open spec fn applied_transitions(
    ts: Seq<AnimationTransition>,
    clips: ClipAssets,
    target_id: AnimationTargetId,
    v: TargetView,
) -> TargetView
    decreases ts.len(),
{
    if ts.len() == 0 {
        v
    } else {
        applied_animation(
            ts.last().animation,
            clips,
            ts.last().current_weight as int,
            target_id,
            applied_transitions(ts.drop_last(), clips, target_id, v),
        )
    }
}

/// A target view after one player's full evaluation: the primary animation
/// at full weight, then every transition in order, each blend compounding
/// against the already-blended value.
pub open spec fn animated_target_view(
    player: AnimationPlayer,
    clips: ClipAssets,
    target_id: AnimationTargetId,
    v: TargetView,
) -> TargetView {
    applied_transitions(
        player.spec_transitions(),
        clips,
        target_id,
        applied_animation(player.spec_animation(), clips, WEIGHT_SCALE as int, target_id, v),
    )
}

impl PlayingAnimation {
    /// Apply this animation's curves for one target at the current seek
    /// time, blending each curve's sample into the target's output fields
    /// by `weight`. An unloaded clip and an unanimated target contribute
    /// nothing, as does a curve that is unstarted or finished.
    pub fn apply(
        &self,
        clips: &ClipAssets,
        weight: i64,
        target_id: AnimationTargetId,
        target_context: &mut AnimationTargetContext,
    )
        requires
            clips.wf(),
            0 <= weight <= WEIGHT_SCALE,
            old(target_context).wf(),
        ensures
            final(target_context).wf(),
            final(target_context).view() == applied_animation(
                *self,
                *clips,
                weight as int,
                target_id,
                old(target_context).view(),
            ),
    {
        let ghost v0 = old(target_context).view();
        let clip = match clips.get(&self.animation_clip) {
            Some(c) => c,
            None => { return ; },
        };
        proof {
            clips.lemma_get_wf(self.animation_clip.id);
        }
        let curves = match clip.curves_for_target(target_id) {
            Some(c) => c,
            None => { return ; },
        };
        let ghost cs = curves@;
        proof {
            assert forall|k: int| 0 <= k < cs.len() implies (#[trigger] cs[k]).wf() by {
                let ev = clip.entries_view();
                let j = crate::clip::key_index(ev, target_id.id);
                assert(ev[j].1[k].wf());
            }
        }
        let mut i: usize = 0;
        while i < curves.len()
            invariant
                i <= curves.len(),
                curves@ == cs,
                clips.wf(),
                0 <= weight <= WEIGHT_SCALE,
                forall|k: int| 0 <= k < cs.len() ==> (#[trigger] cs[k]).wf(),
                target_context.wf(),
                target_context.view() == applied_curves(
                    self.seek_time as int,
                    cs.take(i as int),
                    weight as int,
                    v0,
                ),
            decreases curves.len() - i,
        {
            let curve = &curves[i];
            let nts = curve.keyframe_timestamps.len();
            // Some curves have only one keyframe, used to set a transform.
            if nts == 1 {
                self.apply_single_keyframe(curve, weight, target_context);
            } else if nts >= 2 {
                // Find the current keyframe.
                match curve.find_current_keyframe(self.seek_time) {
                    Some(step_start) => {
                        let timestamp_start = curve.keyframe_timestamps[step_start];
                        let timestamp_end = curve.keyframe_timestamps[step_start + 1];
                        let num = self.seek_time - timestamp_start;
                        let den = timestamp_end - timestamp_start;
                        proof {
                            crate::curve::lemma_current_keyframe_unique(
                                curve.keyframe_timestamps@,
                                self.seek_time as int,
                                step_start as int,
                                keyframe_index(curve.keyframe_timestamps@, self.seek_time as int),
                            );
                        }
                        self.apply_tweened_keyframe(
                            curve,
                            step_start,
                            weight,
                            num,
                            den,
                            den,
                            target_context,
                        );
                    },
                    None => {},
                }
            }
            proof {
                assert(cs.take(i + 1).drop_last() =~= cs.take(i as int));
                assert(cs.take(i + 1).last() == cs[i as int]);
            }
            i = i + 1;
        }
        proof {
            assert(cs.take(cs.len() as int) =~= cs);
        }
    }
}

/// An animation target: an animated object's binding record, pairing its
/// stable identifier with a reference (an index) to the player that drives
/// it.
///
/// Each target is driven by one player at a time, but the `player` field
/// may be rewritten at runtime to hand the target to a different player.
#[derive(Clone, Copy, Debug, PartialEq, Eq, Structural)]
pub struct AnimationTarget {
    /// The ID of this animation target.
    pub id: AnimationTargetId,
    /// The index of the player driving this target.
    pub player: u64,
}

impl AnimationTarget {
    /// Rewrite the owning-player reference, as when target bindings are
    /// duplicated into a new scene and player references must be remapped.
    pub fn remap_player(&mut self, new_player: u64)
        ensures
            final(self).player == new_player,
            final(self).id == old(self).id,
    {
        self.player = new_player;
    }
}

/// Evaluate one target for one tick: the owning player's primary animation
/// is applied at full weight, then each of its transitions in order, every
/// blend compounding against the already-blended output fields.
pub fn animate_target(
    player: &AnimationPlayer,
    clips: &ClipAssets,
    target_id: AnimationTargetId,
    target_context: &mut AnimationTargetContext,
)
    requires
        player.wf(),
        clips.wf(),
        old(target_context).wf(),
    ensures
        final(target_context).wf(),
        final(target_context).view() == animated_target_view(
            *player,
            *clips,
            target_id,
            old(target_context).view(),
        ),
{
    player.playing_animation().apply(clips, WEIGHT_SCALE, target_id, target_context);
    let ghost v1 = target_context.view();
    let ghost ts = player.spec_transitions();
    let transitions = player.transitions();
    let mut i: usize = 0;
    proof {
        assert(applied_transitions(ts.take(0), *clips, target_id, v1) == v1);
    }
    while i < transitions.len()
        invariant
            i <= transitions.len(),
            transitions@ == ts,
            player.wf(),
            clips.wf(),
            forall|k: int| 0 <= k < ts.len() ==> (#[trigger] ts[k]).wf(),
            target_context.wf(),
            target_context.view() == applied_transitions(ts.take(i as int), *clips, target_id, v1),
        decreases transitions.len() - i,
    {
        let transition = &transitions[i];
        proof {
            assert(ts[i as int].wf());
        }
        transition.animation.apply(clips, transition.current_weight, target_id, target_context);
        proof {
            assert(ts.take(i + 1).drop_last() =~= ts.take(i as int));
            assert(ts.take(i + 1).last() == ts[i as int]);
        }
        i = i + 1;
    }
    proof {
        assert(ts.take(ts.len() as int) =~= ts);
    }
}

/// A system step that evaluates every animation target against its owning
/// player: for each target whose `player` index resolves, the player's
/// primary animation and transitions are applied to the target's output
/// fields. A target whose player is missing is skipped. Targets are
/// independent: each evaluation reads only its own player's state and
/// writes only its own fields, so their order does not matter.
pub fn animate_targets(
    clips: &ClipAssets,
    players: &Vec<AnimationPlayer>,
    targets: &mut Vec<(AnimationTarget, AnimationTargetContext)>,
)
    requires
        clips.wf(),
        forall|k: int| 0 <= k < players@.len() ==> (#[trigger] players@[k]).wf(),
        forall|k: int| 0 <= k < old(targets)@.len() ==> (#[trigger] old(targets)@[k].1).wf(),
    ensures
        final(targets)@.len() == old(targets)@.len(),
        forall|k: int|
            0 <= k < final(targets)@.len() ==> (#[trigger] final(targets)@[k]).0 == old(
                targets,
            )@[k].0,
        forall|k: int| 0 <= k < final(targets)@.len() ==> (#[trigger] final(targets)@[k].1).wf(),
        forall|k: int|
            0 <= k < final(targets)@.len() ==> {
                let target = old(targets)@[k].0;
                if target.player < players@.len() {
                    (#[trigger] final(targets)@[k]).1.view() == animated_target_view(
                        players@[target.player as int],
                        *clips,
                        target.id,
                        old(targets)@[k].1.view(),
                    )
                } else {
                    final(targets)@[k].1 == old(targets)@[k].1
                }
            },
{
    let ghost pre = old(targets)@;
    let n = targets.len();
    let mut i: usize = 0;
    while i < n
        invariant
            i <= n,
            n == targets@.len(),
            targets@.len() == pre.len(),
            clips.wf(),
            forall|k: int| 0 <= k < players@.len() ==> (#[trigger] players@[k]).wf(),
            forall|k: int| 0 <= k < pre.len() ==> (#[trigger] pre[k].1).wf(),
            forall|k: int| i <= k < pre.len() ==> targets@[k] == pre[k],
            forall|k: int| 0 <= k < i ==> (#[trigger] targets@[k]).0 == pre[k].0,
            forall|k: int| 0 <= k < i ==> (#[trigger] targets@[k].1).wf(),
            forall|k: int|
                0 <= k < i ==> {
                    let target = pre[k].0;
                    if target.player < players@.len() {
                        (#[trigger] targets@[k]).1.view() == animated_target_view(
                            players@[target.player as int],
                            *clips,
                            target.id,
                            pre[k].1.view(),
                        )
                    } else {
                        targets@[k].1 == pre[k].1
                    }
                },
        decreases n - i,
    {
        let mut pair = targets.remove(i);
        proof {
            assert(pre[i as int].1.wf());
        }
        let player_index = pair.0.player;
        if player_index < players.len() as u64 {
            let player = &players[player_index as usize];
            proof {
                assert(players@[player_index as int].wf());
            }
            animate_target(player, clips, pair.0.id, &mut pair.1);
        }
        targets.insert(i, pair);
        i = i + 1;
    }
}

} // verus!




