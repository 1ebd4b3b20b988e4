//! Keyframe curves: timestamped payload sequences with an interpolation mode,
//! and the lookup that finds which keyframe interval a seek time falls in.

use vstd::prelude::*;

use crate::MAX_TIME;
use crate::MAX_VALUE;

verus! {

/// A three-component vector sample (translation or scale), in fixed-point
/// units chosen by the host.
#[derive(Clone, Copy, Debug, PartialEq, Eq, Structural)]
pub struct Vec3 {
    pub x: i64,
    pub y: i64,
    pub z: i64,
}

/// A quaternion sample (rotation), in fixed-point units chosen by the host.
#[derive(Clone, Copy, Debug, PartialEq, Eq, Structural)]
pub struct Quat {
    pub x: i64,
    pub y: i64,
    pub z: i64,
    pub w: i64,
}

impl Vec3 {
    /// True when every component is at most `bound` in magnitude.
    pub open spec fn bounded(self, bound: int) -> bool {
        &&& -bound <= self.x <= bound
        &&& -bound <= self.y <= bound
        &&& -bound <= self.z <= bound
    }
}

impl Quat {
    /// True when every component is at most `bound` in magnitude.
    pub open spec fn bounded(self, bound: int) -> bool {
        &&& -bound <= self.x <= bound
        &&& -bound <= self.y <= bound
        &&& -bound <= self.z <= bound
        &&& -bound <= self.w <= bound
    }
}

/// List of keyframes for one animated attribute of a target.
#[derive(Clone, Debug)]
pub enum Keyframes {
    /// Keyframes for rotation.
    Rotation(Vec<Quat>),
    /// Keyframes for translation.
    Translation(Vec<Vec3>),
    /// Keyframes for scale.
    Scale(Vec<Vec3>),
    /// Keyframes for morph target weights: each contiguous run of
    /// `target_count` values is a single keyframe, where `target_count` is
    /// the number of morph channels of the target being driven.
    Weights(Vec<i64>),
}

impl Keyframes {
    /// Number of payload entries (for `Weights`, the flat count of values,
    /// not the count of logical keyframes).
    pub open spec fn spec_len(&self) -> nat {
        match self {
            Keyframes::Rotation(v) => v@.len(),
            Keyframes::Translation(v) => v@.len(),
            Keyframes::Scale(v) => v@.len(),
            Keyframes::Weights(v) => v@.len(),
        }
    }

    /// Returns the number of keyframes.
    pub fn len(&self) -> (n: usize)
        ensures
            n == self.spec_len(),
    {
        match self {
            Keyframes::Weights(vec) => vec.len(),
            Keyframes::Translation(vec) => vec.len(),
            Keyframes::Scale(vec) => vec.len(),
            Keyframes::Rotation(vec) => vec.len(),
        }
    }

    /// Returns true if the number of keyframes is zero.
    pub fn is_empty(&self) -> (r: bool)
        ensures
            r == (self.spec_len() == 0),
    {
        self.len() == 0
    }

    /// Every sample in the payload is at most `bound` in magnitude.
    pub open spec fn all_bounded(&self, bound: int) -> bool {
        match self {
            Keyframes::Rotation(v) => forall|i: int|
                0 <= i < v@.len() ==> #[trigger] v@[i].bounded(bound),
            Keyframes::Translation(v) => forall|i: int|
                0 <= i < v@.len() ==> #[trigger] v@[i].bounded(bound),
            Keyframes::Scale(v) => forall|i: int|
                0 <= i < v@.len() ==> #[trigger] v@[i].bounded(bound),
            Keyframes::Weights(v) => forall|i: int|
                0 <= i < v@.len() ==> -bound <= #[trigger] v@[i] <= bound,
        }
    }
}

/// Interpolation method to use between keyframes.
#[derive(Clone, Copy, Debug, PartialEq, Eq, Structural)]
pub enum Interpolation {
    /// Linear interpolation between the two closest keyframes.
    Linear,
    /// Step interpolation: the value of the start keyframe is used.
    Step,
    /// Cubic spline interpolation: the values of the two closest keyframes
    /// are used, with the out tangent of the start keyframe and the in
    /// tangent of the end keyframe.
    CubicSpline,
}

/// Timestamps are strictly increasing.
pub open spec fn timestamps_sorted(ts: Seq<i64>) -> bool {
    forall|i: int, j: int| 0 <= i < j < ts.len() ==> ts[i] < ts[j]
}

/// Index `i` is the keyframe interval containing `seek`: both `i` and `i + 1`
/// are valid indices and `ts[i] <= seek < ts[i + 1]`.
pub open spec fn is_current_keyframe(ts: Seq<i64>, seek: int, i: int) -> bool {
    &&& 0 <= i
    &&& i + 1 < ts.len()
    &&& ts[i] <= seek < ts[i + 1]
}

/// Describes how an attribute of a target should be animated.
///
/// `keyframe_timestamps` and `keyframes` must be consistent as stated by
/// [`VariableCurve::wf`]; this is a caller invariant, checkable with
/// [`VariableCurve::is_well_formed`].
#[derive(Clone, Debug)]
pub struct VariableCurve {
    /// Timestamp for each of the keyframes, in ticks.
    pub keyframe_timestamps: Vec<i64>,
    /// List of the keyframes.
    ///
    /// The representation depends on the interpolation mode of this curve:
    ///
    /// - for `Interpolation::Step` and `Interpolation::Linear`, each keyframe
    ///   is a single value
    /// - for `Interpolation::CubicSpline`, each keyframe is made of three
    ///   values for `tangent_in`, `keyframe_value` and `tangent_out`
    pub keyframes: Keyframes,
    /// Interpolation method to use between keyframes.
    pub interpolation: Interpolation,
}

impl VariableCurve {
    /// Payload entries per logical keyframe: three for cubic splines
    /// (in-tangent, value, out-tangent), one otherwise.
    pub open spec fn entries_per_keyframe(&self) -> int {
        match self.interpolation {
            Interpolation::CubicSpline => 3,
            _ => 1,
        }
    }

    /// Well-formed curve data: strictly increasing timestamps within the
    /// engine's time range, payload samples within the engine's value range,
    /// and a payload entry count consistent with the timestamp count (for
    /// `Weights`, a whole number of per-keyframe blocks).
    pub open spec fn wf(&self) -> bool {
        let n = self.keyframe_timestamps@.len() as int;
        &&& timestamps_sorted(self.keyframe_timestamps@)
        &&& forall|i: int|
            0 <= i < n ==> 0 <= #[trigger] self.keyframe_timestamps@[i] <= MAX_TIME
        &&& self.keyframes.all_bounded(MAX_VALUE as int)
        &&& match self.keyframes {
            Keyframes::Weights(_) => n > 0 ==> self.keyframes.spec_len() as int % (
            self.entries_per_keyframe() * n) == 0,
            _ => self.keyframes.spec_len() == self.entries_per_keyframe() * n,
        }
    }

    /// Runtime check for [`VariableCurve::wf`].
    pub fn is_well_formed(&self) -> (r: bool)
        ensures
            r == self.wf(),
    {
        let n = self.keyframe_timestamps.len();
        let mut i: usize = 0;
        while i < n
            invariant
                i <= n,
                n == self.keyframe_timestamps.len(),
                forall|k: int| 0 <= k < i ==> 0 <= #[trigger] self.keyframe_timestamps@[k] <= MAX_TIME,
                forall|k: int|
                    0 <= k < i && k + 1 < n ==> #[trigger] self.keyframe_timestamps@[k]
                        < self.keyframe_timestamps@[k + 1],
            decreases n - i,
        {
            let t = self.keyframe_timestamps[i];
            if t < 0 || t > MAX_TIME {
                return false;
            }
            if i + 1 < n && self.keyframe_timestamps[i] >= self.keyframe_timestamps[i + 1] {
                return false;
            }
            i = i + 1;
        }
        proof {
            assert forall|p: int, q: int|
                0 <= p < q < n implies self.keyframe_timestamps@[p]
                < self.keyframe_timestamps@[q] by {
                lemma_adjacent_increasing_implies_sorted(self.keyframe_timestamps@, p, q);
            }
        }
        let per: u128 = match self.interpolation {
            Interpolation::CubicSpline => 3,
            _ => 1,
        };
        let payload_len: u128 = self.keyframes.len() as u128;
        let is_weights = match &self.keyframes {
            Keyframes::Weights(_) => true,
            _ => false,
        };
        let len_ok = if is_weights {
            n == 0 || payload_len % (per * (n as u128)) == 0
        } else {
            payload_len == per * (n as u128)
        };
        if !len_ok {
            return false;
        }
        self.keyframes_bounded()
    }

    /// Runtime check that every payload sample is within `MAX_VALUE`.
    #[verifier::loop_isolation(false)]
    fn keyframes_bounded(&self) -> (r: bool)
        ensures
            r == self.keyframes.all_bounded(MAX_VALUE as int),
    {
        match &self.keyframes {
            Keyframes::Rotation(v) => {
                let mut i: usize = 0;
                while i < v.len()
                    invariant
                        i <= v.len(),
                        forall|k: int| 0 <= k < i ==> #[trigger] v@[k].bounded(MAX_VALUE as int),
                    decreases v.len() - i,
                {
                    let q = v[i];
                    if q.x < -MAX_VALUE || q.x > MAX_VALUE || q.y < -MAX_VALUE || q.y > MAX_VALUE
                        || q.z < -MAX_VALUE || q.z > MAX_VALUE || q.w < -MAX_VALUE
                        || q.w > MAX_VALUE {
                        assert(!v@[i as int].bounded(MAX_VALUE as int));
                        return false;
                    }
                    i = i + 1;
                }
                true
            },
            Keyframes::Translation(v) | Keyframes::Scale(v) => {
                let mut i: usize = 0;
                while i < v.len()
                    invariant
                        i <= v.len(),
                        forall|k: int| 0 <= k < i ==> #[trigger] v@[k].bounded(MAX_VALUE as int),
                    decreases v.len() - i,
                {
                    let p = v[i];
                    if p.x < -MAX_VALUE || p.x > MAX_VALUE || p.y < -MAX_VALUE || p.y > MAX_VALUE
                        || p.z < -MAX_VALUE || p.z > MAX_VALUE {
                        assert(!v@[i as int].bounded(MAX_VALUE as int));
                        return false;
                    }
                    i = i + 1;
                }
                true
            },
            Keyframes::Weights(v) => {
                let mut i: usize = 0;
                while i < v.len()
                    invariant
                        i <= v.len(),
                        forall|k: int|
                            0 <= k < i ==> -MAX_VALUE <= #[trigger] v@[k] <= MAX_VALUE,
                    decreases v.len() - i,
                {
                    let s = v[i];
                    if s < -MAX_VALUE || s > MAX_VALUE {
                        assert(!(-MAX_VALUE <= v@[i as int] <= MAX_VALUE));
                        return false;
                    }
                    i = i + 1;
                }
                true
            },
        }
    }

    /// Find the index of the keyframe at or before the given seek time.
    ///
    /// Returns `None` if the curve is finished or not yet started: that is,
    /// whenever the seek time is before the first timestamp or at or past
    /// the last one, since then there is no *next* keyframe to interpolate
    /// toward. Otherwise returns the unique index `i` with
    /// `keyframe_timestamps[i] <= seek_time < keyframe_timestamps[i + 1]`.
    pub fn find_current_keyframe(&self, seek_time: i64) -> (r: Option<usize>)
        requires
            timestamps_sorted(self.keyframe_timestamps@),
            self.keyframe_timestamps.len() >= 1,
        ensures
            r is Some <==> {
                let ts = self.keyframe_timestamps@;
                ts.len() >= 2 && ts[0] <= seek_time < ts[ts.len() - 1]
            },
            match r {
                Some(i) => is_current_keyframe(self.keyframe_timestamps@, seek_time as int, i as int),
                None => true,
            },
    {
        let n = self.keyframe_timestamps.len();
        if n == 1 {
            return None;
        }
        if seek_time < self.keyframe_timestamps[0] {
            return None;
        }
        if seek_time >= self.keyframe_timestamps[n - 1] {
            return None;
        }
        let mut lo: usize = 0;
        let mut hi: usize = n - 1;
        while lo + 1 < hi
            invariant
                lo < hi < self.keyframe_timestamps.len(),
                timestamps_sorted(self.keyframe_timestamps@),
                self.keyframe_timestamps@[lo as int] <= seek_time,
                seek_time < self.keyframe_timestamps@[hi as int],
            decreases hi - lo,
        {
            let mid = lo + (hi - lo) / 2;
            if self.keyframe_timestamps[mid] <= seek_time {
                lo = mid;
            } else {
                hi = mid;
            }
        }
        Some(lo)
    }
}

/// Strict increase of adjacent entries extends to any pair of indices.
proof fn lemma_adjacent_increasing_implies_sorted(ts: Seq<i64>, p: int, q: int)
    requires
        forall|k: int| 0 <= k < ts.len() - 1 ==> #[trigger] ts[k] < ts[k + 1],
        0 <= p < q < ts.len(),
    ensures
        ts[p] < ts[q],
    decreases q - p,
{
    if p + 1 == q {
    } else {
        lemma_adjacent_increasing_implies_sorted(ts, p + 1, q);
    }
}

/// The keyframe interval containing a seek time is unique: with strictly
/// increasing timestamps, at most one index satisfies
/// [`is_current_keyframe`] for a given seek time.
pub proof fn lemma_current_keyframe_unique(ts: Seq<i64>, seek: int, i: int, j: int)
    requires
        timestamps_sorted(ts),
        is_current_keyframe(ts, seek, i),
        is_current_keyframe(ts, seek, j),
    ensures
        i == j,
{
    if i < j {
        assert(ts[i + 1] <= ts[j]);
    }
    if j < i {
        assert(ts[j + 1] <= ts[i]);
    }
}

/// Continuity of keyframe lookup: every seek time within one keyframe
/// interval selects that same interval. In particular, an exact match on
/// `ts[i]` and any later seek time still before `ts[i + 1]` yield the same
/// index.
pub proof fn lemma_lookup_continuity(ts: Seq<i64>, i: int, t1: int, t2: int)
    requires
        timestamps_sorted(ts),
        0 <= i,
        i + 1 < ts.len(),
        ts[i] <= t1 < ts[i + 1],
        ts[i] <= t2 < ts[i + 1],
    ensures
        is_current_keyframe(ts, t1, i),
        is_current_keyframe(ts, t2, i),
{
}

} // verus!
